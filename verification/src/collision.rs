//! Elastic exchange of velocity between two overlapping bubbles, and the
//! push that separates them.

use vstd::prelude::*;
use crate::bubble::Bubble;
use crate::fixed::{
    in_range, isqrt, lemma_product_bound, lemma_trunc_div_remainder, narrow, quotient,
    sqrt_floor, trunc_div, LIMIT,
};
use crate::screen::Vector;

verus! {

/// The speed of a body of mass `m1` and speed `v1` after a head-on elastic
/// collision with a body of mass `m2` and speed `v2`.
pub open spec fn exchanged(v1: int, m1: int, v2: int, m2: int) -> int {
    trunc_div(v1 * (m1 - m2) + v2 * (2 * m2), m1 + m2)
}

/// How far each centre moves along one axis so that two discs at distance
/// `dist`, `d` apart on that axis, end up `reach` apart: half the overlap
/// along the line of centres. Coinciding centres are left alone.
pub open spec fn separation(d: int, reach: int, dist: int) -> int {
    if dist == 0 {
        0
    } else {
        trunc_div(d * (reach - dist), 2 * dist)
    }
}

impl Bubble {
    /// The distance between the centres, rounded down.
    pub open spec fn distance(self, other: Bubble) -> int {
        isqrt(self.position.dist2(other.position) as nat) as int
    }

    /// The abscissa of `self` after it is pushed away from `other`.
    pub open spec fn pushed_x(self, other: Bubble) -> int {
        self.position.x - separation(
            other.position.x - self.position.x,
            self.radius + other.radius,
            self.distance(other),
        )
    }

    /// The ordinate of `self` after it is pushed away from `other`.
    pub open spec fn pushed_y(self, other: Bubble) -> int {
        self.position.y - separation(
            other.position.y - self.position.y,
            self.radius + other.radius,
            self.distance(other),
        )
    }

    /// The horizontal speed of `self` after the exchange with `other`.
    pub open spec fn exchanged_x(self, other: Bubble) -> int {
        exchanged(
            self.velocity.x as int,
            self.mass as int,
            other.velocity.x as int,
            other.mass as int,
        )
    }

    /// The vertical speed of `self` after the exchange with `other`.
    pub open spec fn exchanged_y(self, other: Bubble) -> int {
        exchanged(
            self.velocity.y as int,
            self.mass as int,
            other.velocity.y as int,
            other.mass as int,
        )
    }

    /// Whether what a collision with `other` makes of `self` is storable.
    pub open spec fn rebound_fits(self, other: Bubble) -> bool {
        &&& in_range(self.pushed_x(other))
        &&& in_range(self.pushed_y(other))
        &&& in_range(self.exchanged_x(other))
        &&& in_range(self.exchanged_y(other))
    }

    /// What a collision with `other` makes of `self`.
    pub open spec fn rebound(self, other: Bubble) -> Bubble {
        Bubble {
            position: Vector { x: self.pushed_x(other) as i64, y: self.pushed_y(other) as i64 },
            radius: self.radius,
            velocity: Vector {
                x: self.exchanged_x(other) as i64,
                y: self.exchanged_y(other) as i64,
            },
            mass: self.mass,
        }
    }

    /// Two bubbles collide when they overlap and both outcomes are storable.
    pub open spec fn can_collide(self, other: Bubble) -> bool {
        &&& self.overlaps(other)
        &&& self.rebound_fits(other)
        &&& other.rebound_fits(self)
    }

    /// Resolves the collision of two bubbles. Where they overlap, each takes
    /// the velocity that a head-on elastic collision gives it, computed from
    /// both velocities as they were, and each is pushed back by half the
    /// overlap along the line of centres. Gives nothing where they do not
    /// overlap, or where an outcome is not storable.
    pub fn collide(&self, other: &Bubble) -> (r: Option<(Bubble, Bubble)>)
        requires
            self.wf(),
            other.wf(),
        ensures
            r == (if self.can_collide(*other) {
                Some((self.rebound(*other), other.rebound(*self)))
            } else {
                None
            }),
            r matches Some(pair) ==> pair.0.wf() && pair.1.wf(),
    {
        let gap2: i128 = self.position.distance_squared(&other.position);
        let reach: i128 = self.radius as i128 + other.radius as i128;
        proof {
            lemma_product_bound(reach as int, reach as int, 2 * LIMIT, 2 * LIMIT);
            lemma_dist2_symmetric(self.position, other.position);
        }
        if !(gap2 < reach * reach) {
            return None;
        }
        let dist: i128 = sqrt_floor(gap2 as u128) as i128;
        proof {
            crate::fixed::lemma_isqrt_bounds(gap2 as nat);
            assert(dist < reach) by (nonlinear_arith)
                requires
                    dist * dist <= gap2,
                    gap2 < reach * reach,
                    dist >= 0,
                    reach >= 0,
            ;
        }
        let dx: i128 = other.position.x as i128 - self.position.x as i128;
        let dy: i128 = other.position.y as i128 - self.position.y as i128;
        let shift_x: i128 = shift(dx, reach, dist);
        let shift_y: i128 = shift(dy, reach, dist);
        proof {
            lemma_separation_odd(dx as int, reach as int, dist as int);
            lemma_separation_odd(dy as int, reach as int, dist as int);
        }
        let ax = narrow(self.position.x as i128 - shift_x);
        let ay = narrow(self.position.y as i128 - shift_y);
        let bx = narrow(other.position.x as i128 + shift_x);
        let by = narrow(other.position.y as i128 + shift_y);
        let avx = narrow(exchange(self.velocity.x, self.mass, other.velocity.x, other.mass));
        let avy = narrow(exchange(self.velocity.y, self.mass, other.velocity.y, other.mass));
        let bvx = narrow(exchange(other.velocity.x, other.mass, self.velocity.x, self.mass));
        let bvy = narrow(exchange(other.velocity.y, other.mass, self.velocity.y, self.mass));
        match (ax, ay, avx, avy, bx, by, bvx, bvy) {
            (
                Some(ax),
                Some(ay),
                Some(avx),
                Some(avy),
                Some(bx),
                Some(by),
                Some(bvx),
                Some(bvy),
            ) => Some(
                (
                    Bubble {
                        position: Vector { x: ax, y: ay },
                        radius: self.radius,
                        velocity: Vector { x: avx, y: avy },
                        mass: self.mass,
                    },
                    Bubble {
                        position: Vector { x: bx, y: by },
                        radius: other.radius,
                        velocity: Vector { x: bvx, y: bvy },
                        mass: other.mass,
                    },
                ),
            ),
            _ => None,
        }
    }
}

/// Computes `exchanged` without overflow.
fn exchange(v1: i64, m1: i64, v2: i64, m2: i64) -> (r: i128)
    requires
        in_range(v1 as int),
        in_range(v2 as int),
        0 < m1 <= LIMIT,
        0 < m2 <= LIMIT,
    ensures
        r == exchanged(v1 as int, m1 as int, v2 as int, m2 as int),
{
    let total: i128 = m1 as i128 + m2 as i128;
    let own: i128 = m1 as i128 - m2 as i128;
    let twice: i128 = 2 * (m2 as i128);
    proof {
        lemma_product_bound(v1 as int, own as int, LIMIT as int, LIMIT as int);
        lemma_product_bound(v2 as int, twice as int, LIMIT as int, 2 * LIMIT);
    }
    let numerator: i128 = (v1 as i128) * own + (v2 as i128) * twice;
    quotient(numerator, total)
}

/// Computes `separation` without overflow.
fn shift(d: i128, reach: i128, dist: i128) -> (r: i128)
    requires
        -2 * LIMIT <= d <= 2 * LIMIT,
        0 <= dist < reach <= 2 * LIMIT,
    ensures
        r == separation(d as int, reach as int, dist as int),
        -4 * LIMIT * LIMIT <= r <= 4 * LIMIT * LIMIT,
{
    if dist == 0 {
        0
    } else {
        let overlap: i128 = reach - dist;
        proof {
            lemma_product_bound(d as int, overlap as int, 2 * LIMIT, 2 * LIMIT);
            assert((2 * LIMIT) * (2 * LIMIT) == 4 * LIMIT * LIMIT) by (nonlinear_arith);
            lemma_trunc_div_remainder(d * overlap, 2 * dist);
        }
        quotient(d * overlap, 2 * dist)
    }
}

/// Momentum along one axis before the exchange.
pub open spec fn momentum(v1: int, m1: int, v2: int, m2: int) -> int {
    m1 * v1 + m2 * v2
}

/// Momentum along one axis after the exchange.
pub open spec fn momentum_after(v1: int, m1: int, v2: int, m2: int) -> int {
    m1 * exchanged(v1, m1, v2, m2) + m2 * exchanged(v2, m2, v1, m1)
}

/// The exchange conserves momentum up to rounding: along an axis the total
/// changes by less than the total mass times one unit of speed, and not at
/// all where both quotients are exact.
pub proof fn lemma_momentum_conserved(v1: int, m1: int, v2: int, m2: int)
    requires
        m1 > 0,
        m2 > 0,
    ensures
        -(m1 + m2) < momentum(v1, m1, v2, m2) - momentum_after(v1, m1, v2, m2) < m1 + m2,
        (v1 * (m1 - m2) + v2 * (2 * m2)) % (m1 + m2) == 0 && (v2 * (m2 - m1) + v1 * (2 * m1)) % (
        m1 + m2) == 0 ==> momentum_after(v1, m1, v2, m2) == momentum(v1, m1, v2, m2),
{
    let total = m1 + m2;
    let n1 = v1 * (m1 - m2) + v2 * (2 * m2);
    let n2 = v2 * (m2 - m1) + v1 * (2 * m1);
    let q1 = exchanged(v1, m1, v2, m2);
    let q2 = exchanged(v2, m2, v1, m1);
    let r1 = n1 - total * q1;
    let r2 = n2 - total * q2;
    let before = momentum(v1, m1, v2, m2);
    let after = momentum_after(v1, m1, v2, m2);
    lemma_trunc_div_remainder(n1, total);
    lemma_trunc_div_remainder(n2, total);
    lemma_exchange_identity(v1, m1, v2, m2);
    lemma_remainders_combine(total, m1, m2, n1, n2, q1, q2, before);
    assert(-(m1 + m2) < before - after < m1 + m2) by (nonlinear_arith)
        requires
            total == m1 + m2,
            m1 > 0,
            m2 > 0,
            -total < r1 < total,
            -total < r2 < total,
            total * (before - after) == m1 * r1 + m2 * r2,
    ;
    if n1 % total == 0 && n2 % total == 0 {
        lemma_exact_quotient(n1, total);
        lemma_exact_quotient(n2, total);
        assert(r1 == 0 && r2 == 0);
        assert(before - after == 0) by (nonlinear_arith)
            requires
                total > 0,
                total * (before - after) == m1 * r1 + m2 * r2,
                r1 == 0,
                r2 == 0,
        ;
    }
}

/// Where the divisor divides the numerator, rounding loses nothing.
pub proof fn lemma_exact_quotient(n: int, d: int)
    requires
        d > 0,
        n % d == 0,
    ensures
        d * trunc_div(n, d) == n,
{
    if n >= 0 {
        assert(d * (n / d) == n) by (nonlinear_arith)
            requires
                d > 0,
                n % d == 0,
        ;
    } else {
        let m = -n;
        let k = n / d;
        vstd::arithmetic::div_mod::lemma_fundamental_div_mod(n, d);
        assert(m == (-k) * d + 0) by (nonlinear_arith)
            requires
                n == d * k + 0,
                m == -n,
        ;
        vstd::arithmetic::div_mod::lemma_fundamental_div_mod_converse(m, d, -k, 0);
        assert(d * (-(-k)) == n) by (nonlinear_arith)
            requires
                n == d * k + 0,
        ;
    }
}

/// The two numerators of the exchange, weighted by the masses, add up to
/// the total mass times the momentum.
proof fn lemma_exchange_identity(v1: int, m1: int, v2: int, m2: int)
    ensures
        m1 * (v1 * (m1 - m2) + v2 * (2 * m2)) + m2 * (v2 * (m2 - m1) + v1 * (2 * m1)) == (m1
            + m2) * (m1 * v1 + m2 * v2),
{
    let p11 = m1 * v1;
    let p12 = m1 * v2;
    let p21 = m2 * v1;
    let p22 = m2 * v2;
    let n1 = v1 * (m1 - m2) + v2 * (2 * m2);
    let n2 = v2 * (m2 - m1) + v1 * (2 * m1);
    assert(n1 == p11 - p21 + 2 * p22) by (nonlinear_arith)
        requires
            p11 == m1 * v1,
            p21 == m2 * v1,
            p22 == m2 * v2,
            n1 == v1 * (m1 - m2) + v2 * (2 * m2),
    ;
    assert(n2 == p22 - p12 + 2 * p11) by (nonlinear_arith)
        requires
            p11 == m1 * v1,
            p12 == m1 * v2,
            p22 == m2 * v2,
            n2 == v2 * (m2 - m1) + v1 * (2 * m1),
    ;
    assert(m1 * n1 == m1 * p11 - m1 * p21 + 2 * (m1 * p22)) by (nonlinear_arith)
        requires
            n1 == p11 - p21 + 2 * p22,
    ;
    assert(m2 * n2 == m2 * p22 - m2 * p12 + 2 * (m2 * p11)) by (nonlinear_arith)
        requires
            n2 == p22 - p12 + 2 * p11,
    ;
    assert(m1 * p21 == m2 * p11) by (nonlinear_arith)
        requires
            p11 == m1 * v1,
            p21 == m2 * v1,
    ;
    assert(m1 * p22 == m2 * p12) by (nonlinear_arith)
        requires
            p12 == m1 * v2,
            p22 == m2 * v2,
    ;
    assert((m1 + m2) * (p11 + p22) == m1 * p11 + m1 * p22 + m2 * p11 + m2 * p22)
        by (nonlinear_arith);
}

/// What rounding takes from the two quotients is all that the momentum
/// loses.
proof fn lemma_remainders_combine(
    total: int,
    m1: int,
    m2: int,
    n1: int,
    n2: int,
    q1: int,
    q2: int,
    before: int,
)
    by (nonlinear_arith)
    requires
        m1 * n1 + m2 * n2 == total * before,
    ensures
        total * (before - (m1 * q1 + m2 * q2)) == m1 * (n1 - total * q1) + m2 * (n2 - total
            * q2),
{
}

/// A collision keeps the total momentum of the two bubbles, along each
/// axis, up to the rounding of the two new speeds.
pub proof fn lemma_collision_conserves_momentum(a: Bubble, b: Bubble)
    requires
        a.wf(),
        b.wf(),
        a.can_collide(b),
    ensures
        -(a.mass + b.mass) < (a.mass * a.velocity.x + b.mass * b.velocity.x) - (a.mass
            * a.rebound(b).velocity.x + b.mass * b.rebound(a).velocity.x) < a.mass + b.mass,
        -(a.mass + b.mass) < (a.mass * a.velocity.y + b.mass * b.velocity.y) - (a.mass
            * a.rebound(b).velocity.y + b.mass * b.rebound(a).velocity.y) < a.mass + b.mass,
        a.rebound(b).mass == a.mass,
        b.rebound(a).mass == b.mass,
{
    lemma_momentum_conserved(
        a.velocity.x as int,
        a.mass as int,
        b.velocity.x as int,
        b.mass as int,
    );
    lemma_momentum_conserved(
        a.velocity.y as int,
        a.mass as int,
        b.velocity.y as int,
        b.mass as int,
    );
}

/// The push along an axis points the way the centres already lie apart on
/// it: it is never against `d`.
pub proof fn lemma_separation_sign(d: int, reach: int, dist: int)
    requires
        0 <= dist < reach,
    ensures
        d >= 0 ==> separation(d, reach, dist) >= 0,
        d <= 0 ==> separation(d, reach, dist) <= 0,
{
    if dist > 0 {
        let n = d * (reach - dist);
        lemma_trunc_div_remainder(n, 2 * dist);
        assert(d >= 0 ==> n >= 0) by (nonlinear_arith)
            requires
                n == d * (reach - dist),
                reach - dist > 0,
        ;
        assert(d <= 0 ==> n <= 0) by (nonlinear_arith)
            requires
                n == d * (reach - dist),
                reach - dist > 0,
        ;
        if n >= 0 {
            assert(n / (2 * dist) >= 0) by (nonlinear_arith)
                requires
                    n >= 0,
                    dist > 0,
            ;
        } else {
            assert((-n) / (2 * dist) >= 0) by (nonlinear_arith)
                requires
                    -n >= 0,
                    dist > 0,
            ;
        }
    }
}

/// A collision never brings the centres of the two bubbles closer.
pub proof fn lemma_collision_separates(a: Bubble, b: Bubble)
    requires
        a.wf(),
        b.wf(),
        a.can_collide(b),
    ensures
        a.rebound(b).position.dist2(b.rebound(a).position) >= a.position.dist2(b.position),
{
    let reach = a.radius + b.radius;
    let dist = a.distance(b);
    let dx = b.position.x - a.position.x;
    let dy = b.position.y - a.position.y;
    let sx = separation(dx, reach, dist);
    let sy = separation(dy, reach, dist);
    lemma_dist2_symmetric(a.position, b.position);
    crate::fixed::lemma_isqrt_bounds(a.position.dist2(b.position) as nat);
    assert(dist < reach) by (nonlinear_arith)
        requires
            dist * dist <= a.position.dist2(b.position),
            a.position.dist2(b.position) < reach * reach,
            dist >= 0,
            reach >= 0,
    ;
    lemma_separation_odd(dx, reach, dist);
    lemma_separation_odd(dy, reach, dist);
    lemma_separation_sign(dx, reach, dist);
    lemma_separation_sign(dy, reach, dist);
    assert(b.distance(a) == dist);
    assert(b.rebound(a).position.x - a.rebound(b).position.x == dx + 2 * sx);
    assert(b.rebound(a).position.y - a.rebound(b).position.y == dy + 2 * sy);
    assert((dx + 2 * sx) * (dx + 2 * sx) >= dx * dx) by (nonlinear_arith)
        requires
            (dx >= 0 && sx >= 0) || (dx <= 0 && sx <= 0),
    ;
    assert((dy + 2 * sy) * (dy + 2 * sy) >= dy * dy) by (nonlinear_arith)
        requires
            (dy >= 0 && sy >= 0) || (dy <= 0 && sy <= 0),
    ;
}

/// The squared distance does not depend on the order of its ends.
pub proof fn lemma_dist2_symmetric(p: Vector, q: Vector)
    ensures
        p.dist2(q) == q.dist2(p),
        p.dist2(q) >= 0,
{
    let dx = q.x - p.x;
    let dy = q.y - p.y;
    assert(dx * dx == (-dx) * (-dx) && dx * dx >= 0) by (nonlinear_arith);
    assert(dy * dy == (-dy) * (-dy) && dy * dy >= 0) by (nonlinear_arith);
}

/// Seen from the other bubble the push has the opposite sign.
pub proof fn lemma_separation_odd(d: int, reach: int, dist: int)
    requires
        dist >= 0,
    ensures
        separation(-d, reach, dist) == -separation(d, reach, dist),
{
    if dist > 0 {
        assert((-d) * (reach - dist) == -(d * (reach - dist))) by (nonlinear_arith);
    }
}

} // verus!
