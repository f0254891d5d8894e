//! A bubble: a disc with a position, a velocity and a mass.

use vstd::prelude::*;
use crate::fixed::{fmul, in_range, multiply, narrow, LIMIT, ONE, PI};
use crate::screen::{Vector, Window};

verus! {

/// A circular body. Its radius and mass never change once it exists.
#[derive(Clone, Copy, Debug, PartialEq, Eq, Structural)]
pub struct Bubble {
    pub position: Vector,
    pub radius: i64,
    pub velocity: Vector,
    pub mass: i64,
}

/// The mass of a disc of the given radius: its area.
pub open spec fn disc_mass(radius: int) -> int {
    PI * radius * radius / (ONE * ONE)
}

/// One coordinate after a step of length `dt` at speed `v`.
pub open spec fn drifted(p: int, v: int, dt: int) -> int {
    p + fmul(v, dt)
}

/// The speed along one axis after the wall test at `p`, the coordinate
/// reached by the step: reversed beyond either wall, kept otherwise.
pub open spec fn reflected(p: int, v: int, half: int) -> int {
    if p < -half || p > half {
        -v
    } else {
        v
    }
}

impl Bubble {
    /// Position and velocity are storable; radius and mass are positive.
    pub open spec fn wf(self) -> bool {
        &&& self.position.wf()
        &&& self.velocity.wf()
        &&& 0 < self.radius <= LIMIT
        &&& 0 < self.mass <= LIMIT
    }

    /// Two bubbles overlap when their centres are closer than the sum of
    /// their radii.
    pub open spec fn overlaps(self, other: Bubble) -> bool {
        self.position.dist2(other.position) < (self.radius + other.radius) * (self.radius
            + other.radius)
    }

    /// A point hits a bubble when it is closer to the centre than the radius.
    pub open spec fn contains(self, point: Vector) -> bool {
        point.dist2(self.position) < self.radius * self.radius
    }

    /// Whether a step of length `dt` ends at a storable position.
    pub open spec fn can_advance(self, dt: i64) -> bool {
        &&& in_range(drifted(self.position.x as int, self.velocity.x as int, dt as int))
        &&& in_range(drifted(self.position.y as int, self.velocity.y as int, dt as int))
    }

    /// The bubble after a step of length `dt` inside `window`.
    pub open spec fn advanced(self, dt: i64, window: Window) -> Bubble {
        let x = drifted(self.position.x as int, self.velocity.x as int, dt as int);
        let y = drifted(self.position.y as int, self.velocity.y as int, dt as int);
        Bubble {
            position: Vector { x: x as i64, y: y as i64 },
            radius: self.radius,
            velocity: Vector {
                x: reflected(x, self.velocity.x as int, window.half_width()) as i64,
                y: reflected(y, self.velocity.y as int, window.half_height()) as i64,
            },
            mass: self.mass,
        }
    }

    /// Builds a bubble where the four values form a well-formed one.
    pub fn new(position: Vector, radius: i64, velocity: Vector, mass: i64) -> (r: Option<Bubble>)
        ensures
            r == (if (Bubble { position, radius, velocity, mass }).wf() {
                Some(Bubble { position, radius, velocity, mass })
            } else {
                None
            }),
    {
        let p = Vector::new(position.x, position.y);
        let v = Vector::new(velocity.x, velocity.y);
        if p.is_some() && v.is_some() && 0 < radius && radius <= LIMIT && 0 < mass && mass
            <= LIMIT {
            Some(Bubble { position, radius, velocity, mass })
        } else {
            None
        }
    }

    /// Computes the area-proportional mass of a disc, where it is storable.
    pub fn mass_of(radius: i64) -> (m: Option<i64>)
        requires
            0 < radius <= LIMIT,
        ensures
            m == (if in_range(disc_mass(radius as int)) {
                Some(disc_mass(radius as int) as i64)
            } else {
                None
            }),
    {
        proof {
            crate::fixed::lemma_product_bound(
                radius as int,
                radius as int,
                LIMIT as int,
                LIMIT as int,
            );
            assert(radius * radius >= 0) by (nonlinear_arith);
            assert(PI * radius * radius == PI * (radius * radius)) by (nonlinear_arith);
            assert(ONE * ONE == 0x1_0000_0000);
        }
        let square: i128 = (radius as i128) * (radius as i128);
        let scaled: i128 = (PI as i128) * square;
        narrow(scaled / 0x1_0000_0000)
    }

    /// Tells whether two bubbles overlap.
    pub fn touches(&self, other: &Bubble) -> (r: bool)
        requires
            self.wf(),
            other.wf(),
        ensures
            r == self.overlaps(*other),
    {
        let reach: i128 = self.radius as i128 + other.radius as i128;
        proof {
            crate::fixed::lemma_product_bound(reach as int, reach as int, 2 * LIMIT, 2 * LIMIT);
        }
        self.position.distance_squared(&other.position) < reach * reach
    }

    /// Tells whether a point lies inside the bubble.
    pub fn hit_by(&self, point: &Vector) -> (r: bool)
        requires
            self.wf(),
            point.wf(),
        ensures
            r == self.contains(*point),
    {
        let reach: i128 = self.radius as i128;
        proof {
            crate::fixed::lemma_product_bound(reach as int, reach as int, LIMIT as int, LIMIT as int);
        }
        point.distance_squared(&self.position) < reach * reach
    }

    /// Moves the bubble by its velocity times `dt`, then reverses each
    /// velocity component whose coordinate now lies beyond a wall. The
    /// position is not pulled back inside. Gives nothing where the new
    /// position is not storable.
    pub fn advance(&self, dt: i64, window: &Window) -> (r: Option<Bubble>)
        requires
            self.wf(),
            window.wf(),
        ensures
            r == (if self.can_advance(dt) {
                Some(self.advanced(dt, *window))
            } else {
                None
            }),
            r matches Some(b) ==> b.wf(),
    {
        let step_x: i128 = multiply(self.velocity.x, dt);
        let step_y: i128 = multiply(self.velocity.y, dt);
        proof {
            crate::fixed::lemma_fmul_bound(self.velocity.x as int, dt as int);
            crate::fixed::lemma_fmul_bound(self.velocity.y as int, dt as int);
        }
        let x = narrow(self.position.x as i128 + step_x);
        let y = narrow(self.position.y as i128 + step_y);
        match (x, y) {
            (Some(x), Some(y)) => {
                let half_width: i64 = window.width / 2;
                let half_height: i64 = window.height / 2;
                let mut velocity = self.velocity;
                if x < -half_width || x > half_width {
                    velocity.x = -velocity.x;
                }
                if y < -half_height || y > half_height {
                    velocity.y = -velocity.y;
                }
                Some(
                    Bubble {
                        position: Vector { x, y },
                        radius: self.radius,
                        velocity,
                        mass: self.mass,
                    },
                )
            },
            _ => None,
        }
    }
}

/// A bubble that stands at or beyond the right wall and moves right leaves
/// the step with its horizontal speed reversed, and a bubble that ends the
/// step inside the window keeps its velocity.
pub proof fn lemma_reflection(b: Bubble, dt: i64, window: Window)
    requires
        b.wf(),
        window.wf(),
        b.can_advance(dt),
    ensures
        b.position.x >= window.half_width() && fmul(b.velocity.x as int, dt as int) > 0
            ==> b.advanced(dt, window).velocity.x == -b.velocity.x,
        b.position.x <= -window.half_width() && fmul(b.velocity.x as int, dt as int) < 0
            ==> b.advanced(dt, window).velocity.x == -b.velocity.x,
        -window.half_width() <= b.advanced(dt, window).position.x <= window.half_width()
            && -window.half_height() <= b.advanced(dt, window).position.y
            <= window.half_height() ==> b.advanced(dt, window).velocity == b.velocity,
{
}

} // verus!
