//! The spawner: draws a random bubble and places it where there is room.

use vstd::prelude::*;
use crate::bubble::{disc_mass, Bubble};
use crate::budget::SpawnBudget;
use crate::fixed::{in_range, LIMIT, ONE};
use crate::registry::{Entry, Registry};
use crate::screen::{Vector, Window};

verus! {

/// The speed along an axis is drawn below this bound.
pub const BUBBLE_MAX_VELOCITY: i64 = 100 * ONE;

/// The speed along an axis is drawn from this bound on.
pub const BUBBLE_MIN_VELOCITY: i64 = -100 * ONE;

/// The diameter is drawn from this bound on.
pub const BUBBLE_MIN_DIAMETER: i64 = 100 * ONE;

/// The diameter is drawn below this bound.
pub const BUBBLE_MAX_DIAMETER: i64 = 300 * ONE;

/// A colour: three channels, each a fraction of one.
#[derive(Clone, Copy, Debug, PartialEq, Eq, Structural)]
pub struct Color {
    pub red: i64,
    pub green: i64,
    pub blue: i64,
}

/// What was drawn for a bubble that is not placed yet.
#[derive(Clone, Copy, Debug, PartialEq, Eq, Structural)]
pub struct Candidate {
    pub color: Color,
    pub position: Vector,
    pub diameter: i64,
    pub velocity: Vector,
}

/// A bubble that was placed: its handle, its body and its colour.
#[derive(Clone, Copy, Debug, PartialEq, Eq, Structural)]
pub struct Spawned {
    pub id: u64,
    pub bubble: Bubble,
    pub color: Color,
}

/// Whether a bubble overlaps one of the entries.
pub open spec fn crowded(s: Seq<Entry>, bubble: Bubble) -> bool {
    exists|i: int| 0 <= i < s.len() && (#[trigger] s[i]).bubble.overlaps(bubble)
}

impl Color {
    /// Each channel lies in `[0, 1)`.
    pub open spec fn wf(self) -> bool {
        0 <= self.red < ONE && 0 <= self.green < ONE && 0 <= self.blue < ONE
    }
}

impl Candidate {
    /// The radius: half the diameter.
    pub open spec fn radius(self) -> int {
        self.diameter / 2
    }

    /// Whether the candidate makes a well-formed bubble.
    pub open spec fn valid(self) -> bool {
        &&& self.position.wf()
        &&& self.velocity.wf()
        &&& 0 < self.radius() <= LIMIT
        &&& 0 < disc_mass(self.radius()) <= LIMIT
    }

    /// The bubble that the candidate makes: its mass is its area.
    pub open spec fn body(self) -> Bubble {
        Bubble {
            position: self.position,
            radius: self.radius() as i64,
            velocity: self.velocity,
            mass: disc_mass(self.radius()) as i64,
        }
    }

    /// Whether the candidate lies in the ranges that bubbles are drawn
    /// from: anywhere in the window, a diameter from 100 up to 300, a speed
    /// from -100 up to 100 along each axis.
    pub open spec fn drawn_for(self, window: Window) -> bool {
        &&& self.color.wf()
        &&& -window.half_width() <= self.position.x < window.half_width()
        &&& -window.half_height() <= self.position.y < window.half_height()
        &&& BUBBLE_MIN_DIAMETER <= self.diameter < BUBBLE_MAX_DIAMETER
        &&& BUBBLE_MIN_VELOCITY <= self.velocity.x < BUBBLE_MAX_VELOCITY
        &&& BUBBLE_MIN_VELOCITY <= self.velocity.y < BUBBLE_MAX_VELOCITY
    }

    /// Whether the candidate can be placed among the entries: it makes a
    /// bubble, the bubble overlaps none, and a handle is left for it.
    pub open spec fn placeable(self, s: Seq<Entry>, fresh: u64) -> bool {
        self.valid() && !crowded(s, self.body()) && fresh < u64::MAX
    }

    /// What placing the candidate gives: the placed bubble under the fresh
    /// handle, or nothing where it cannot be placed.
    pub open spec fn outcome(self, s: Seq<Entry>, fresh: u64) -> Option<Spawned> {
        if self.placeable(s, fresh) {
            Some(Spawned { id: fresh, bubble: self.body(), color: self.color })
        } else {
            None
        }
    }

    /// Builds the bubble that the candidate makes, if it makes one.
    pub fn to_bubble(&self) -> (r: Option<Bubble>)
        ensures
            r == (if self.valid() {
                Some(self.body())
            } else {
                None
            }),
            r matches Some(b) ==> b.wf(),
    {
        if self.diameter < 2 {
            return None;
        }
        let radius: i64 = self.diameter / 2;
        if radius > LIMIT {
            return None;
        }
        match Bubble::mass_of(radius) {
            Some(mass) => Bubble::new(self.position, radius, self.velocity, mass),
            None => None,
        }
    }
}

/// Draws a number from `low` up to, not including, `high` with
/// `rand::random_range`, which draws from the thread's generator and
/// panics on an empty range. Only the bounds are claimed of what it
/// returns.
#[verifier::external_body]
fn random_between(low: i64, high: i64) -> (r: i64)
    requires
        low < high,
    ensures
        low <= r < high,
{
    rand::random_range(low..high)
}

/// A candidate drawn in a window has a radius between 50 and 150 and a
/// mass that fits, so it makes a bubble.
pub proof fn lemma_drawn_is_valid(c: Candidate, window: Window)
    requires
        window.wf(),
        c.drawn_for(window),
    ensures
        c.valid(),
{
    let r = c.radius();
    assert(3276800 <= r < 9830400);
    assert(3276800 * 3276800 <= r * r < 9830400 * 9830400) by (nonlinear_arith)
        requires
            3276800 <= r < 9830400,
    ;
    assert(crate::fixed::PI * r * r == 205887 * (r * r)) by (nonlinear_arith);
    assert(ONE * ONE == 0x1_0000_0000) by (nonlinear_arith);
}

/// Draws a candidate for a window: a colour, a position, a diameter and a
/// velocity, each uniformly from its range.
pub fn draw(window: &Window) -> (c: Candidate)
    requires
        window.wf(),
    ensures
        c.drawn_for(*window),
        c.valid(),
{
    let color = Color {
        red: random_between(0, ONE),
        green: random_between(0, ONE),
        blue: random_between(0, ONE),
    };
    let half_width: i64 = window.width / 2;
    let half_height: i64 = window.height / 2;
    let position = Vector {
        x: random_between(-half_width, half_width),
        y: random_between(-half_height, half_height),
    };
    let diameter: i64 = random_between(BUBBLE_MIN_DIAMETER, BUBBLE_MAX_DIAMETER);
    let velocity = Vector {
        x: random_between(BUBBLE_MIN_VELOCITY, BUBBLE_MAX_VELOCITY),
        y: random_between(BUBBLE_MIN_VELOCITY, BUBBLE_MAX_VELOCITY),
    };
    let c = Candidate { color, position, diameter, velocity };
    proof {
        lemma_drawn_is_valid(c, *window);
    }
    c
}

/// Places a candidate: where it makes a bubble that overlaps none of the
/// live ones, the bubble joins the registry under a fresh handle and the
/// budget goes down by one, stopping at zero. Otherwise the attempt is
/// dropped and nothing changes.
pub fn place(registry: &mut Registry, budget: &mut SpawnBudget, candidate: &Candidate) -> (r:
    Option<Spawned>)
    requires
        old(registry).wf(),
    ensures
        final(registry).wf(),
        old(budget).wf() ==> final(budget).wf(),
        r == candidate.outcome(old(registry)@, old(registry).fresh()),
        crowded(old(registry)@, candidate.body()) ==> r is None,
        r matches Some(placed) ==> final(registry)@ == old(registry)@.push(
            Entry { id: placed.id, bubble: placed.bubble },
        ) && final(registry).fresh() == placed.id + 1 && *final(budget) == old(budget).spent(),
        r is None ==> final(registry)@ == old(registry)@ && final(registry).fresh() == old(
            registry,
        ).fresh() && *final(budget) == *old(budget),
{
    match candidate.to_bubble() {
        Some(bubble) => {
            if registry.overlaps_any(&bubble) {
                return None;
            }
            match registry.insert(bubble) {
                Some(id) => {
                    budget.spend();
                    Some(Spawned { id, bubble, color: candidate.color })
                },
                None => None,
            }
        },
        None => None,
    }
}

/// Makes one attempt to spawn a bubble in the window: draws a candidate
/// and places it. Whatever was drawn, either nothing changed, or one
/// well-formed bubble that overlaps none of the others joined the registry
/// and the budget went down by one.
pub fn spawn_bubble(registry: &mut Registry, budget: &mut SpawnBudget, window: &Window) -> (r:
    Option<Spawned>)
    requires
        old(registry).wf(),
        window.wf(),
    ensures
        final(registry).wf(),
        old(budget).wf() ==> final(budget).wf(),
        exists|c: Candidate|
            c.drawn_for(*window) && c.valid() && r == c.outcome(
                old(registry)@,
                old(registry).fresh(),
            ),
        r matches Some(placed) ==> final(registry)@ == old(registry)@.push(
            Entry { id: placed.id, bubble: placed.bubble },
        ) && final(registry).fresh() == placed.id + 1 && *final(budget) == old(budget).spent(),
        r is None ==> final(registry)@ == old(registry)@ && final(registry).fresh() == old(
            registry,
        ).fresh() && *final(budget) == *old(budget),
{
    let candidate = draw(window);
    place(registry, budget, &candidate)
}

} // verus!
