//! Mouse input: which clicks count, and what they pop.

use vstd::prelude::*;
use crate::registry::{handle, hit, missed, Entry, Registry};
use crate::screen::{window_to_world, world_point, Camera, Vector, Window};

verus! {

/// A button of the mouse.
#[derive(Clone, Copy, Debug, PartialEq, Eq, Structural)]
pub enum MouseButton {
    Left,
    Right,
    Middle,
    Back,
    Forward,
    Other(u16),
}

/// Whether a button went down or up.
#[derive(Clone, Copy, Debug, PartialEq, Eq, Structural)]
pub enum ButtonState {
    Pressed,
    Released,
}

/// One change of a mouse button, with the pixel under the cursor where the
/// cursor was inside the window.
#[derive(Clone, Copy, Debug, PartialEq, Eq, Structural)]
pub struct MouseButtonInput {
    pub button: MouseButton,
    pub state: ButtonState,
    pub position: Option<Vector>,
}

/// What a run of mouse events did: the handles of the bubbles popped, one
/// pop sound being due for each, and the number of clicks that could not be
/// placed in the world.
pub struct MouseReport {
    pub popped: Vec<u64>,
    pub unresolved: usize,
}

impl MouseButtonInput {
    /// Only a press of the left button is a click.
    pub open spec fn is_click(self) -> bool {
        self.button == MouseButton::Left && self.state == ButtonState::Pressed
    }

    /// The world point that the event clicks on, if it is a click and the
    /// point can be told.
    pub open spec fn target(self, window: Window, camera: Camera) -> Option<Vector> {
        if self.is_click() {
            match self.position {
                Some(p) => world_point(window, camera, p),
                None => None,
            }
        } else {
            None
        }
    }

    /// Whether the event is a click that cannot be placed in the world.
    pub open spec fn is_unresolved(self, window: Window, camera: Camera) -> bool {
        self.is_click() && self.target(window, camera) is None
    }
}

/// The entries left by one event: a click removes every bubble under it.
pub open spec fn after_event(
    s: Seq<Entry>,
    e: MouseButtonInput,
    window: Window,
    camera: Camera,
) -> Seq<Entry> {
    match e.target(window, camera) {
        Some(p) => s.filter(missed(p)),
        None => s,
    }
}

/// The handles that one event pops.
pub open spec fn popped_by_event(
    s: Seq<Entry>,
    e: MouseButtonInput,
    window: Window,
    camera: Camera,
) -> Seq<u64> {
    match e.target(window, camera) {
        Some(p) => s.filter(hit(p)).map_values(handle()),
        None => Seq::empty(),
    }
}

/// The entries left by a run of events, first to last.
pub open spec fn after_events(
    s: Seq<Entry>,
    events: Seq<MouseButtonInput>,
    window: Window,
    camera: Camera,
) -> Seq<Entry>
    decreases events.len(),
{
    if events.len() == 0 {
        s
    } else {
        after_event(
            after_events(s, events.drop_last(), window, camera),
            events.last(),
            window,
            camera,
        )
    }
}

/// The handles popped by a run of events, in the order of popping.
pub open spec fn popped_by_events(
    s: Seq<Entry>,
    events: Seq<MouseButtonInput>,
    window: Window,
    camera: Camera,
) -> Seq<u64>
    decreases events.len(),
{
    if events.len() == 0 {
        Seq::empty()
    } else {
        popped_by_events(s, events.drop_last(), window, camera) + popped_by_event(
            after_events(s, events.drop_last(), window, camera),
            events.last(),
            window,
            camera,
        )
    }
}

/// The number of clicks in a run of events that cannot be placed.
pub open spec fn unresolved_clicks(
    events: Seq<MouseButtonInput>,
    window: Window,
    camera: Camera,
) -> nat
    decreases events.len(),
{
    if events.len() == 0 {
        0
    } else {
        unresolved_clicks(events.drop_last(), window, camera) + (if events.last().is_unresolved(
            window,
            camera,
        ) {
            1nat
        } else {
            0nat
        })
    }
}

/// Handles the mouse events of one tick in order. Each press of the left
/// button whose cursor position maps to a world point pops every bubble
/// that contains the point; a press without such a point is counted and
/// changes nothing; every other event is passed over.
pub fn handle_mouse(
    registry: &mut Registry,
    events: &Vec<MouseButtonInput>,
    window: &Window,
    camera: &Camera,
) -> (report: MouseReport)
    requires
        old(registry).wf(),
        window.wf(),
    ensures
        final(registry).wf(),
        final(registry).fresh() == old(registry).fresh(),
        final(registry)@ == after_events(old(registry)@, events@, *window, *camera),
        report.popped@ == popped_by_events(old(registry)@, events@, *window, *camera),
        report.unresolved == unresolved_clicks(events@, *window, *camera),
        report.popped@.len() + final(registry)@.len() == old(registry)@.len(),
{
    let ghost before = registry@;
    let mut popped: Vec<u64> = Vec::new();
    let mut unresolved: usize = 0;
    let mut i: usize = 0;
    proof {
        assert(events@.take(0) =~= Seq::<MouseButtonInput>::empty());
    }
    while i < events.len()
        invariant
            i <= events@.len(),
            window.wf(),
            registry.wf(),
            registry.fresh() == old(registry).fresh(),
            before == old(registry)@,
            registry@ == after_events(before, events@.take(i as int), *window, *camera),
            popped@ == popped_by_events(before, events@.take(i as int), *window, *camera),
            unresolved == unresolved_clicks(events@.take(i as int), *window, *camera),
            unresolved <= i,
            popped@.len() + registry@.len() == before.len(),
        decreases events@.len() - i,
    {
        let e: MouseButtonInput = events[i];
        proof {
            assert(events@.take(i + 1).drop_last() =~= events@.take(i as int));
            assert(events@.take(i + 1).last() == events@[i as int]);
        }
        let target: Option<Vector> = match (e.button, e.state, e.position) {
            (MouseButton::Left, ButtonState::Pressed, Some(p)) => window_to_world(
                window,
                camera,
                &p,
            ),
            _ => None,
        };
        match target {
            Some(point) => {
                let mut more: Vec<u64> = registry.pop_at(&point);
                popped.append(&mut more);
            },
            None => {
                match (e.button, e.state) {
                    (MouseButton::Left, ButtonState::Pressed) => {
                        unresolved = unresolved + 1;
                    },
                    _ => {},
                }
            },
        }
        i = i + 1;
    }
    proof {
        assert(events@.take(events@.len() as int) =~= events@);
    }
    MouseReport { popped, unresolved }
}

} // verus!
