//! The game: the registry and the budget, and the order of a tick.

use vstd::prelude::*;
use crate::budget::{SpawnBudget, BUBBLES_NUMBER};
use crate::input::{
    after_events, handle_mouse, popped_by_events, unresolved_clicks, MouseButtonInput,
};
use crate::registry::{all_resolved, drift, Entry, Registry};
use crate::screen::{Camera, Window};
use crate::spawner::{spawn_bubble, Candidate, Spawned};

verus! {

/// The whole state of a game.
pub struct Game {
    pub registry: Registry,
    pub budget: SpawnBudget,
}

/// What a tick asks the host to do: destroy the popped bubbles and play a
/// pop sound for each, report the clicks that fell outside the window,
/// create the spawned bubble; and whether a new round began.
pub struct TickReport {
    pub popped: Vec<u64>,
    pub unresolved: usize,
    pub spawned: Option<Spawned>,
    pub reset: bool,
}

/// The entries with the spawned bubble, if any, behind them.
pub open spec fn with_spawned(s: Seq<Entry>, spawned: Option<Spawned>) -> Seq<Entry> {
    match spawned {
        Some(placed) => s.push(Entry { id: placed.id, bubble: placed.bubble }),
        None => s,
    }
}

/// The budget after the spawner ran.
pub open spec fn after_spawn(budget: SpawnBudget, spawned: Option<Spawned>) -> SpawnBudget {
    if spawned is Some {
        budget.spent()
    } else {
        budget
    }
}

/// The entries after the bubbles moved and then collided.
pub open spec fn after_physics(s: Seq<Entry>, dt: i64, window: Window) -> Seq<Entry> {
    all_resolved(s.map_values(|e: Entry| drift(e, dt, window)))
}

impl Game {
    /// The registry and the budget are well formed.
    pub open spec fn wf(&self) -> bool {
        self.registry.wf() && self.budget.wf()
    }

    /// A new game: no bubble yet, and a full budget of `BUBBLES_NUMBER`.
    pub fn setup() -> (g: Game)
        ensures
            g.wf(),
            g.registry@ == Seq::<Entry>::empty(),
            g.registry.fresh() == 0,
            g.budget == (SpawnBudget { count: BUBBLES_NUMBER, target: BUBBLES_NUMBER }),
    {
        Game {
            registry: Registry::new(),
            budget: SpawnBudget { count: BUBBLES_NUMBER, target: BUBBLES_NUMBER },
        }
    }

    /// Runs one tick: the clicks pop bubbles; while the budget lasts one
    /// attempt is made to spawn a bubble; every bubble moves by `dt` and is
    /// reflected at the walls; every pair is examined for a collision; and
    /// where no bubble is left the budget is made full again.
    pub fn tick(
        &mut self,
        events: &Vec<MouseButtonInput>,
        window: &Window,
        camera: &Camera,
        dt: i64,
    ) -> (report: TickReport)
        requires
            old(self).wf(),
            window.wf(),
        ensures
            final(self).wf(),
            report.popped@ == popped_by_events(old(self).registry@, events@, *window, *camera),
            report.unresolved == unresolved_clicks(events@, *window, *camera),
            old(self).budget.count <= 0 ==> report.spawned is None,
            old(self).budget.count > 0 ==> exists|c: Candidate|
                c.drawn_for(*window) && c.valid() && report.spawned == c.outcome(
                    after_events(old(self).registry@, events@, *window, *camera),
                    old(self).registry.fresh(),
                ),
            final(self).registry@ == after_physics(
                with_spawned(
                    after_events(old(self).registry@, events@, *window, *camera),
                    report.spawned,
                ),
                dt,
                *window,
            ),
            final(self).budget == after_spawn(old(self).budget, report.spawned).round_end(
                final(self).registry@.len() == 0,
            ),
            report.reset == after_spawn(old(self).budget, report.spawned).reset_due(
                final(self).registry@.len() == 0,
            ),
    {
        let clicks = handle_mouse(&mut self.registry, events, window, camera);
        let spawned = if self.budget.run_if_more_bubbles_possible() {
            spawn_bubble(&mut self.registry, &mut self.budget, window)
        } else {
            None
        };
        self.registry.move_bubbles(dt, window);
        self.registry.check_collision();
        let empty = self.registry.run_if_no_bubbles();
        let reset = self.budget.end_round(empty);
        TickReport { popped: clicks.popped, unresolved: clicks.unresolved, spawned, reset }
    }
}

} // verus!
