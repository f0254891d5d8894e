//! The spawn budget: how many bubbles may still be created this round.

use vstd::prelude::*;

verus! {

/// How many bubbles a round starts with.
pub const BUBBLES_NUMBER: i32 = 10;

/// The bubbles still to be created this round, and what a round starts with.
#[derive(Clone, Copy, Debug, PartialEq, Eq, Structural)]
pub struct SpawnBudget {
    pub count: i32,
    pub target: i32,
}

/// What can happen to a budget.
#[derive(Clone, Copy, Debug, PartialEq, Eq, Structural)]
pub enum BudgetEvent {
    /// A bubble was placed.
    Spawn,
    /// The last bubble is gone and a new round starts.
    Reset,
}

impl SpawnBudget {
    /// The count lies between zero and the target.
    pub open spec fn wf(self) -> bool {
        0 <= self.count <= self.target
    }

    /// The budget after one bubble was placed: one less, but never below
    /// zero.
    pub open spec fn spent(self) -> SpawnBudget {
        SpawnBudget {
            count: if self.count > 0 {
                (self.count - 1) as i32
            } else {
                0
            },
            target: self.target,
        }
    }

    /// The budget at the start of a round.
    pub open spec fn renewed(self) -> SpawnBudget {
        SpawnBudget { count: self.target, target: self.target }
    }

    /// The budget at the end of a tick: renewed where no bubble is left.
    pub open spec fn round_end(self, empty: bool) -> SpawnBudget {
        if empty {
            self.renewed()
        } else {
            self
        }
    }

    /// Whether the end of a tick changes the budget: no bubble is left and
    /// the budget is not full.
    pub open spec fn reset_due(self, empty: bool) -> bool {
        empty && self.count != self.target
    }

    /// The budget after one event.
    pub open spec fn after(self, event: BudgetEvent) -> SpawnBudget {
        match event {
            BudgetEvent::Spawn => self.spent(),
            BudgetEvent::Reset => self.renewed(),
        }
    }

    /// The budget after a sequence of events, first to last.
    pub open spec fn replay(self, events: Seq<BudgetEvent>) -> SpawnBudget
        decreases events.len(),
    {
        if events.len() == 0 {
            self
        } else {
            self.replay(events.drop_last()).after(events.last())
        }
    }

    /// A full budget for rounds of `target` bubbles; none for a negative
    /// target.
    pub fn new(target: i32) -> (r: Option<SpawnBudget>)
        ensures
            r == (if target >= 0 {
                Some(SpawnBudget { count: target, target })
            } else {
                None
            }),
            r matches Some(b) ==> b.wf(),
    {
        if target >= 0 {
            Some(SpawnBudget { count: target, target })
        } else {
            None
        }
    }

    /// Takes one bubble off the budget, stopping at zero.
    pub fn spend(&mut self)
        ensures
            *final(self) == old(self).spent(),
            old(self).wf() ==> final(self).wf(),
    {
        if self.count > 0 {
            self.count = self.count - 1;
        } else {
            self.count = 0;
        }
    }

    /// Starts a new round: the count is the target again.
    pub fn reset_game(&mut self)
        ensures
            *final(self) == old(self).renewed(),
            old(self).target >= 0 ==> final(self).wf(),
    {
        self.count = self.target;
    }

    /// Ends a tick: starts a new round where no bubble is left, and tells
    /// whether that changed the budget.
    pub fn end_round(&mut self, empty: bool) -> (reset: bool)
        ensures
            *final(self) == old(self).round_end(empty),
            reset == old(self).reset_due(empty),
            old(self).wf() ==> final(self).wf(),
    {
        if empty && self.count != self.target {
            self.reset_game();
            true
        } else {
            false
        }
    }

    /// Applies one event.
    pub fn apply(&mut self, event: BudgetEvent)
        ensures
            *final(self) == old(self).after(event),
    {
        match event {
            BudgetEvent::Spawn => self.spend(),
            BudgetEvent::Reset => self.reset_game(),
        }
    }

    /// Whether another bubble may be spawned.
    pub fn run_if_more_bubbles_possible(&self) -> (r: bool)
        ensures
            r == (self.count > 0),
    {
        self.count > 0
    }
}

/// Whatever bubbles are placed and whatever rounds are started, the count
/// never goes below zero nor above the target.
pub proof fn lemma_budget_never_negative(budget: SpawnBudget, events: Seq<BudgetEvent>)
    requires
        budget.wf(),
    ensures
        budget.replay(events).wf(),
        budget.replay(events).target == budget.target,
    decreases events.len(),
{
    if events.len() > 0 {
        lemma_budget_never_negative(budget, events.drop_last());
    }
}

/// Once no bubble is left the budget is reset once: the tick that finds
/// the registry empty fills the budget, and every later tick that still
/// finds it empty and the budget full changes nothing and reports no reset.
pub proof fn lemma_reset_idempotent(budget: SpawnBudget)
    ensures
        budget.round_end(true).count == budget.target,
        budget.round_end(true).round_end(true) == budget.round_end(true),
        !budget.round_end(true).reset_due(true),
        budget.renewed().renewed() == budget.renewed(),
        budget.count == budget.target ==> budget.round_end(true) == budget,
{
}

} // verus!
