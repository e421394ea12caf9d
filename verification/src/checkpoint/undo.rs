//! Rolling back steps one after the other.
//!
//! Which checkpoint to restore next and what to report is decided here. Restoring it
//! is up to the caller, who says how it went.

use vstd::prelude::*;

use crate::checkpoint::git;
use crate::checkpoint::git::RestorePlan;
use crate::types::Checkpoint;
use crate::types::RollbackResult;

verus! {

/// A rollback with something left to restore.
#[derive(Debug)]
pub struct RollbackRun {
    plans: Vec<Result<RestorePlan, String>>,
    done: usize,
    executed: u32,
    failed: u32,
    target: u32,
}

/// What to do next in a rollback.
#[derive(Debug)]
pub enum RollbackAction {
    /// Restore what the run names, and say how it went.
    Run(RollbackRun),
    /// Everything is restored.
    Done(RollbackResult),
}

/// The plans restore these checkpoints, in this order, from where the stashes have
/// them.
pub open spec fn are_plans(
    saved: Seq<Seq<char>>,
    checkpoints: Seq<Checkpoint>,
    plans: Seq<Result<RestorePlan, String>>,
) -> bool {
    &&& plans.len() == checkpoints.len()
    &&& forall|i: int|
        0 <= i < plans.len() ==> git::is_plan(saved, checkpoints[i], #[trigger] plans[i])
}

/// `action` begins to restore these checkpoints, one after the other in this order,
/// and to go back to the step `target`. There is nothing to do where there is no
/// checkpoint.
pub open spec fn begins(
    action: RollbackAction,
    saved: Seq<Seq<char>>,
    checkpoints: Seq<Checkpoint>,
    target: u32,
) -> bool {
    match action {
        RollbackAction::Run(run) => {
            &&& checkpoints.len() > 0
            &&& are_plans(saved, checkpoints, run.plans())
            &&& run.done() == 0
            &&& run.executed() == 0
            &&& run.target() == target
        },
        RollbackAction::Done(result) => {
            &&& checkpoints.len() == 0
            &&& result == reported(target, 0, 0)
        },
    }
}

/// The report of a rollback to the step `target`.
pub open spec fn reported(target: u32, executed: nat, failed: nat) -> RollbackResult {
    RollbackResult {
        rolled_back_to_step: target,
        steps_undone: (executed + failed) as u32,
        compensations_executed: executed as u32,
        compensations_failed: failed as u32,
    }
}

impl RollbackRun {
    #[verifier::type_invariant]
    spec fn is_under_way(self) -> bool {
        &&& self.done < self.plans@.len() <= u32::MAX
        &&& self.executed + self.failed == self.done
    }

    /// What is restored in this rollback, in this order.
    pub closed spec fn plans(self) -> Seq<Result<RestorePlan, String>> {
        self.plans@
    }

    /// How much of it was tried.
    pub closed spec fn done(self) -> nat {
        self.done as nat
    }

    /// How much of it was restored.
    pub closed spec fn executed(self) -> nat {
        self.executed as nat
    }

    /// The step to which this goes back.
    pub closed spec fn target(self) -> u32 {
        self.target
    }

    /// What comes after the reply to what this run names.
    pub open spec fn leads_to(self, reply: Result<(), String>, next: RollbackAction) -> bool {
        let executed = self.executed() + (if reply is Ok {
            1nat
        } else {
            0
        });
        let done = self.done() + 1;
        match next {
            RollbackAction::Run(run) => {
                &&& done < self.plans().len()
                &&& run.plans() == self.plans()
                &&& run.done() == done
                &&& run.executed() == executed
                &&& run.target() == self.target()
            },
            RollbackAction::Done(result) => {
                &&& done == self.plans().len()
                &&& result == reported(self.target(), executed, (done - executed) as nat)
            },
        }
    }

    /// How to restore what is next. Where it cannot be restored at all, the reply is
    /// this error.
    pub fn pending(&self) -> (r: &Result<RestorePlan, String>)
        ensures
            self.done() < self.plans().len(),
            *r == self.plans()[self.done() as int],
    {
        proof {
            use_type_invariant(self);
        }
        &self.plans[self.done]
    }

    /// What comes after the reply to what this run names. A failure does not stop
    /// the rollback.
    pub fn next(self, reply: Result<(), String>) -> (r: RollbackAction)
        ensures
            self.leads_to(reply, r),
    {
        proof {
            use_type_invariant(&self);
        }
        let done: usize = self.done + 1;
        let (executed, failed): (u32, u32) = match reply {
            Ok(()) => (self.executed + 1, self.failed),
            Err(_) => (self.executed, self.failed + 1),
        };
        if done < self.plans.len() {
            RollbackAction::Run(
                RollbackRun { plans: self.plans, done, executed, failed, target: self.target },
            )
        } else {
            RollbackAction::Done(
                RollbackResult {
                    rolled_back_to_step: self.target,
                    steps_undone: executed + failed,
                    compensations_executed: executed,
                    compensations_failed: failed,
                },
            )
        }
    }
}

/// Begins a rollback with these plans, in this order, to the step `target`.
pub(crate) fn begin(
    plans: Vec<Result<RestorePlan, String>>,
    target: u32,
    Ghost(saved): Ghost<Seq<Seq<char>>>,
    Ghost(checkpoints): Ghost<Seq<Checkpoint>>,
) -> (r: RollbackAction)
    requires
        plans@.len() <= u32::MAX,
        are_plans(saved, checkpoints, plans@),
    ensures
        begins(r, saved, checkpoints, target),
{
    if plans.len() == 0 {
        RollbackAction::Done(
            RollbackResult {
                rolled_back_to_step: target,
                steps_undone: 0,
                compensations_executed: 0,
                compensations_failed: 0,
            },
        )
    } else {
        RollbackAction::Run(RollbackRun { plans, done: 0, executed: 0, failed: 0, target })
    }
}

}
