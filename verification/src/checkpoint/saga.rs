//! Saga-style rollback: every completed step may bring an action that undoes it.

use vstd::prelude::*;

use crate::text;
use crate::types::CheckpointId;
use crate::types::RollbackResult;
use crate::types::StepId;

verus! {

/// A compensating action that can undo a forward step.
pub type CompensateFn = Box<dyn Fn() -> Result<(), String> + Send + Sync>;

/// A completed step with what undoes it.
pub struct CompletedStep<F> {
    pub step_id: StepId,
    pub step_number: u32,
    pub checkpoint_id: Option<CheckpointId>,
    pub compensate: Option<F>,
    pub description: String,
}

/// Coordinator for multi-step transactions.
///
/// Keeps the completed steps in order with their compensating actions. On failure
/// the compensations run in reverse order to restore a consistent state.
///
/// ```text
/// Step 1 → ✓ → Step 2 → ✓ → Step 3 → FAIL
///                                        ↓
///                              compensate(Step 3)  // if registered
///                              compensate(Step 2)
///                              compensate(Step 1)
/// ```
pub struct SagaCoordinator<F> {
    completed: Vec<CompletedStep<F>>,
    max_depth: u32,
    ran: Ghost<Seq<F>>,
}

/// What became of a step that was rolled back.
pub enum Undo {
    /// It had no compensation.
    Nothing,
    /// Its compensation succeeded.
    Executed,
    /// Its compensation failed.
    Failed,
}

/// `outcome` fits the step: there was nothing to do where it has no compensation,
/// and otherwise the compensation can give such a result.
pub open spec fn undo_outcome<F: Fn() -> Result<(), String>>(
    step: CompletedStep<F>,
    outcome: Undo,
) -> bool {
    match step.compensate {
        None => outcome is Nothing,
        Some(f) => exists|r: Result<(), String>|
            #[trigger] call_ensures(f, (), r) && outcome == (if r is Ok {
                Undo::Executed
            } else {
                Undo::Failed
            }),
    }
}

/// `outcomes` fit the last steps of the history, the newest step first.
pub open spec fn undone<F: Fn() -> Result<(), String>>(
    steps: Seq<CompletedStep<F>>,
    outcomes: Seq<Undo>,
) -> bool {
    &&& outcomes.len() <= steps.len()
    &&& forall|k: int|
        0 <= k < outcomes.len() ==> undo_outcome(
            steps[steps.len() - 1 - k],
            #[trigger] outcomes[k],
        )
}

/// How many compensations succeeded.
pub open spec fn executed(outcomes: Seq<Undo>) -> nat {
    outcomes.filter(|u: Undo| u is Executed).len()
}

/// How many compensations failed.
pub open spec fn failed(outcomes: Seq<Undo>) -> nat {
    outcomes.filter(|u: Undo| u is Failed).len()
}

/// The number of the newest step, or 0 where there is none.
pub open spec fn newest_number<F>(steps: Seq<CompletedStep<F>>) -> u32 {
    if steps.len() > 0 {
        steps.last().step_number
    } else {
        0
    }
}

/// How many of `total` steps a request to go back `steps_back` steps undoes.
pub open spec fn undo_count(total: nat, steps_back: Option<u32>) -> nat {
    match steps_back {
        Some(n) => if n <= total {
            n as nat
        } else {
            total
        },
        None => total,
    }
}

/// `result` reports a rollback that left the history `rest` and had these outcomes.
pub open spec fn reports<F>(
    result: RollbackResult,
    rest: Seq<CompletedStep<F>>,
    outcomes: Seq<Undo>,
) -> bool {
    &&& result.rolled_back_to_step == newest_number(rest)
    &&& result.compensations_executed == executed(outcomes)
    &&& result.compensations_failed == failed(outcomes)
    &&& result.steps_undone == executed(outcomes) + failed(outcomes)
}

/// The compensation of a step as a list.
pub open spec fn action_of<F>(step: CompletedStep<F>) -> Seq<F> {
    match step.compensate {
        Some(f) => seq![f],
        None => Seq::empty(),
    }
}

/// The compensations of the last `n` steps, the newest step first.
pub open spec fn compensations<F>(steps: Seq<CompletedStep<F>>, n: nat) -> Seq<F>
    decreases n,
{
    if n == 0 || n > steps.len() {
        Seq::empty()
    } else {
        compensations(steps, (n - 1) as nat) + action_of(steps[steps.len() - n])
    }
}

/// A rollback of the last `n` steps left `after` of the history `before`, and its
/// result reports outcomes that fit the steps that are gone.
pub open spec fn rolled_back<F: Fn() -> Result<(), String>>(
    before: Seq<CompletedStep<F>>,
    n: nat,
    after: Seq<CompletedStep<F>>,
    result: RollbackResult,
) -> bool {
    &&& n <= before.len()
    &&& after == before.take(before.len() - n)
    &&& exists|outcomes: Seq<Undo>|
        outcomes.len() == n && #[trigger] undone(before, outcomes) && reports(
            result,
            after,
            outcomes,
        )
}

/// The step owns the checkpoint.
pub open spec fn owns<F>(step: CompletedStep<F>, checkpoint_id: Seq<char>) -> bool {
    text::opt_text(step.checkpoint_id) == Some(checkpoint_id)
}

/// The step at `i` is the newest one that owns the checkpoint.
pub open spec fn newest_owner<F>(
    steps: Seq<CompletedStep<F>>,
    checkpoint_id: Seq<char>,
    i: int,
) -> bool {
    &&& 0 <= i < steps.len()
    &&& owns(steps[i], checkpoint_id)
    &&& forall|j: int| i < j < steps.len() ==> !owns(#[trigger] steps[j], checkpoint_id)
}

/// No step owns the checkpoint.
pub open spec fn no_owner<F>(steps: Seq<CompletedStep<F>>, checkpoint_id: Seq<char>) -> bool {
    forall|i: int| 0 <= i < steps.len() ==> !owns(#[trigger] steps[i], checkpoint_id)
}

/// The history after one more step: the newest `limit` steps stay.
pub open spec fn appended<F>(
    steps: Seq<CompletedStep<F>>,
    step: CompletedStep<F>,
    limit: nat,
) -> Seq<CompletedStep<F>> {
    let longer = steps.push(step);
    if longer.len() > limit {
        longer.skip(longer.len() - limit)
    } else {
        longer
    }
}

/// Counting one outcome more.
proof fn lemma_counts_push(outcomes: Seq<Undo>, u: Undo)
    ensures
        executed(outcomes.push(u)) == executed(outcomes) + (if u is Executed {
            1nat
        } else {
            0
        }),
        failed(outcomes.push(u)) == failed(outcomes) + (if u is Failed {
            1nat
        } else {
            0
        }),
{
    reveal(Seq::filter);
    assert(outcomes.push(u).drop_last() =~= outcomes);
}

/// Every step counts at most once.
proof fn lemma_counts_bound(outcomes: Seq<Undo>)
    ensures
        executed(outcomes) + failed(outcomes) <= outcomes.len(),
    decreases outcomes.len(),
{
    reveal(Seq::filter);
    if outcomes.len() > 0 {
        lemma_counts_bound(outcomes.drop_last());
        lemma_counts_push(outcomes.drop_last(), outcomes.last());
        assert(outcomes.drop_last().push(outcomes.last()) =~= outcomes);
    }
}

impl<F> SagaCoordinator<F> {
    /// The completed steps that can be rolled back, oldest first.
    pub closed spec fn steps(self) -> Seq<CompletedStep<F>> {
        self.completed@
    }

    /// How many steps can be rolled back at most.
    pub closed spec fn limit(self) -> u32 {
        self.max_depth
    }

    /// The compensations that were run so far, in the order of the runs.
    pub closed spec fn ran(self) -> Seq<F> {
        self.ran@
    }

    /// The history is within its limit.
    pub open spec fn wf(self) -> bool {
        self.steps().len() <= self.limit()
    }

    /// A coordinator without history that keeps so many steps.
    pub fn new(max_rollback_depth: u32) -> (r: SagaCoordinator<F>)
        ensures
            r.wf(),
            r.steps() == Seq::<CompletedStep<F>>::empty(),
            r.limit() == max_rollback_depth,
            r.ran() == Seq::<F>::empty(),
    {
        SagaCoordinator {
            completed: Vec::new(),
            max_depth: max_rollback_depth,
            ran: Ghost(Seq::empty()),
        }
    }

    /// Registers a successfully completed step. The oldest steps beyond the limit
    /// are dropped. Nothing is run.
    pub fn register(
        &mut self,
        step_id: StepId,
        step_number: u32,
        checkpoint_id: Option<CheckpointId>,
        compensate: Option<F>,
        description: String,
    )
        requires
            old(self).wf(),
        ensures
            final(self).wf(),
            final(self).limit() == old(self).limit(),
            final(self).ran() == old(self).ran(),
            final(self).steps() == appended(
                old(self).steps(),
                CompletedStep { step_id, step_number, checkpoint_id, compensate, description },
                old(self).limit() as nat,
            ),
    {
        self.completed.push(
            CompletedStep { step_id, step_number, checkpoint_id, compensate, description },
        );
        if self.completed.len() > self.max_depth as usize {
            let excess: usize = self.completed.len() - self.max_depth as usize;
            let kept = self.completed.split_off(excess);
            self.completed = kept;
        }
    }

    /// How many steps a request to go back `steps_back` steps undoes.
    pub(crate) fn undo_len(&self, steps_back: Option<u32>) -> (r: usize)
        ensures
            r == undo_count(self.steps().len(), steps_back),
    {
        let total = self.completed.len();
        match steps_back {
            Some(n) => if (n as usize) < total {
                n as usize
            } else {
                total
            },
            None => total,
        }
    }

    /// Takes the last `n` steps off the history, oldest first. Nothing is run.
    pub(crate) fn take_back(&mut self, n: usize) -> (r: Vec<CompletedStep<F>>)
        requires
            n <= old(self).steps().len(),
        ensures
            r@ == old(self).steps().skip(old(self).steps().len() - n),
            final(self).steps() == old(self).steps().take(old(self).steps().len() - n),
            final(self).limit() == old(self).limit(),
            final(self).ran() == old(self).ran(),
    {
        let at: usize = self.completed.len() - n;
        self.completed.split_off(at)
    }

    /// The number of the newest step, or 0 where there is none.
    pub(crate) fn newest(&self) -> (r: u32)
        ensures
            r == newest_number(self.steps()),
    {
        let n = self.completed.len();
        if n > 0 {
            self.completed[n - 1].step_number
        } else {
            0
        }
    }

    /// The position of the newest step that owns the checkpoint.
    pub(crate) fn owner(&self, checkpoint_id: &str) -> (r: Option<usize>)
        ensures
            match r {
                Some(i) => newest_owner(self.steps(), checkpoint_id@, i as int),
                None => no_owner(self.steps(), checkpoint_id@),
            },
    {
        let total = self.completed.len();
        let mut i: usize = total;
        while i > 0
            invariant
                i <= total,
                total == self.completed@.len(),
                forall|j: int|
                    i <= j < total ==> !owns(#[trigger] self.steps()[j], checkpoint_id@),
            decreases i,
        {
            i -= 1;
            let owner = match &self.completed[i].checkpoint_id {
                Some(id) => text::str_eq(id.as_str(), checkpoint_id),
                None => false,
            };
            if owner {
                return Some(i);
            }
        }
        None
    }

    /// Number of steps currently tracked.
    pub fn depth(&self) -> (r: usize)
        ensures
            r == self.steps().len(),
    {
        self.completed.len()
    }

    /// The most recent step.
    pub fn last_step(&self) -> (r: Option<&CompletedStep<F>>)
        ensures
            r is Some <==> self.steps().len() > 0,
            r matches Some(s) ==> *s == self.steps().last(),
    {
        let n = self.completed.len();
        if n > 0 {
            Some(&self.completed[n - 1])
        } else {
            None
        }
    }
}

/// Every compensation of the steps can be run at any time.
pub open spec fn runnable<F: Fn() -> Result<(), String>>(steps: Seq<CompletedStep<F>>) -> bool {
    forall|i: int|
        0 <= i < steps.len() ==> ((#[trigger] steps[i]).compensate matches Some(f)
            ==> call_requires(f, ()))
}

impl<F: Fn() -> Result<(), String>> SagaCoordinator<F> {
    /// Runs a compensation.
    fn run(&mut self, f: &F) -> (r: Result<(), String>)
        requires
            call_requires(*f, ()),
        ensures
            call_ensures(*f, (), r),
            final(self).ran() == old(self).ran().push(*f),
            final(self).steps() == old(self).steps(),
            final(self).limit() == old(self).limit(),
    {
        let r = f();
        self.ran = Ghost(self.ran@.push(*f));
        r
    }

    /// Rolls back the last `steps_back` steps, or all of them. The compensations of
    /// these steps run once each, newest first, whether or not one of them fails.
    pub fn rollback(&mut self, steps_back: Option<u32>) -> (r: RollbackResult)
        requires
            old(self).wf(),
            runnable(old(self).steps()),
        ensures
            final(self).wf(),
            runnable(final(self).steps()),
            final(self).limit() == old(self).limit(),
            final(self).ran() == old(self).ran() + compensations(
                old(self).steps(),
                undo_count(old(self).steps().len(), steps_back),
            ),
            rolled_back(
                old(self).steps(),
                undo_count(old(self).steps().len(), steps_back),
                final(self).steps(),
                r,
            ),
    {
        let ghost before = self.completed@;
        let ghost ran_before = self.ran@;
        let total = self.completed.len();
        let n = self.undo_len(steps_back);
        let mut executed_count: u32 = 0;
        let mut failed_count: u32 = 0;
        let ghost mut outcomes: Seq<Undo> = Seq::empty();
        let mut i: usize = 0;
        proof {
            reveal(Seq::filter);
            assert(before.take(before.len() as int) =~= before);
            assert(ran_before + compensations(before, 0) =~= ran_before);
        }
        while i < n
            invariant
                i <= n <= total,
                total == before.len(),
                total <= u32::MAX,
                self.max_depth == old(self).max_depth,
                before == old(self).steps(),
                runnable(before),
                self.completed@ == before.take(total - i),
                self.ran@ == ran_before + compensations(before, i as nat),
                outcomes.len() == i,
                undone(before, outcomes),
                executed_count == executed(outcomes),
                failed_count == failed(outcomes),
            decreases n - i,
        {
            proof {
                lemma_counts_bound(outcomes);
            }
            let ghost shorter = before.take(total - i - 1);
            let ghost current = before[total - i - 1];
            let ghost ran_here = self.ran@;
            assert(self.completed@.drop_last() =~= shorter);
            match self.completed.pop() {
                Some(step) => {
                    assert(step == current);
                    let ghost u: Undo;
                    match &step.compensate {
                        Some(compensate) => {
                            assert(call_requires(*compensate, ()));
                            match self.run(compensate) {
                                Ok(()) => {
                                    proof {
                                        u = Undo::Executed;
                                    }
                                    executed_count += 1;
                                },
                                Err(_) => {
                                    proof {
                                        u = Undo::Failed;
                                    }
                                    failed_count += 1;
                                },
                            }
                        },
                        None => {
                            proof {
                                u = Undo::Nothing;
                            }
                        },
                    }
                    proof {
                        assert(undo_outcome(current, u));
                        lemma_counts_push(outcomes, u);
                        outcomes = outcomes.push(u);
                        assert(self.ran@ =~= ran_here + action_of(current));
                        assert(self.ran@ =~= ran_before + compensations(before, (i + 1) as nat));
                    }
                },
                None => {},
            }
            i += 1;
        }
        proof {
            lemma_counts_bound(outcomes);
            assert(outcomes.len() == n);
        }
        RollbackResult {
            rolled_back_to_step: self.newest(),
            steps_undone: executed_count + failed_count,
            compensations_executed: executed_count,
            compensations_failed: failed_count,
        }
    }

    /// Rolls back to the checkpoint. Where no step owns it, nothing is run.
    ///
    /// Checkpoints are taken before a step runs, so the step that owns the
    /// checkpoint is undone too.
    pub fn rollback_to_checkpoint(&mut self, checkpoint_id: &str) -> (r: Option<RollbackResult>)
        requires
            old(self).wf(),
            runnable(old(self).steps()),
        ensures
            final(self).wf(),
            runnable(final(self).steps()),
            final(self).limit() == old(self).limit(),
            match r {
                None => no_owner(old(self).steps(), checkpoint_id@) && final(self).steps() == old(
                    self,
                ).steps() && final(self).ran() == old(self).ran(),
                Some(result) => exists|i: int| #[trigger]
                    newest_owner(old(self).steps(), checkpoint_id@, i) && rolled_back(
                        old(self).steps(),
                        (old(self).steps().len() - i) as nat,
                        final(self).steps(),
                        result,
                    ) && final(self).ran() == old(self).ran() + compensations(
                        old(self).steps(),
                        (old(self).steps().len() - i) as nat,
                    ),
            },
    {
        match self.owner(checkpoint_id) {
            Some(i) => {
                let steps_back: u32 = (self.completed.len() - i) as u32;
                Some(self.rollback(Some(steps_back)))
            },
            None => None,
        }
    }
}

}
