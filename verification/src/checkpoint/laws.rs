//! What holds of checkpoints and rollback as a whole.

use vstd::prelude::*;

use crate::checkpoint;
use crate::checkpoint::git;
use crate::checkpoint::git::RestorePlan;
use crate::checkpoint::git::SaveAction;
use crate::checkpoint::git::SaveRun;
use crate::checkpoint::saga;
use crate::checkpoint::saga::CompletedStep;
use crate::checkpoint::saga::Undo;
use crate::checkpoint::stash;
use crate::checkpoint::undo;
use crate::checkpoint::undo::RollbackAction;
use crate::checkpoint::undo::RollbackRun;
use crate::checkpoint::CheckpointManager;
use crate::number::Timestamp;
use crate::text;
use crate::types::Checkpoint;
use crate::types::CheckpointType;
use crate::types::RollbackResult;
use crate::types::StepAction;
use crate::types::StepId;
use crate::verification::patterns;

verus! {

/// The history never exceeds its limit, and registering keeps the newest steps in
/// their order.
pub proof fn law_newest_steps_stay<F>(
    steps: Seq<CompletedStep<F>>,
    step: CompletedStep<F>,
    limit: nat,
)
    ensures
        saga::appended(steps, step, limit).len() <= limit,
        saga::appended(steps, step, limit).is_suffix_of(steps.push(step)),
        limit > 0 ==> saga::appended(steps, step, limit).last() == step,
        steps.len() < limit ==> saga::appended(steps, step, limit) == steps.push(step),
        steps.len() >= limit ==> saga::appended(steps, step, limit).len() == limit,
{
    let longer = steps.push(step);
    let kept = saga::appended(steps, step, limit);
    assert(longer.subrange(longer.len() - kept.len(), longer.len() as int) =~= kept);
}

/// The compensations of the last steps are those of these steps alone.
proof fn lemma_only_the_last<F>(earlier: Seq<CompletedStep<F>>, last: Seq<CompletedStep<F>>, n: nat)
    requires
        n <= last.len(),
    ensures
        saga::compensations(earlier + last, n) == saga::compensations(last, n),
    decreases n,
{
    if n > 0 {
        lemma_only_the_last(earlier, last, (n - 1) as nat);
        assert((earlier + last)[(earlier + last).len() - n] == last[last.len() - n]);
    }
}

/// A rollback runs no compensation of a step that stays.
pub proof fn law_kept_steps_are_not_run<F>(before: Seq<CompletedStep<F>>, n: nat)
    requires
        n <= before.len(),
    ensures
        saga::compensations(before, n) == saga::compensations(
            before.skip(before.len() - n),
            n,
        ),
{
    let at = before.len() - n;
    lemma_only_the_last(before.take(at), before.skip(at), n);
    assert(before.take(at) + before.skip(at) =~= before);
}

/// A step that was dropped because of the limit is never compensated: whatever is
/// rolled back later runs what it would have run with the step still there.
pub proof fn law_dropped_steps_are_not_run<F>(
    steps: Seq<CompletedStep<F>>,
    step: CompletedStep<F>,
    limit: nat,
    n: nat,
)
    requires
        n <= saga::appended(steps, step, limit).len(),
    ensures
        saga::compensations(saga::appended(steps, step, limit), n) == saga::compensations(
            steps.push(step),
            n,
        ),
{
    let longer = steps.push(step);
    let kept = saga::appended(steps, step, limit);
    let dropped = longer.take(longer.len() - kept.len());
    lemma_only_the_last(dropped, kept, n);
    assert(dropped + kept =~= longer);
}

/// A history whose compensations can be run stays one when a step is registered
/// whose compensation can be run.
pub proof fn law_register_keeps_runnable<F: Fn() -> Result<(), String>>(
    steps: Seq<CompletedStep<F>>,
    step: CompletedStep<F>,
    limit: nat,
)
    requires
        saga::runnable(steps),
        step.compensate matches Some(f) ==> call_requires(f, ()),
    ensures
        saga::runnable(saga::appended(steps, step, limit)),
{
}

/// Rolling back the step that was just registered gives the earlier history back,
/// as long as the limit had room for it, and runs its compensation and no other.
pub proof fn law_rollback_undoes_register<F: Fn() -> Result<(), String>>(
    steps: Seq<CompletedStep<F>>,
    step: CompletedStep<F>,
    limit: nat,
    after: Seq<CompletedStep<F>>,
    result: RollbackResult,
)
    requires
        steps.len() < limit,
        saga::rolled_back(saga::appended(steps, step, limit), 1, after, result),
    ensures
        after == steps,
        saga::compensations(saga::appended(steps, step, limit), 1) == saga::action_of(step),
{
    let longer = saga::appended(steps, step, limit);
    assert(longer.take(steps.len() as int) =~= steps);
    assert(saga::compensations(longer, 0) =~= Seq::<F>::empty());
    assert(longer[longer.len() - 1] == step);
    assert(saga::compensations(longer, 1) =~= saga::action_of(step));
}

/// A full rollback leaves nothing and ends before the first step.
pub proof fn law_full_rollback<F: Fn() -> Result<(), String>>(
    before: Seq<CompletedStep<F>>,
    after: Seq<CompletedStep<F>>,
    result: RollbackResult,
)
    requires
        saga::rolled_back(before, saga::undo_count(before.len(), None), after, result),
    ensures
        after == Seq::<CompletedStep<F>>::empty(),
        result.rolled_back_to_step == 0,
{
    assert(after =~= Seq::<CompletedStep<F>>::empty());
}

/// A rollback of no steps runs nothing and changes nothing.
pub proof fn law_empty_rollback<F: Fn() -> Result<(), String>>(
    before: Seq<CompletedStep<F>>,
    after: Seq<CompletedStep<F>>,
    result: RollbackResult,
)
    requires
        saga::rolled_back(before, 0, after, result),
    ensures
        after == before,
        result.steps_undone == 0,
        result.compensations_executed == 0,
        result.compensations_failed == 0,
        result.rolled_back_to_step == saga::newest_number(before),
        saga::compensations(before, 0) == Seq::<F>::empty(),
{
    reveal(Seq::filter);
    assert(before.take(before.len() as int) =~= before);
}

proof fn lemma_counts_concat(a: Seq<Undo>, b: Seq<Undo>)
    ensures
        saga::executed(a + b) == saga::executed(a) + saga::executed(b),
        saga::failed(a + b) == saga::failed(a) + saga::failed(b),
{
    Seq::filter_distributes_over_add(a, b, |u: Undo| u is Executed);
    Seq::filter_distributes_over_add(a, b, |u: Undo| u is Failed);
}

/// The numbers of two rollbacks, one after the other, taken together.
pub open spec fn combined(first: RollbackResult, second: RollbackResult) -> RollbackResult {
    RollbackResult {
        rolled_back_to_step: second.rolled_back_to_step,
        steps_undone: (first.steps_undone + second.steps_undone) as u32,
        compensations_executed: (first.compensations_executed
            + second.compensations_executed) as u32,
        compensations_failed: (first.compensations_failed + second.compensations_failed) as u32,
    }
}

proof fn lemma_compensations_concat<F>(start: Seq<CompletedStep<F>>, n: nat, m: nat)
    requires
        n + m <= start.len(),
    ensures
        saga::compensations(start, n) + saga::compensations(start.take(start.len() - n), m)
            == saga::compensations(start, n + m),
    decreases m,
{
    let middle = start.take(start.len() - n);
    if m == 0 {
        assert(saga::compensations(start, n) + saga::compensations(middle, m)
            =~= saga::compensations(start, n));
    } else {
        lemma_compensations_concat(start, n, (m - 1) as nat);
        let step = start[start.len() - (n + m)];
        assert(middle[middle.len() - m] == step);
        assert(saga::compensations(start, n) + saga::compensations(middle, m)
            =~= saga::compensations(start, n) + saga::compensations(middle, (m - 1) as nat)
            + saga::action_of(step));
    }
}

/// Two rollbacks, one after the other, do what one rollback of all their steps may
/// do: they leave the same history, their counts add up, and they run the same
/// compensations in the same order.
pub proof fn law_rollbacks_compose<F: Fn() -> Result<(), String>>(
    start: Seq<CompletedStep<F>>,
    n: nat,
    middle: Seq<CompletedStep<F>>,
    first: RollbackResult,
    m: nat,
    end: Seq<CompletedStep<F>>,
    second: RollbackResult,
)
    requires
        start.len() <= u32::MAX,
        saga::rolled_back(start, n, middle, first),
        saga::rolled_back(middle, m, end, second),
    ensures
        saga::rolled_back(start, n + m, end, combined(first, second)),
        saga::compensations(start, n) + saga::compensations(middle, m) == saga::compensations(
            start,
            n + m,
        ),
{
    lemma_compensations_concat(start, n, m);
    let a = choose|a: Seq<Undo>|
        a.len() == n && #[trigger] saga::undone(start, a) && saga::reports(first, middle, a);
    let b = choose|b: Seq<Undo>|
        b.len() == m && #[trigger] saga::undone(middle, b) && saga::reports(second, end, b);
    let c = a + b;
    assert(end =~= start.take(start.len() - (n + m)));
    lemma_counts_concat(a, b);
    lemma_counts_within(c);
    assert(saga::undone(start, c)) by {
        assert forall|k: int| 0 <= k < c.len() implies saga::undo_outcome(
            start[start.len() - 1 - k],
            #[trigger] c[k],
        ) by {
            if k < n {
                assert(c[k] == a[k]);
            } else {
                assert(c[k] == b[k - n]);
                assert(middle[middle.len() - 1 - (k - n)] == start[start.len() - 1 - k]);
            }
        }
    }
    assert(saga::reports(combined(first, second), end, c));
}

/// Every compensation gives the same result whenever it is called.
pub open spec fn repeatable<F: Fn() -> Result<(), String>>(steps: Seq<CompletedStep<F>>) -> bool {
    forall|i: int, r: Result<(), String>, s: Result<(), String>|
        0 <= i < steps.len() && steps[i].compensate is Some && #[trigger] call_ensures(
            steps[i].compensate->0,
            (),
            r,
        ) && #[trigger] call_ensures(steps[i].compensate->0, (), s) ==> r is Ok == s is Ok
}

/// Where the compensations give the same result whenever they are called, two
/// rollbacks of the same steps leave the same history and report the same.
pub proof fn law_rollback_is_determined<F: Fn() -> Result<(), String>>(
    before: Seq<CompletedStep<F>>,
    n: nat,
    after: Seq<CompletedStep<F>>,
    result: RollbackResult,
    other_after: Seq<CompletedStep<F>>,
    other_result: RollbackResult,
)
    requires
        repeatable(before),
        saga::rolled_back(before, n, after, result),
        saga::rolled_back(before, n, other_after, other_result),
    ensures
        after == other_after,
        result == other_result,
{
    let a = choose|a: Seq<Undo>|
        a.len() == n && #[trigger] saga::undone(before, a) && saga::reports(result, after, a);
    let b = choose|b: Seq<Undo>|
        b.len() == n && #[trigger] saga::undone(before, b) && saga::reports(
            other_result,
            other_after,
            b,
        );
    assert forall|k: int| 0 <= k < n implies #[trigger] a[k] == b[k] by {
        let i = before.len() - 1 - k;
        assert(saga::undo_outcome(before[i], a[k]));
        assert(saga::undo_outcome(before[i], b[k]));
        if before[i].compensate is Some {
            let f = before[i].compensate->0;
            let r = choose|r: Result<(), String>|
                #[trigger] call_ensures(f, (), r) && a[k] == (if r is Ok {
                    Undo::Executed
                } else {
                    Undo::Failed
                });
            let s = choose|s: Result<(), String>|
                #[trigger] call_ensures(f, (), s) && b[k] == (if s is Ok {
                    Undo::Executed
                } else {
                    Undo::Failed
                });
            assert(call_ensures(before[i].compensate->0, (), r));
            assert(call_ensures(before[i].compensate->0, (), s));
        }
    }
    assert(a =~= b);
}

/// Going back `a` steps and then `b` steps is going back `a + b` steps at once, where
/// the compensations give the same result whenever they are called. The same steps
/// stay, the same compensations are run in the same order, and the counts add up.
pub proof fn law_two_rollbacks_are_one<F: Fn() -> Result<(), String>>(
    start: Seq<CompletedStep<F>>,
    a: u32,
    middle: Seq<CompletedStep<F>>,
    first: RollbackResult,
    b: u32,
    end: Seq<CompletedStep<F>>,
    second: RollbackResult,
    end_at_once: Seq<CompletedStep<F>>,
    at_once: RollbackResult,
)
    requires
        start.len() <= u32::MAX,
        a + b <= u32::MAX,
        repeatable(start),
        saga::rolled_back(start, saga::undo_count(start.len(), Some(a)), middle, first),
        saga::rolled_back(middle, saga::undo_count(middle.len(), Some(b)), end, second),
        saga::rolled_back(
            start,
            saga::undo_count(start.len(), Some((a + b) as u32)),
            end_at_once,
            at_once,
        ),
    ensures
        end_at_once == end,
        at_once == combined(first, second),
        saga::compensations(start, saga::undo_count(start.len(), Some((a + b) as u32)))
            == saga::compensations(start, saga::undo_count(start.len(), Some(a)))
            + saga::compensations(middle, saga::undo_count(middle.len(), Some(b))),
{
    let n = saga::undo_count(start.len(), Some(a));
    let m = saga::undo_count(middle.len(), Some(b));
    law_rollbacks_compose(start, n, middle, first, m, end, second);
    assert(saga::undo_count(start.len(), Some((a + b) as u32)) == n + m);
    law_rollback_is_determined(start, n + m, end_at_once, at_once, end, combined(first, second));
}

proof fn lemma_counts_within(outcomes: Seq<Undo>)
    ensures
        saga::executed(outcomes) + saga::failed(outcomes) <= outcomes.len(),
    decreases outcomes.len(),
{
    reveal(Seq::filter);
    if outcomes.len() > 0 {
        lemma_counts_within(outcomes.drop_last());
    }
}

proof fn lemma_counts_are_compensations<F: Fn() -> Result<(), String>>(
    before: Seq<CompletedStep<F>>,
    outcomes: Seq<Undo>,
)
    requires
        saga::undone(before, outcomes),
    ensures
        saga::executed(outcomes) + saga::failed(outcomes) == saga::compensations(
            before,
            outcomes.len(),
        ).len(),
    decreases outcomes.len(),
{
    reveal(Seq::filter);
    if outcomes.len() > 0 {
        let rest = outcomes.drop_last();
        let k = outcomes.len() - 1;
        assert(saga::undone(before, rest)) by {
            assert forall|j: int| 0 <= j < rest.len() implies saga::undo_outcome(
                before[before.len() - 1 - j],
                #[trigger] rest[j],
            ) by {
                assert(rest[j] == outcomes[j]);
            }
        }
        lemma_counts_are_compensations(before, rest);
        assert(saga::undo_outcome(before[before.len() - 1 - k], outcomes[k]));
        assert(outcomes.last() == outcomes[k]);
    }
}

/// A step is reported as undone for every compensation that was run. So there are
/// no more of them than were rolled back: steps without a compensation are not
/// reported.
pub proof fn law_undone_within<F: Fn() -> Result<(), String>>(
    before: Seq<CompletedStep<F>>,
    n: nat,
    after: Seq<CompletedStep<F>>,
    result: RollbackResult,
)
    requires
        saga::rolled_back(before, n, after, result),
    ensures
        result.steps_undone <= n,
        result.steps_undone == result.compensations_executed + result.compensations_failed,
        result.steps_undone == saga::compensations(before, n).len(),
{
    let outcomes = choose|o: Seq<Undo>|
        o.len() == n && #[trigger] saga::undone(before, o) && saga::reports(result, after, o);
    lemma_counts_within(outcomes);
    lemma_counts_are_compensations(before, outcomes);
}

/// Where every step that is rolled back has a compensation that can only succeed,
/// all of them are reported as executed and none as failed.
pub proof fn law_sound_compensations<F: Fn() -> Result<(), String>>(
    before: Seq<CompletedStep<F>>,
    n: nat,
    after: Seq<CompletedStep<F>>,
    result: RollbackResult,
)
    requires
        saga::rolled_back(before, n, after, result),
        forall|i: int|
            before.len() - n <= i < before.len() ==> (#[trigger] before[i]).compensate is Some,
        forall|i: int, r: Result<(), String>|
            #![trigger call_ensures(before[i].compensate->0, (), r)]
            before.len() - n <= i < before.len() && call_ensures(before[i].compensate->0, (), r)
                ==> r is Ok,
    ensures
        result.compensations_executed == n,
        result.compensations_failed == 0,
        result.steps_undone == n,
{
    let outcomes = choose|o: Seq<Undo>|
        o.len() == n && #[trigger] saga::undone(before, o) && saga::reports(result, after, o);
    assert forall|k: int| 0 <= k < outcomes.len() implies #[trigger] outcomes[k] is Executed by {
        let step = before[before.len() - 1 - k];
        assert(saga::undo_outcome(step, outcomes[k]));
        let f = step.compensate->0;
        let r = choose|r: Result<(), String>|
            #[trigger] call_ensures(f, (), r) && outcomes[k] == (if r is Ok {
                Undo::Executed
            } else {
                Undo::Failed
            });
        assert(call_ensures(before[before.len() - 1 - k].compensate->0, (), r));
    }
    lemma_all_executed(outcomes);
}

proof fn lemma_all_executed(outcomes: Seq<Undo>)
    requires
        forall|k: int| 0 <= k < outcomes.len() ==> #[trigger] outcomes[k] is Executed,
    ensures
        saga::executed(outcomes) == outcomes.len(),
        saga::failed(outcomes) == 0,
    decreases outcomes.len(),
{
    reveal(Seq::filter);
    if outcomes.len() > 0 {
        assert(outcomes[outcomes.len() - 1] is Executed);
        lemma_all_executed(outcomes.drop_last());
    }
}

/// There is a newest step that owns a checkpoint where any step owns it, and only
/// one. Rolling back to the checkpoint is going back as many steps as there are from
/// there to the end.
pub proof fn law_newest_owner<F>(steps: Seq<CompletedStep<F>>, checkpoint_id: Seq<char>)
    requires
        steps.len() <= u32::MAX,
    ensures
        saga::no_owner(steps, checkpoint_id) <==> !exists|i: int| #[trigger]
            saga::newest_owner(steps, checkpoint_id, i),
        forall|i: int, j: int| #[trigger]
            saga::newest_owner(steps, checkpoint_id, i) && #[trigger] saga::newest_owner(
                steps,
                checkpoint_id,
                j,
            ) ==> i == j,
        forall|i: int| #[trigger]
            saga::newest_owner(steps, checkpoint_id, i) ==> saga::undo_count(
                steps.len(),
                Some((steps.len() - i) as u32),
            ) == steps.len() - i,
    decreases steps.len(),
{
    if !saga::no_owner(steps, checkpoint_id) {
        let last = steps.len() - 1;
        if saga::owns(steps[last], checkpoint_id) {
            assert(saga::newest_owner(steps, checkpoint_id, last));
        } else {
            let rest = steps.drop_last();
            assert(!saga::no_owner(rest, checkpoint_id)) by {
                let i = choose|i: int|
                    0 <= i < steps.len() && saga::owns(#[trigger] steps[i], checkpoint_id);
                assert(saga::owns(rest[i], checkpoint_id));
            }
            law_newest_owner(rest, checkpoint_id);
            let i = choose|i: int| #[trigger] saga::newest_owner(rest, checkpoint_id, i);
            assert forall|j: int| i < j < steps.len() implies !saga::owns(
                #[trigger] steps[j],
                checkpoint_id,
            ) by {
                if j < last {
                    assert(rest[j] == steps[j]);
                }
            }
            assert(saga::newest_owner(steps, checkpoint_id, i));
        }
    }
}

/// Rolling back to a checkpoint undoes the step that owns it and everything behind
/// it, and keeps everything before it.
pub proof fn law_checkpoint_owner_is_undone<F: Fn() -> Result<(), String>>(
    before: Seq<CompletedStep<F>>,
    checkpoint_id: Seq<char>,
    i: int,
    after: Seq<CompletedStep<F>>,
    result: RollbackResult,
)
    requires
        saga::newest_owner(before, checkpoint_id, i),
        saga::rolled_back(before, (before.len() - i) as nat, after, result),
    ensures
        after == before.take(i),
        (forall|j: int| 0 <= j < i ==> !saga::owns(#[trigger] before[j], checkpoint_id))
            ==> forall|j: int|
            0 <= j < after.len() ==> !saga::owns(#[trigger] after[j], checkpoint_id),
{
    if forall|j: int| 0 <= j < i ==> !saga::owns(#[trigger] before[j], checkpoint_id) {
        assert forall|j: int| 0 <= j < after.len() implies !saga::owns(
            #[trigger] after[j],
            checkpoint_id,
        ) by {
            assert(after[j] == before[j]);
        }
    }
}

/// Whatever git saved can be restored by git, whatever was stashed before and after.
/// Right after it was saved it is where the reference says.
pub proof fn law_saved_is_restorable(
    run: SaveRun,
    reply: Result<String, String>,
    now: Timestamp,
    checkpoint: Checkpoint,
    saved: Seq<Seq<char>>,
)
    requires
        run.leads_to(reply, now, SaveAction::Saved(checkpoint)),
    ensures
        git::restore_args(
            checkpoint.checkpoint_type,
            stash::current_reference(saved, checkpoint),
        ) is Some,
        checkpoint.checkpoint_type != CheckpointType::FileCopy,
        run.phase == git::SavePhase::Stashing || checkpoint.checkpoint_type
            == CheckpointType::GitCommit ==> stash::current_reference(
            stash::after_save(saved, checkpoint),
            checkpoint,
        ) == checkpoint.reference@,
{
    lemma_newest_stash();
}

/// A checkpoint is staged, then stashed, and is a stash where there was something
/// to stash. Otherwise the current commit is read and recorded. In either case it
/// carries the identifiers that the run began with.
pub proof fn law_save_protocol(
    start: SaveRun,
    staged: Result<String, String>,
    stashing: SaveRun,
    stashed: Result<String, String>,
    after_stash: SaveAction,
    head: Result<String, String>,
    after_head: SaveAction,
    now: Timestamp,
)
    requires
        start.phase == git::SavePhase::Staging,
        staged is Ok,
        stashed is Ok,
        head is Ok,
        start.leads_to(staged, now, SaveAction::Run(stashing)),
        stashing.leads_to(stashed, now, after_stash),
        after_stash matches SaveAction::Run(reading) ==> reading.leads_to(head, now, after_head),
    ensures
        stashing.args() == git::stash_args(start.session_id@, start.step_id@),
        !git::nothing_stashed((stashed->Ok_0)@) ==> (after_stash matches SaveAction::Saved(c)
            && start.saves(c, "stash@{0}"@, now)),
        git::nothing_stashed((stashed->Ok_0)@) ==> (after_stash matches SaveAction::Run(reading)
            && reading.args() == git::head_args() && (after_head matches SaveAction::Saved(c)
            && start.saves(c, text::trim((head->Ok_0)@), now))),
{
}

/// A checkpoint is found again however many stashes are saved after it. git lists
/// its stashes newest first, so the entry with the number of newer stashes is the
/// one that was saved for the checkpoint.
pub proof fn law_stash_is_found(saved: Seq<Seq<char>>, id: Seq<char>)
    ensures
        match stash::newer_stashes(saved, id) {
            Some(n) => n < saved.len() && saved.reverse()[n as int] == id,
            None => !saved.contains(id),
        },
    decreases saved.len(),
{
    if saved.len() > 0 && saved.last() != id {
        law_stash_is_found(saved.drop_last(), id);
        if stash::newer_stashes(saved, id) is None {
            assert forall|i: int| 0 <= i < saved.len() implies saved[i] != id by {
                if i < saved.len() - 1 {
                    assert(saved.drop_last()[i] == saved[i]);
                    assert(saved.drop_last().contains(saved[i]));
                }
            }
        }
    }
}

proof fn lemma_newest_stash()
    ensures
        stash::stash_name(0) == "stash@{0}"@,
{
    reveal_strlit("stash@{");
    reveal_strlit("}");
    reveal_strlit("stash@{0}");
    assert(stash::stash_name(0) =~= "stash@{0}"@);
}

/// Right after it was saved a checkpoint is the newest stash, and every later stash
/// moves it one place down the list.
pub proof fn law_stashes_move_down(saved: Seq<Seq<char>>, id: Seq<char>, other: Seq<char>)
    requires
        other != id,
    ensures
        stash::newer_stashes(saved.push(id), id) == Some(0nat),
        stash::stash_name(0) == "stash@{0}"@,
        stash::newer_stashes(saved.push(other), id) == (match stash::newer_stashes(saved, id) {
            Some(n) => Some(n + 1),
            None => None,
        }),
{
    assert(saved.push(other).drop_last() =~= saved);
    lemma_newest_stash();
}

/// However many stashes follow, a checkpoint that was stashed is restored from its
/// own stash: git is asked to apply the entry that lists it.
pub proof fn law_restore_names_own_stash(
    saved: Seq<Seq<char>>,
    checkpoint: Checkpoint,
    later: Seq<Seq<char>>,
    plan: Result<RestorePlan, String>,
)
    requires
        checkpoint.checkpoint_type == CheckpointType::GitStash,
        !later.contains(checkpoint.id@),
        git::is_plan(stash::after_save(saved, checkpoint) + later, checkpoint, plan),
    ensures
        (stash::after_save(saved, checkpoint) + later).reverse()[later.len() as int]
            == checkpoint.id@,
        plan matches Ok(p) && text::strings(p.args@) == seq![
            "stash"@,
            "apply"@,
            stash::stash_name(later.len()),
        ],
{
    lemma_newer_are_later(stash::after_save(saved, checkpoint), checkpoint.id@, later);
}

proof fn lemma_newer_are_later(saved: Seq<Seq<char>>, id: Seq<char>, later: Seq<Seq<char>>)
    requires
        saved.len() > 0,
        saved.last() == id,
        !later.contains(id),
    ensures
        stash::newer_stashes(saved + later, id) == Some(later.len()),
    decreases later.len(),
{
    let all = saved + later;
    if later.len() == 0 {
        assert(all =~= saved);
    } else {
        assert(later.contains(later.last()));
        assert forall|x: Seq<char>| later.drop_last().contains(x) implies later.contains(x) by {
            let i = choose|i: int| 0 <= i < later.len() - 1 && later.drop_last()[i] == x;
            assert(later[i] == x);
        }
        lemma_newer_are_later(saved, id, later.drop_last());
        assert(all.drop_last() =~= saved + later.drop_last());
        assert(all.last() == later.last());
    }
}

/// Dropping the stash of a checkpoint takes its entry off the list, and the entries
/// behind it move up.
pub proof fn law_drop_removes_own_stash(saved: Seq<Seq<char>>, checkpoint: Checkpoint, n: nat)
    requires
        checkpoint.checkpoint_type == CheckpointType::GitStash,
        stash::newer_stashes(saved, checkpoint.id@) == Some(n),
    ensures
        saved.reverse()[n as int] == checkpoint.id@,
        stash::current_reference(saved, checkpoint) == stash::stash_name(n),
        stash::after_drop(saved, checkpoint).reverse() == saved.reverse().remove(n as int),
{
    law_stash_is_found(saved, checkpoint.id@);
    assert(stash::after_drop(saved, checkpoint).reverse() =~= saved.reverse().remove(n as int));
}

/// A step that was registered with a checkpoint is undone by restoring this very
/// checkpoint, where there is a backend.
pub proof fn law_step_restores_its_checkpoint(
    steps: Seq<CompletedStep<Checkpoint>>,
    step: CompletedStep<Checkpoint>,
    limit: nat,
    step_id: StepId,
    step_number: u32,
    checkpoint: &Checkpoint,
    description: String,
    saved: Seq<Seq<char>>,
    after: Seq<CompletedStep<Checkpoint>>,
    action: RollbackAction,
)
    requires
        limit > 0,
        checkpoint::is_step(step, step_id, step_number, Some(checkpoint), true, description),
        checkpoint::begins_rollback(
            saga::appended(steps, step, limit),
            1,
            saved,
            after,
            action,
        ),
    ensures
        action matches RollbackAction::Run(run) && run.plans().len() == 1 && git::is_plan(
            saved,
            *checkpoint,
            run.plans()[0],
        ),
{
    let longer = saga::appended(steps, step, limit);
    assert(longer[longer.len() - 1] == step);
    assert(saga::compensations(longer, 0) =~= Seq::<Checkpoint>::empty());
    assert(saga::compensations(longer, 1) =~= seq![step.compensate->0]);
    let run = action->Run_0;
    assert(git::is_plan(saved, saga::compensations(longer, 1)[0], run.plans()[0]));
}

/// How many replies are successes.
pub open spec fn successes(replies: Seq<Result<(), String>>) -> nat {
    replies.filter(|r: Result<(), String>| r is Ok).len()
}

/// From its beginning to its end a rollback asks for every plan once and in order,
/// goes on after a failure, and reports how many were restored and how many were
/// not.
pub proof fn law_rollback_restores_each_once(
    saved: Seq<Seq<char>>,
    checkpoints: Seq<Checkpoint>,
    target: u32,
    runs: Seq<RollbackRun>,
    replies: Seq<Result<(), String>>,
    result: RollbackResult,
)
    requires
        runs.len() > 0,
        replies.len() == runs.len(),
        undo::begins(RollbackAction::Run(runs[0]), saved, checkpoints, target),
        forall|k: int|
            0 <= k < runs.len() - 1 ==> (#[trigger] runs[k]).leads_to(
                replies[k],
                RollbackAction::Run(runs[k + 1]),
            ),
        runs.last().leads_to(replies.last(), RollbackAction::Done(result)),
    ensures
        runs.len() == checkpoints.len(),
        forall|k: int|
            0 <= k < runs.len() ==> (#[trigger] runs[k]).done() == k && git::is_plan(
                saved,
                checkpoints[k],
                runs[k].plans()[k],
            ),
        result == undo::reported(
            target,
            successes(replies),
            (replies.len() - successes(replies)) as nat,
        ),
{
    reveal(Seq::filter);
    assert forall|k: int| 0 <= k < runs.len() implies is_at(
        #[trigger] runs[k],
        k,
        runs[0].plans(),
        target,
        replies,
    ) by {
        lemma_run_progress(runs, replies, target, k);
    }
    let last = runs.len() - 1;
    assert(is_at(runs[last], last, runs[0].plans(), target, replies));
    assert(replies.drop_last() =~= replies.take(last));
}

/// The run has had the first `k` of the replies.
spec fn is_at(
    run: RollbackRun,
    k: int,
    plans: Seq<Result<RestorePlan, String>>,
    target: u32,
    replies: Seq<Result<(), String>>,
) -> bool {
    &&& run.plans() == plans
    &&& run.target() == target
    &&& run.done() == k
    &&& run.executed() == successes(replies.take(k))
}

proof fn lemma_run_progress(
    runs: Seq<RollbackRun>,
    replies: Seq<Result<(), String>>,
    target: u32,
    k: int,
)
    requires
        0 <= k < runs.len() == replies.len(),
        runs[0].done() == 0,
        runs[0].executed() == 0,
        runs[0].target() == target,
        forall|j: int|
            0 <= j < runs.len() - 1 ==> (#[trigger] runs[j]).leads_to(
                replies[j],
                RollbackAction::Run(runs[j + 1]),
            ),
    ensures
        is_at(runs[k], k, runs[0].plans(), target, replies),
    decreases k,
{
    reveal(Seq::filter);
    if k > 0 {
        lemma_run_progress(runs, replies, target, k - 1);
        assert(runs[k - 1].leads_to(replies[k - 1], RollbackAction::Run(runs[k])));
        assert(replies.take(k).drop_last() =~= replies.take(k - 1));
    }
}

// ── What a rollback reports ──────────────────────────────────

/// A rollback reports the number of the last step that is left, whatever the numbers
/// are: the one before the steps that are gone. Where no step is left it reports 0.
pub proof fn law_rollback_reports_the_last_step_left<F: Fn() -> Result<(), String>>(
    before: Seq<CompletedStep<F>>,
    n: nat,
    after: Seq<CompletedStep<F>>,
    result: RollbackResult,
)
    requires
        saga::rolled_back(before, n, after, result),
    ensures
        after.len() > 0 ==> result.rolled_back_to_step == after[after.len() - 1].step_number,
        n < before.len() ==> result.rolled_back_to_step == before[before.len() - n
            - 1].step_number,
        n == before.len() ==> result.rolled_back_to_step == 0,
        after.len() > 0 ==> exists|i: int|
            0 <= i < after.len() && (#[trigger] after[i]).step_number
                == result.rolled_back_to_step,
{
    if after.len() > 0 {
        assert(after[after.len() - 1] == before[before.len() - n - 1]);
    }
}

/// Registering a step and rolling it back reports the step that was registered
/// before it, at any limit that holds both.
pub proof fn law_undone_step_gives_way_to_the_one_before<F: Fn() -> Result<(), String>>(
    steps: Seq<CompletedStep<F>>,
    earlier: CompletedStep<F>,
    step: CompletedStep<F>,
    limit: nat,
    after: Seq<CompletedStep<F>>,
    result: RollbackResult,
)
    requires
        limit >= 2,
        steps.len() <= limit,
        saga::rolled_back(
            saga::appended(saga::appended(steps, earlier, limit), step, limit),
            1,
            after,
            result,
        ),
    ensures
        result.rolled_back_to_step == earlier.step_number,
        after.last() == earlier,
{
    let one = saga::appended(steps, earlier, limit);
    let two = saga::appended(one, step, limit);
    assert(one.last() == earlier);
    assert(two[two.len() - 1] == step);
    assert(two[two.len() - 2] == earlier);
    assert(after.last() == two[two.len() - 2]);
}

/// Going back so many steps takes exactly so many of the newest steps off the
/// history, or all of them where there are no more, and leaves the others as they
/// were.
pub proof fn law_rollback_takes_the_newest_steps<F: Fn() -> Result<(), String>>(
    before: Seq<CompletedStep<F>>,
    steps_back: u32,
    after: Seq<CompletedStep<F>>,
    result: RollbackResult,
)
    requires
        saga::rolled_back(
            before,
            saga::undo_count(before.len(), Some(steps_back)),
            after,
            result,
        ),
    ensures
        after.len() == (if steps_back < before.len() {
            before.len() - steps_back
        } else {
            0
        }),
        forall|i: int| 0 <= i < after.len() ==> after[i] == before[i],
{
}

/// What a rollback runs are the compensations of the newest steps, from the newest
/// step to the oldest. Steps without a compensation are passed over.
pub proof fn law_compensations_run_newest_first<F>(steps: Seq<CompletedStep<F>>, n: nat)
    requires
        n <= steps.len(),
    ensures
        saga::compensations(steps, n) == steps.skip(steps.len() - n).reverse().filter(
            |s: CompletedStep<F>| s.compensate is Some,
        ).map_values(|s: CompletedStep<F>| s.compensate->0),
    decreases n,
{
    reveal(Seq::filter);
    let keep = |s: CompletedStep<F>| s.compensate is Some;
    let get = |s: CompletedStep<F>| s.compensate->0;
    let newest = steps.skip(steps.len() - n).reverse();
    if n == 0 {
        assert(newest =~= Seq::<CompletedStep<F>>::empty());
        assert(newest.filter(keep).map_values(get) =~= Seq::<F>::empty());
    } else {
        law_compensations_run_newest_first(steps, (n - 1) as nat);
        let fewer = steps.skip(steps.len() - (n - 1)).reverse();
        assert(newest.drop_last() =~= fewer);
        assert(newest.last() == steps[steps.len() - n]);
        if keep(newest.last()) {
            assert(fewer.filter(keep).push(newest.last()).map_values(get) =~= fewer.filter(
                keep,
            ).map_values(get).push(get(newest.last())));
        }
        assert(saga::compensations(steps, n) =~= newest.filter(keep).map_values(get));
    }
}

/// Where it is settled of every compensation whether it succeeds, a rollback counts
/// those that succeed as executed and the others as failed.
pub proof fn law_counts_follow_the_results<F: Fn() -> Result<(), String>>(
    before: Seq<CompletedStep<F>>,
    n: nat,
    after: Seq<CompletedStep<F>>,
    result: RollbackResult,
    succeeds: spec_fn(F) -> bool,
)
    requires
        saga::rolled_back(before, n, after, result),
        forall|f: F, r: Result<(), String>| #[trigger] call_ensures(f, (), r) ==> (r is Ok
            <==> succeeds(f)),
    ensures
        result.compensations_executed == before.skip(before.len() - n).filter(
            |s: CompletedStep<F>| s.compensate matches Some(f) && succeeds(f),
        ).len(),
        result.compensations_failed == before.skip(before.len() - n).filter(
            |s: CompletedStep<F>| s.compensate matches Some(f) && !succeeds(f),
        ).len(),
        result.steps_undone == before.skip(before.len() - n).filter(
            |s: CompletedStep<F>| s.compensate is Some,
        ).len(),
{
    let outcomes = choose|o: Seq<Undo>|
        o.len() == n && #[trigger] saga::undone(before, o) && saga::reports(result, after, o);
    lemma_settled_counts(before, outcomes, succeeds);
}

proof fn lemma_settled_counts<F: Fn() -> Result<(), String>>(
    before: Seq<CompletedStep<F>>,
    outcomes: Seq<Undo>,
    succeeds: spec_fn(F) -> bool,
)
    requires
        saga::undone(before, outcomes),
        forall|f: F, r: Result<(), String>| #[trigger] call_ensures(f, (), r) ==> (r is Ok
            <==> succeeds(f)),
    ensures
        saga::executed(outcomes) == before.skip(before.len() - outcomes.len()).filter(
            |s: CompletedStep<F>| s.compensate matches Some(f) && succeeds(f),
        ).len(),
        saga::failed(outcomes) == before.skip(before.len() - outcomes.len()).filter(
            |s: CompletedStep<F>| s.compensate matches Some(f) && !succeeds(f),
        ).len(),
        saga::executed(outcomes) + saga::failed(outcomes) == before.skip(
            before.len() - outcomes.len(),
        ).filter(|s: CompletedStep<F>| s.compensate is Some).len(),
    decreases outcomes.len(),
{
    let good = |s: CompletedStep<F>| s.compensate matches Some(f) && succeeds(f);
    let bad = |s: CompletedStep<F>| s.compensate matches Some(f) && !succeeds(f);
    let any = |s: CompletedStep<F>| s.compensate is Some;
    let last = before.skip(before.len() - outcomes.len());
    reveal(Seq::filter);
    if outcomes.len() == 0 {
        assert(last =~= Seq::<CompletedStep<F>>::empty());
    } else {
        let fewer = outcomes.drop_last();
        let k = outcomes.len() - 1;
        let step = before[before.len() - 1 - k];
        assert(saga::undone(before, fewer)) by {
            assert forall|j: int| 0 <= j < fewer.len() implies saga::undo_outcome(
                before[before.len() - 1 - j],
                #[trigger] fewer[j],
            ) by {
                assert(fewer[j] == outcomes[j]);
            }
        }
        lemma_settled_counts(before, fewer, succeeds);
        assert(saga::undo_outcome(step, outcomes[k]));
        let rest = before.skip(before.len() - k);
        assert(last =~= seq![step] + rest);
        Seq::filter_distributes_over_add(seq![step], rest, good);
        Seq::filter_distributes_over_add(seq![step], rest, bad);
        Seq::filter_distributes_over_add(seq![step], rest, any);
        patterns::lemma_filter_one(step, good);
        patterns::lemma_filter_one(step, bad);
        patterns::lemma_filter_one(step, any);
        assert(outcomes.last() == outcomes[k]);
    }
}

/// A step owns a checkpoint where it has its identifier. Rolling back to a
/// checkpoint looks for the newest of the steps that own it.
pub proof fn law_owner_has_the_identifier<F>(
    steps: Seq<CompletedStep<F>>,
    checkpoint_id: Seq<char>,
    i: int,
)
    ensures
        saga::newest_owner(steps, checkpoint_id, i) <==> {
            &&& 0 <= i < steps.len()
            &&& steps[i].checkpoint_id matches Some(id) && id@ == checkpoint_id
            &&& forall|j: int|
                i < j < steps.len() ==> !((#[trigger] steps[j]).checkpoint_id matches Some(id)
                    && id@ == checkpoint_id)
        },
        saga::no_owner(steps, checkpoint_id) <==> forall|j: int|
            0 <= j < steps.len() ==> !((#[trigger] steps[j]).checkpoint_id matches Some(id)
                && id@ == checkpoint_id),
{
    assert forall|j: int| 0 <= j < steps.len() implies saga::owns(
        #[trigger] steps[j],
        checkpoint_id,
    ) == (steps[j].checkpoint_id matches Some(id) && id@ == checkpoint_id) by {}
}

/// From request to result: a rollback of the last steps ends at the number of the
/// step before them, or at 0. It asks for the restoration of the checkpoints of these
/// steps, newest first, each once, and counts the replies.
pub proof fn law_rollback_from_request_to_result(
    before: Seq<CompletedStep<Checkpoint>>,
    n: nat,
    saved: Seq<Seq<char>>,
    after: Seq<CompletedStep<Checkpoint>>,
    runs: Seq<RollbackRun>,
    replies: Seq<Result<(), String>>,
    result: RollbackResult,
)
    requires
        runs.len() > 0,
        replies.len() == runs.len(),
        checkpoint::begins_rollback(before, n, saved, after, RollbackAction::Run(runs[0])),
        forall|k: int|
            0 <= k < runs.len() - 1 ==> (#[trigger] runs[k]).leads_to(
                replies[k],
                RollbackAction::Run(runs[k + 1]),
            ),
        runs.last().leads_to(replies.last(), RollbackAction::Done(result)),
        before.len() <= u32::MAX,
    ensures
        after == before.take(before.len() - n),
        result.rolled_back_to_step == (if n < before.len() {
            before[before.len() - n - 1].step_number
        } else {
            0
        }),
        result.steps_undone == replies.len(),
        result.compensations_executed == replies.filter(
            |r: Result<(), String>| r is Ok,
        ).len(),
        result.compensations_failed == replies.filter(
            |r: Result<(), String>| r is Err,
        ).len(),
        runs.len() == before.skip(before.len() - n).filter(
            |s: CompletedStep<Checkpoint>| s.compensate is Some,
        ).len(),
        forall|k: int|
            0 <= k < runs.len() ==> (#[trigger] runs[k]).done() == k && git::is_plan(
                saved,
                before.skip(before.len() - n).reverse().filter(
                    |s: CompletedStep<Checkpoint>| s.compensate is Some,
                )[k].compensate->0,
                runs[k].plans()[k],
            ),
{
    let target = saga::newest_number(after);
    let checkpoints = saga::compensations(before, n);
    law_rollback_restores_each_once(saved, checkpoints, target, runs, replies, result);
    law_compensations_run_newest_first(before, n);
    let last = before.skip(before.len() - n);
    let keep = |s: CompletedStep<Checkpoint>| s.compensate is Some;
    lemma_filter_of_reverse(last, keep);
    last.reverse().lemma_filter_len(keep);
    lemma_ok_or_err(replies);
    assert forall|k: int| 0 <= k < runs.len() implies (#[trigger] runs[k]).done() == k
        && git::is_plan(
        saved,
        last.reverse().filter(keep)[k].compensate->0,
        runs[k].plans()[k],
    ) by {
        assert(checkpoints[k] == last.reverse().filter(keep)[k].compensate->0);
    }
}

proof fn lemma_filter_of_reverse<A>(s: Seq<A>, keep: spec_fn(A) -> bool)
    ensures
        s.reverse().filter(keep).len() == s.filter(keep).len(),
    decreases s.len(),
{
    reveal(Seq::filter);
    if s.len() == 0 {
        assert(s.reverse() =~= s);
    } else {
        let rest = s.drop_last();
        lemma_filter_of_reverse(rest, keep);
        assert(s.reverse() =~= seq![s.last()] + rest.reverse());
        Seq::filter_distributes_over_add(seq![s.last()], rest.reverse(), keep);
        patterns::lemma_filter_one(s.last(), keep);
    }
}

proof fn lemma_ok_or_err(replies: Seq<Result<(), String>>)
    ensures
        replies.filter(|r: Result<(), String>| r is Ok).len() + replies.filter(
            |r: Result<(), String>| r is Err,
        ).len() == replies.len(),
    decreases replies.len(),
{
    reveal(Seq::filter);
    if replies.len() > 0 {
        lemma_ok_or_err(replies.drop_last());
    }
}

/// A rollback of steps without any checkpoint to restore is done at once: nothing was
/// undone, and the number of the last step that is left is reported.
pub proof fn law_rollback_without_checkpoints(
    before: Seq<CompletedStep<Checkpoint>>,
    n: nat,
    saved: Seq<Seq<char>>,
    after: Seq<CompletedStep<Checkpoint>>,
    action: RollbackAction,
)
    requires
        checkpoint::begins_rollback(before, n, saved, after, action),
        forall|i: int|
            before.len() - n <= i < before.len() ==> (#[trigger] before[i]).compensate is None,
    ensures
        action matches RollbackAction::Done(result) && {
            &&& result.steps_undone == 0
            &&& result.compensations_executed == 0
            &&& result.compensations_failed == 0
            &&& result.rolled_back_to_step == (if n < before.len() {
                before[before.len() - n - 1].step_number
            } else {
                0
            })
        },
{
    lemma_nothing_to_run(before, n);
}

proof fn lemma_nothing_to_run(before: Seq<CompletedStep<Checkpoint>>, n: nat)
    requires
        n <= before.len(),
        forall|i: int|
            before.len() - n <= i < before.len() ==> (#[trigger] before[i]).compensate is None,
    ensures
        saga::compensations(before, n).len() == 0,
    decreases n,
{
    if n > 0 {
        lemma_nothing_to_run(before, (n - 1) as nat);
        assert(before[before.len() - n].compensate is None);
    }
}

/// A registered step has the identifiers, the number and the description that were
/// given. It keeps a checkpoint exactly where there is one and it can be restored, and
/// that is the one that was given.
pub proof fn law_registered_step(
    step: CompletedStep<Checkpoint>,
    step_id: StepId,
    step_number: u32,
    checkpoint: Option<&Checkpoint>,
    restorable: bool,
    description: String,
)
    requires
        checkpoint::is_step(step, step_id, step_number, checkpoint, restorable, description),
    ensures
        step.step_id == step_id,
        step.step_number == step_number,
        step.description == description,
        checkpoint is None ==> step.checkpoint_id is None && step.compensate is None,
        checkpoint matches Some(cp) ==> (step.checkpoint_id matches Some(id) && id@ == cp.id@),
        checkpoint is Some ==> (step.compensate is Some <==> restorable),
        checkpoint matches Some(cp) ==> (step.compensate matches Some(kept) ==> kept.id@ == cp.id@
            && kept.checkpoint_type == cp.checkpoint_type && kept.reference@ == cp.reference@
            && kept.session_id@ == cp.session_id@ && kept.step_id@ == cp.step_id@ && text::strings(
            kept.files_affected@,
        ) == text::strings(cp.files_affected@) && kept.created_at == cp.created_at),
{
}

// ── What git is asked for ────────────────────────────────────

/// A stash is applied by its place in the list, a commit is checked out over the
/// whole tree whatever the stashes are, and a copy of files is none of git's business.
pub proof fn law_how_checkpoints_are_restored(
    saved: Seq<Seq<char>>,
    checkpoint: Checkpoint,
    newer: nat,
    plan: Result<RestorePlan, String>,
)
    requires
        git::is_plan(saved, checkpoint, plan),
    ensures
        checkpoint.checkpoint_type == CheckpointType::GitStash && newer < saved.len()
            && saved.reverse()[newer as int] == checkpoint.id@ && (forall|i: int|
            0 <= i < newer ==> saved.reverse()[i] != checkpoint.id@) ==> (plan matches Ok(p)
            && text::strings(p.args@) == seq![
            "stash"@,
            "apply"@,
            "stash@{"@ + text::decimal(newer) + "}"@,
        ] && p.on_failure@ == "Failed to apply git stash"@),
        checkpoint.checkpoint_type == CheckpointType::GitStash && !saved.contains(checkpoint.id@)
            ==> (plan matches Ok(p) && text::strings(p.args@) == seq![
            "stash"@,
            "apply"@,
            checkpoint.reference@,
        ]),
        checkpoint.checkpoint_type == CheckpointType::GitCommit ==> (plan matches Ok(p)
            && text::strings(p.args@) == seq!["checkout"@, checkpoint.reference@, "--"@, "."@]
            && p.on_failure@ == "Failed to checkout commit"@),
        checkpoint.checkpoint_type == CheckpointType::FileCopy <==> plan is Err,
        plan matches Err(e) ==> e@ == "GitCheckpoint cannot restore FileCopy checkpoints"@,
{
    law_stash_is_found(saved, checkpoint.id@);
    if newer < saved.len() && saved.reverse()[newer as int] == checkpoint.id@ && (forall|i: int|
        0 <= i < newer ==> saved.reverse()[i] != checkpoint.id@) {
        lemma_first_in_list(saved, checkpoint.id@, newer);
    }
}

proof fn lemma_first_in_list(saved: Seq<Seq<char>>, id: Seq<char>, newer: nat)
    requires
        newer < saved.len(),
        saved.reverse()[newer as int] == id,
        forall|i: int| 0 <= i < newer ==> saved.reverse()[i] != id,
    ensures
        stash::newer_stashes(saved, id) == Some(newer),
    decreases saved.len(),
{
    if newer > 0 {
        assert(saved.reverse()[0] != id);
        let rest = saved.drop_last();
        assert(rest.reverse()[newer - 1] == saved.reverse()[newer as int]);
        assert forall|i: int| 0 <= i < newer - 1 implies rest.reverse()[i] != id by {
            assert(rest.reverse()[i] == saved.reverse()[i + 1]);
        }
        lemma_first_in_list(rest, id, (newer - 1) as nat);
    }
}

/// Only stashes are kept in the list: saving or dropping another checkpoint leaves it
/// as it is, and so does dropping a stash that is not in it.
pub proof fn law_only_stashes_are_listed(saved: Seq<Seq<char>>, checkpoint: Checkpoint)
    ensures
        checkpoint.checkpoint_type == CheckpointType::GitStash ==> stash::after_save(
            saved,
            checkpoint,
        ) == saved.push(checkpoint.id@),
        checkpoint.checkpoint_type != CheckpointType::GitStash ==> stash::after_save(
            saved,
            checkpoint,
        ) == saved && stash::after_drop(saved, checkpoint) == saved,
        !saved.contains(checkpoint.id@) ==> stash::after_drop(saved, checkpoint) == saved,
        checkpoint.checkpoint_type == CheckpointType::GitStash ==> stash::after_drop(
            stash::after_save(saved, checkpoint),
            checkpoint,
        ) == saved,
{
    law_stash_is_found(saved, checkpoint.id@);
    if checkpoint.checkpoint_type == CheckpointType::GitStash {
        let longer = saved.push(checkpoint.id@);
        assert(longer.remove(longer.len() - 1) =~= saved);
    }
}

/// The commands of a save, one by one: the files are staged, or everything where none
/// are given; what is staged is stashed under a name that tells session and step; and
/// where there was nothing to stash, the current commit is asked for.
pub proof fn law_save_commands(run: SaveRun)
    ensures
        run.phase == git::SavePhase::Staging && run.files@.len() == 0 ==> run.args() == seq![
            "add"@,
            "-A"@,
        ],
        run.phase == git::SavePhase::Staging && run.files@.len() > 0 ==> run.args().len()
            == run.files@.len() + 2 && run.args()[0] == "add"@ && run.args()[1] == "--"@
            && forall|i: int|
            0 <= i < run.files@.len() ==> run.args()[i + 2] == (#[trigger] run.files@[i])@,
        run.phase == git::SavePhase::Stashing ==> run.args() == seq![
            "stash"@,
            "push"@,
            "-m"@,
            "carapace:"@ + run.session_id@ + ":"@ + run.step_id@,
        ],
        run.phase == git::SavePhase::ReadingHead ==> run.args() == seq!["rev-parse"@, "HEAD"@],
{
}

/// What a save makes of the replies: a failing command ends it with the message; a
/// stash that was made is the checkpoint; and where git says that there was nothing to
/// stash, the commit that it names is. The checkpoint has the identifiers and the files
/// of the save.
pub proof fn law_save_outcome(
    run: SaveRun,
    reply: Result<String, String>,
    now: Timestamp,
    next: SaveAction,
)
    requires
        run.leads_to(reply, now, next),
    ensures
        reply matches Err(e) ==> (next matches SaveAction::Failed(m) && m@ == e@),
        reply is Ok && run.phase == git::SavePhase::Staging ==> (next matches SaveAction::Run(r)
            && r.phase == git::SavePhase::Stashing && r.checkpoint_id@ == run.checkpoint_id@
            && r.session_id@ == run.session_id@ && r.step_id@ == run.step_id@ && text::strings(
            r.files@,
        ) == text::strings(run.files@)),
        reply matches Ok(output) && run.phase == git::SavePhase::Stashing && (text::contains(
            output@,
            "No local changes"@,
        ) || text::contains(output@, "No stash"@)) ==> (next matches SaveAction::Run(r) && r.phase
            == git::SavePhase::ReadingHead && r.checkpoint_id@ == run.checkpoint_id@
            && r.session_id@ == run.session_id@ && r.step_id@ == run.step_id@ && text::strings(
            r.files@,
        ) == text::strings(run.files@)),
        reply matches Ok(output) && run.phase == git::SavePhase::Stashing && !text::contains(
            output@,
            "No local changes"@,
        ) && !text::contains(output@, "No stash"@) ==> (next matches SaveAction::Saved(c)
            && c.reference@ == "stash@{0}"@ && c.checkpoint_type == CheckpointType::GitStash),
        reply matches Ok(output) ==> (run.phase == git::SavePhase::ReadingHead ==> (
        next matches SaveAction::Saved(c) && c.reference@ == text::trim(output@) && (
        !"stash@"@.is_prefix_of(c.reference@) ==> c.checkpoint_type
            == CheckpointType::GitCommit))),
        next matches SaveAction::Saved(c) ==> c.id@ == run.checkpoint_id@ && c.session_id@
            == run.session_id@ && c.step_id@ == run.step_id@ && text::strings(c.files_affected@)
            == text::strings(run.files@) && c.created_at == now,
{
    reveal_strlit("stash@");
    reveal_strlit("stash@{0}");
    assert("stash@{0}"@.subrange(0, 6) =~= "stash@"@);
}

/// A git command that ended well, or that had nothing to do, gives what it printed. Any
/// other failed, and the message names the command, its exit code and its complaint.
pub proof fn law_git_replies(
    args: Seq<Seq<char>>,
    code: Option<i32>,
    stdout: Seq<char>,
    stderr: Seq<char>,
)
    ensures
        git::git_reply(args, code, stdout, stderr) is Ok <==> code == Some(0i32)
            || text::contains(stdout, "No local changes"@) || text::contains(
            stderr,
            "No local changes"@,
        ),
        git::git_reply(args, code, stdout, stderr) matches Ok(out) ==> out == stdout,
        git::git_reply(args, code, stdout, stderr) matches Err(e) ==> e == "git "@ + text::joined(
            args,
            " "@,
        ) + " failed (exit "@ + (match code {
            Some(c) => if c < 0 {
                seq!['-'] + text::decimal((-(c as int)) as nat)
            } else {
                text::decimal(c as nat)
            },
            None => seq!['-', '1'],
        }) + "): "@ + text::trim(stderr),
{
    assert(text::signed_decimal(-1) =~= seq!['-', '1']);
}

/// What was saved under a name of a stash is a stash, and under any other name it is a
/// commit.
pub proof fn law_type_of_a_reference(
    run: SaveRun,
    checkpoint: Checkpoint,
    reference: Seq<char>,
    rest: Seq<char>,
    now: Timestamp,
)
    requires
        run.saves(checkpoint, reference, now),
    ensures
        reference == "stash@"@ + rest ==> checkpoint.checkpoint_type == CheckpointType::GitStash,
        (forall|r: Seq<char>| reference != #[trigger] ("stash@"@ + r))
            ==> checkpoint.checkpoint_type == CheckpointType::GitCommit,
{
    let mark = "stash@"@;
    if reference == mark + rest {
        assert(reference.subrange(0, mark.len() as int) =~= mark);
    }
    if mark.is_prefix_of(reference) {
        assert(reference =~= mark + reference.skip(mark.len() as int));
    }
}

/// A checkpoint that is asked for is begun for this session, this step and the files of
/// this action, under a new identifier. There is none where checkpoints are disabled or
/// there is no backend.
pub proof fn law_beginning_to_save(
    manager: CheckpointManager,
    session_id: &str,
    step_id: &str,
    action: StepAction,
    r: Result<SaveRun, String>,
)
    requires
        call_ensures(CheckpointManager::save, (&manager, session_id, step_id, &action), r),
    ensures
        r is Ok <==> manager.settings().enabled && manager.backend() is Some,
        r matches Ok(run) ==> {
            &&& run.session_id@ == session_id@
            &&& run.step_id@ == step_id@
            &&& run.files@.len() == action.target_files@.len()
            &&& forall|i: int|
                0 <= i < run.files@.len() ==> (#[trigger] run.files@[i])@
                    == action.target_files@[i]@
            &&& run.args()[0] == "add"@
        },
        !manager.settings().enabled ==> (r matches Err(e) && e@ == "checkpointing is disabled"@),
        manager.settings().enabled && manager.backend() is None ==> (r matches Err(e) && e@
            == "no git checkpoint backend is available for this working directory"@),
{
    if let Ok(run) = r {
        let asked = text::strings(action.target_files@);
        let taken = text::strings(run.files@);
        assert(taken.len() == run.files@.len());
        assert(asked.len() == action.target_files@.len());
        assert forall|i: int| 0 <= i < run.files@.len() implies (#[trigger] run.files@[i])@
            == action.target_files@[i]@ by {
            assert(taken[i] == asked[i]);
        }
    }
}

/// A checkpoint is begun by itself exactly where it is wanted before actions of this type
/// and there is a backend.
pub proof fn law_saving_if_needed(
    manager: CheckpointManager,
    session_id: &str,
    step_id: &str,
    action: StepAction,
    r: Result<Option<SaveRun>, String>,
)
    requires
        call_ensures(
            CheckpointManager::save_if_needed,
            (&manager, session_id, step_id, &action),
            r,
        ),
    ensures
        r == Ok::<Option<SaveRun>, String>(None) <==> !(manager.settings().enabled
            && manager.settings().auto_save && exists|i: int|
            0 <= i < manager.settings().auto_save_on@.len() && (
            #[trigger] manager.settings().auto_save_on@[i])@ == action.action_type@.name()),
        r is Err ==> manager.backend() is None,
        r matches Ok(Some(run)) ==> run.session_id@ == session_id@ && run.step_id@ == step_id@,
{
    crate::engine_laws::law_checkpoints_before_actions(
        manager.settings(),
        action.action_type@.name(),
    );
}

}
