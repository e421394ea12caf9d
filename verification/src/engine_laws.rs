//! What holds of sessions and their steps.

use vstd::prelude::*;

use crate::config;
use crate::engine;
use crate::engine::BeginAction;
use crate::engine::BeginRun;
use crate::engine::ExecutionEngine;
use crate::engine::RecordStepRequest;
use crate::engine::RecordStepResponse;
use crate::engine::StepOutcomeStatus;
use crate::engine::VerifyStepRequest;
use crate::engine::VerifyStepResponse;
use crate::learner::rules as learned;
use crate::number::Timestamp;
use crate::text;
use crate::types;
use crate::types::Anomaly;
use crate::types::ExecutionContext;
use crate::types::SessionRecord;
use crate::types::StepAction;
use crate::types::StepResult;
use crate::types::StepSummary;
use crate::types::TraceEntry;
use crate::types::VerificationOutcome;
use crate::verification;

verus! {

/// Where verification is enabled, every check is made, those of the learned rules among
/// them, all are reported, and the verdict is the one on all of them.
pub proof fn law_enabled_verification(
    policy: config::Policy,
    lessons: Seq<learned::Advice>,
    action: StepAction,
    ctx: ExecutionContext,
    outcome: VerificationOutcome,
)
    requires
        policy.enabled,
        engine::verifies(policy, lessons, action, ctx, outcome),
    ensures
        types::checks(outcome.checks_performed@) == verification::all_checks(
            policy,
            verification::patterns::usable_threats(),
            lessons,
            action,
            ctx,
        ),
        outcome.decision@ == verification::verdict(
            types::checks(outcome.checks_performed@),
        ),
        outcome.checks_performed@.len() == (if policy.rules_enabled {
            5int
        } else {
            0
        }) + (if policy.consistency_enabled {
            3int
        } else {
            0
        }) + lessons.len(),
{
    assert(types::checks(outcome.checks_performed@).len() == outcome.checks_performed@.len());
}

/// The context of a step is that of its session. Its number is the one that was given,
/// or else one more than that of the last step, or 1 for the first one. There is no
/// number beyond the largest.
pub proof fn law_step_context(
    session: SessionRecord,
    step_number: Option<u32>,
    plan: Option<String>,
    previous: Seq<StepSummary>,
    ctx: ExecutionContext,
)
    requires
        engine::is_context(session, step_number, plan, previous, ctx),
    ensures
        ctx.session_id == session.session_id,
        ctx.working_dir == session.working_dir,
        ctx.agent_name == session.agent_name,
        ctx.plan == plan,
        ctx.previous_steps@ == previous,
        step_number matches Some(n) ==> ctx.step_number == n,
        step_number is None && previous.len() == 0 ==> ctx.step_number == 1,
        step_number is None && previous.len() > 0 && previous[previous.len() - 1].step_number
            < u32::MAX ==> ctx.step_number == previous[previous.len() - 1].step_number + 1,
        step_number is None && previous.len() > 0 && previous[previous.len() - 1].step_number
            == u32::MAX ==> ctx.step_number == u32::MAX,
{
}

/// What is recorded of a step is what was reported, in its context, at this instant. A
/// failure, a rollback or a skipped step tells the message, or says as much where there
/// is none.
pub proof fn law_recorded_step(
    request: RecordStepRequest,
    ctx: ExecutionContext,
    now: Timestamp,
    entry: TraceEntry,
)
    requires
        engine::records(request, ctx, now, entry),
    ensures
        entry.session_id == ctx.session_id,
        entry.step_number == ctx.step_number,
        entry.action == request.action,
        entry.reason == request.reason,
        entry.checkpoint_id == request.checkpoint_id,
        entry.tokens_used == request.tokens_used,
        entry.cost_usd == request.cost_usd,
        entry.duration_ms == request.duration_ms,
        entry.timestamp == now,
        request.result_status == StepOutcomeStatus::Success <==> entry.result is Success,
        request.result_status == StepOutcomeStatus::Failure <==> entry.result is Failure,
        request.result_status == StepOutcomeStatus::RolledBack <==> entry.result is RolledBack,
        request.result_status == StepOutcomeStatus::Skipped <==> entry.result is Skipped,
        entry.result matches StepResult::Failure { error } ==> error@ == (
        match request.result_message {
            Some(m) => m@,
            None => "step failed"@,
        }),
        entry.result matches StepResult::RolledBack { reason } ==> reason@ == (
        match request.result_message {
            Some(m) => m@,
            None => "step rolled back"@,
        }),
        entry.result matches StepResult::Skipped { reason } ==> reason@ == (
        match request.result_message {
            Some(m) => m@,
            None => "step skipped"@,
        }),
{
}

/// A step is verified in its session, with the steps before it. An unknown session is
/// told by its name.
pub proof fn law_verified_in_session(
    e: ExecutionEngine,
    request: VerifyStepRequest,
    found: Option<SessionRecord>,
    previous: Vec<StepSummary>,
    r: Result<VerifyStepResponse, String>,
)
    requires
        call_ensures(ExecutionEngine::verify_step, (&e, request, found, previous), r),
    ensures
        found is None ==> (r matches Err(m) && m@ == "Unknown session: "@ + request.session_id@),
        found matches Some(session) ==> (r matches Ok(response) && response.session_id
            == session.session_id && (request.step_number matches Some(n) ==> response.step_number
            == n) && (request.step_number is None && previous@.len() == 0 ==> response.step_number
            == 1)),
        found matches Some(session) ==> (e.settings().verification@.enabled ==> (r matches Ok(
            response,
        ) && response.verification.checks_performed@.len() == (
        if e.settings().verification@.rules_enabled {
            5int
        } else {
            0
        }) + (if e.settings().verification@.consistency_enabled {
            3int
        } else {
            0
        }) + e.lessons().len())),
{
    if let Ok(response) = r {
        let ctx = choose|ctx: ExecutionContext| #[trigger]
            engine::is_context(
                found->0,
                request.step_number,
                request.plan,
                previous@,
                ctx,
            ) && response.session_id == ctx.session_id && response.step_number == ctx.step_number
                && engine::verifies(
                e.settings().verification@,
                e.lessons(),
                request.action,
                ctx,
                response.verification,
            );
        if e.settings().verification@.enabled {
            law_enabled_verification(
                e.settings().verification@,
                e.lessons(),
                request.action,
                ctx,
                response.verification,
            );
        }
    }
}

/// A step is recorded in its session as it was reported, with a verification of its own.
pub proof fn law_recorded_in_session(
    e: ExecutionEngine,
    request: RecordStepRequest,
    found: Option<SessionRecord>,
    previous: Vec<StepSummary>,
    now: Timestamp,
    r: Result<TraceEntry, String>,
)
    requires
        call_ensures(ExecutionEngine::record_step, (&e, request, found, previous, now), r),
    ensures
        found is None ==> (r matches Err(m) && m@ == "Unknown session: "@ + request.session_id@),
        found matches Some(session) ==> (r matches Ok(entry) && entry.session_id
            == session.session_id && entry.action == request.action && entry.tokens_used
            == request.tokens_used && entry.cost_usd == request.cost_usd && entry.duration_ms
            == request.duration_ms && entry.checkpoint_id == request.checkpoint_id && entry.timestamp
            == now && (entry.result is Success <==> request.result_status
            == StepOutcomeStatus::Success) && (request.step_number matches Some(n)
            ==> entry.step_number == n) && (request.step_number is None && previous@.len() == 0
            ==> entry.step_number == 1)),
{
}

/// The answer to a recorded step tells what was recorded, with its verdict and the
/// anomalies.
pub proof fn law_answer(entry: TraceEntry, anomalies: Vec<Anomaly>, r: RecordStepResponse)
    requires
        call_ensures(engine::record_response, (&entry, anomalies), r),
    ensures
        r.step_id == entry.step_id,
        r.session_id == entry.session_id,
        r.step_number == entry.step_number,
        r.verification.decision@ == entry.verification.decision@,
        r.verification.checks_performed@.len() == entry.verification.checks_performed@.len(),
        r.verification.duration_ms == entry.verification.duration_ms,
        r.checkpoint_id == entry.checkpoint_id,
        r.result == entry.result,
        r.anomalies == anomalies,
{
    assert(types::checks(r.verification.checks_performed@).len()
        == r.verification.checks_performed@.len());
    assert(types::checks(entry.verification.checks_performed@).len()
        == entry.verification.checks_performed@.len());
}

/// A session that the store has is resumed as the store has it. One that it lacks is
/// created under the same name, for the same agent and in the same directory, and where it
/// is lacking still, the failure names it.
pub proof fn law_beginning(run: BeginRun, found: Option<SessionRecord>, r: BeginAction)
    requires
        call_ensures(BeginRun::next, (run, found), r),
    ensures
        found matches Some(record) ==> (r matches BeginAction::Done(answer) && answer.session
            == record),
        found is None && !run.created ==> (r matches BeginAction::Create(next) && next.created
            && next.session_id == run.session_id && next.agent_name == run.agent_name
            && next.working_dir == run.working_dir),
        found is None && run.created ==> (r matches BeginAction::Failed(m) && m@ == "Session "@
            + run.session_id@ + " was not readable after creation"@),
{
}

/// What later steps see of an earlier one is its number, its type, its description and
/// its result.
pub proof fn law_summary(entry: TraceEntry)
    ensures
        types::summary_of(entry).step_number == entry.step_number,
        types::summary_of(entry).action_type == entry.action.action_type,
        types::summary_of(entry).description == entry.action.description,
        types::summary_of(entry).result == entry.result,
{
}

/// A checkpoint is taken before an action exactly where both switches are on and the name
/// of its type is listed.
pub proof fn law_checkpoints_before_actions(c: config::CheckpointConfig, action_name: Seq<char>)
    ensures
        c.saves_before(action_name) <==> c.enabled && c.auto_save && exists|i: int|
            0 <= i < c.auto_save_on@.len() && (#[trigger] c.auto_save_on@[i])@ == action_name,
{
    let list = text::strings(c.auto_save_on@);
    if exists|i: int|
        0 <= i < c.auto_save_on@.len() && (#[trigger] c.auto_save_on@[i])@ == action_name {
        let i = choose|i: int|
            0 <= i < c.auto_save_on@.len() && (#[trigger] c.auto_save_on@[i])@ == action_name;
        assert(list[i] == action_name);
    }
    if list.contains(action_name) {
        let i = choose|i: int| 0 <= i < list.len() && list[i] == action_name;
        assert(c.auto_save_on@[i]@ == action_name);
    }
}

}
