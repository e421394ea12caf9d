//! What holds of stored rows.

use vstd::prelude::*;

use crate::number::Timestamp;
use crate::outside;
use crate::storage;
use crate::storage::AnomalyColumns;
use crate::storage::CheckpointRow;
use crate::storage::SessionRow;
use crate::storage::StepColumns;
use crate::storage::StepRow;
use crate::storage::SummaryRow;
use crate::text;
use crate::tracer::export;
use crate::types::Anomaly;
use crate::types::AnomalyType;
use crate::types::Checkpoint;
use crate::types::CheckpointType;
use crate::types::SessionRecord;
use crate::types::SessionSummary;
use crate::types::Severity;
use crate::types::StepAction;
use crate::types::StepResult;
use crate::types::StepSummary;
use crate::types::TraceEntry;
use crate::types::Verdict;
use crate::types::VerificationOutcome;

verus! {

/// The numbers of a step come back from the store as they went in, whatever they are, and
/// so do its identifiers, its reason, its checkpoint and its cost.
pub proof fn law_step_round_trip(
    entry: TraceEntry,
    columns: StepColumns,
    row: StepRow,
    action: StepAction,
    verification: VerificationOutcome,
    result: StepResult,
    now: Timestamp,
    loaded: TraceEntry,
)
    requires
        call_ensures(storage::step_columns, (&entry,), columns),
        row.id == entry.step_id,
        row.session_id == entry.session_id,
        row.step_number == columns.step_number,
        row.reason == entry.reason,
        row.checkpoint_id == entry.checkpoint_id,
        row.tokens_used == columns.tokens_used,
        row.cost_usd == entry.cost_usd,
        row.duration_ms == columns.duration_ms,
        call_ensures(
            StepRow::into_trace_entry,
            (row, action, verification, result, now),
            loaded,
        ),
    ensures
        loaded.step_id == entry.step_id,
        loaded.session_id == entry.session_id,
        loaded.step_number == entry.step_number,
        loaded.reason == entry.reason,
        loaded.checkpoint_id == entry.checkpoint_id,
        loaded.tokens_used == entry.tokens_used,
        loaded.cost_usd == entry.cost_usd,
        loaded.duration_ms == entry.duration_ms,
        loaded.action == action,
        loaded.verification == verification,
        loaded.result == result,
{
}

/// The stored names of verdicts and results.
pub proof fn law_stored_names(entry: TraceEntry, columns: StepColumns)
    requires
        call_ensures(storage::step_columns, (&entry,), columns),
    ensures
        columns.verification_result@ == (match entry.verification.decision@ {
            Verdict::Pass => "pass"@,
            Verdict::Warn { .. } => "warn"@,
            Verdict::Fail { .. } => "fail"@,
        }),
        columns.result@ == (match entry.result {
            StepResult::Success => "success"@,
            StepResult::Failure { .. } => "failure"@,
            StepResult::RolledBack { .. } => "rolled_back"@,
            StepResult::Skipped { .. } => "skipped"@,
        }),
{
}

/// The stored names of anomalies and of checkpoint types.
pub proof fn law_more_stored_names(anomaly: Anomaly, columns: AnomalyColumns, t: CheckpointType)
    requires
        call_ensures(storage::anomaly_columns, (&anomaly,), columns),
    ensures
        columns.anomaly_type@ == (match anomaly.anomaly_type {
            AnomalyType::GoalDrift => "goal_drift"@,
            AnomalyType::LoopTrap => "loop_trap"@,
            AnomalyType::TokenSpike => "token_spike"@,
            AnomalyType::PlanDeviation => "plan_deviation"@,
            AnomalyType::ConsistencyViolation => "consistency_violation"@,
        }),
        columns.severity@ == (match anomaly.severity {
            Severity::Info => "info"@,
            Severity::Warning => "warning"@,
            Severity::Critical => "critical"@,
        }),
        storage::checkpoint_name(t) == (match t {
            CheckpointType::GitStash => "git_stash"@,
            CheckpointType::GitCommit => "git_commit"@,
            CheckpointType::FileCopy => "file_copy"@,
        }),
{
}

/// An instant is the one that its stored text names, or `now` where the text names none.
pub proof fn law_stored_instants(stored: Seq<char>, now: Timestamp)
    ensures
        outside::instant_read(stored, "%Y-%m-%d %H:%M:%S"@) matches Some(p)
            ==> storage::stored_instant(stored, now) == p,
        outside::instant_read(stored, "%Y-%m-%d %H:%M:%S"@) is None ==> storage::stored_instant(
            stored,
            now,
        ) == now.parts(),
{
}

/// The totals of a session are summed up as they are, as long as they are counts that
/// fit.
pub proof fn law_summary_totals(
    row: SummaryRow,
    session_id: &str,
    anomalies: i64,
    summary: SessionSummary,
)
    requires
        0 <= row.total_steps <= u32::MAX,
        0 <= row.successful_steps <= u32::MAX,
        0 <= row.failed_steps <= u32::MAX,
        0 <= row.rollbacks <= u32::MAX,
        0 <= row.interceptions <= u32::MAX,
        0 <= anomalies <= u32::MAX,
        0 <= row.total_tokens,
        0 <= row.total_duration,
        call_ensures(SummaryRow::into_summary, (row, session_id, anomalies), summary),
    ensures
        summary.session_id@ == session_id@,
        summary.total_steps == row.total_steps,
        summary.successful_steps == row.successful_steps,
        summary.failed_steps == row.failed_steps,
        summary.rollbacks == row.rollbacks,
        summary.verifier_interceptions == row.interceptions,
        summary.anomalies_detected == anomalies,
        summary.total_tokens == row.total_tokens,
        summary.total_cost_usd == row.total_cost,
        summary.total_duration_ms == row.total_duration,
{
}

/// Steps that come newest first are put in the order in which they happened, and nothing
/// is lost.
pub proof fn law_order_of_steps(newest_first: Vec<TraceEntry>, r: Vec<TraceEntry>, i: int)
    requires
        call_ensures(storage::oldest_first, (newest_first,), r),
        0 <= i < newest_first@.len(),
    ensures
        r@.len() == newest_first@.len(),
        r@[i] == newest_first@[newest_first@.len() - 1 - i],
{
}

// ── Exported traces ──────────────────────────────────────────

/// A trace has a line of column names and then one line for each step, in their order.
pub proof fn law_trace_rows(
    steps: Seq<TraceEntry>,
    costs: Seq<Seq<char>>,
    step: TraceEntry,
    cost: Seq<char>,
)
    requires
        costs.len() == steps.len(),
    ensures
        export::csv_header()
            == "step_id,session_id,step_number,action_type,description,verification,result,tokens,cost_usd,duration_ms,timestamp\n"@,
        export::csv_rows(Seq::empty(), Seq::empty()) == Seq::<char>::empty(),
        export::csv_rows(steps.push(step), costs.push(cost)) == export::csv_rows(steps, costs)
            + export::csv_row(step, cost),
{
    assert(steps.push(step).drop_last() =~= steps);
    assert(costs.push(cost).drop_last() =~= costs);
}

/// The fields of the line of a step.
pub open spec fn fields(step: TraceEntry, cost: Seq<char>) -> Seq<Seq<char>> {
    seq![
        export::quoted(step.step_id@),
        export::quoted(step.session_id@),
        text::decimal(step.step_number as nat),
        export::quoted(step.action.action_type@.name()),
        export::quoted(step.action.description@),
        export::quoted(
            match step.verification.decision@ {
                Verdict::Pass => "pass"@,
                Verdict::Warn { .. } => "warn"@,
                Verdict::Fail { .. } => "fail"@,
            },
        ),
        export::quoted(
            match step.result {
                StepResult::Success => "success"@,
                StepResult::Failure { .. } => "failure"@,
                StepResult::RolledBack { .. } => "rolled_back"@,
                StepResult::Skipped { .. } => "skipped"@,
            },
        ),
        text::decimal(step.tokens_used as nat),
        cost,
        text::decimal(step.duration_ms as nat),
        export::quoted(
            outside::rfc3339(step.timestamp.parts().0, step.timestamp.parts().1),
        ),
    ]
}

/// The line of a step has a field for every column, in their order, with commas between
/// them. Texts are quoted and numbers are not.
pub proof fn law_trace_row(step: TraceEntry, cost: Seq<char>)
    ensures
        export::csv_row(step, cost) == text::joined(fields(step, cost), ","@) + "\n"@,
{
    let a = export::quoted(step.step_id@);
    let b = export::quoted(step.session_id@);
    let c = text::decimal(step.step_number as nat);
    let d = export::quoted(step.action.action_type@.name());
    let e = export::quoted(step.action.description@);
    let f = export::quoted(storage::verdict_name(step.verification.decision@));
    let g = export::quoted(storage::result_name(step.result));
    let h = text::decimal(step.tokens_used as nat);
    let i = cost;
    let j = text::decimal(step.duration_ms as nat);
    let k = export::quoted(outside::rfc3339(step.timestamp.parts().0, step.timestamp.parts().1));
    let s = ","@;
    let p1 = seq![a];
    let p2 = p1.push(b);
    let p3 = p2.push(c);
    let p4 = p3.push(d);
    let p5 = p4.push(e);
    let p6 = p5.push(f);
    let p7 = p6.push(g);
    let p8 = p7.push(h);
    let p9 = p8.push(i);
    let p10 = p9.push(j);
    let p11 = p10.push(k);
    crate::text_laws::law_joining(p1, b, s);
    crate::text_laws::law_joining(p2, c, s);
    crate::text_laws::law_joining(p3, d, s);
    crate::text_laws::law_joining(p4, e, s);
    crate::text_laws::law_joining(p5, f, s);
    crate::text_laws::law_joining(p6, g, s);
    crate::text_laws::law_joining(p7, h, s);
    crate::text_laws::law_joining(p8, i, s);
    crate::text_laws::law_joining(p9, j, s);
    crate::text_laws::law_joining(p10, k, s);
    crate::text_laws::law_joining(p1, a, s);
    assert(p11 =~= fields(step, cost));
}

/// A stored checkpoint comes back with its texts. Where no files were stored it has none,
/// and where its type is not one of the three known names, this is what is said.
pub proof fn law_loaded_checkpoints(
    row: CheckpointRow,
    now: Timestamp,
    r: Result<Checkpoint, String>,
)
    requires
        call_ensures(CheckpointRow::into_checkpoint, (row, now), r),
    ensures
        row.checkpoint_type@ == "git_stash"@ && row.files_affected is None ==> (r matches Ok(c)
            && c.checkpoint_type == CheckpointType::GitStash && c.files_affected@.len() == 0),
        row.checkpoint_type@ == "git_commit"@ && row.files_affected is None ==> (r matches Ok(c)
            && c.checkpoint_type == CheckpointType::GitCommit && c.files_affected@.len() == 0),
        row.checkpoint_type@ == "file_copy"@ && row.files_affected is None ==> (r matches Ok(c)
            && c.checkpoint_type == CheckpointType::FileCopy && c.files_affected@.len() == 0),
        row.checkpoint_type@ != "git_stash"@ && row.checkpoint_type@ != "git_commit"@
            && row.checkpoint_type@ != "file_copy"@ ==> (r matches Err(e) && e@
            == "unknown checkpoint type: "@ + row.checkpoint_type@),
        r matches Ok(c) ==> c.id@ == row.id@ && c.session_id@ == row.session_id@ && c.step_id@
            == row.step_id@ && c.reference@ == row.reference@,
        r matches Ok(c) ==> (row.files_affected matches Some(t) ==> outside::json_list_read(t@)
            == Ok::<Seq<Seq<char>>, Seq<char>>(text::strings(c.files_affected@))),
        row.files_affected matches Some(t) ==> (outside::json_list_read(t@) is Err ==> r is Err),
{
    storage::law_checkpoint_name_round_trip(CheckpointType::GitStash);
    storage::law_checkpoint_name_round_trip(CheckpointType::GitCommit);
    storage::law_checkpoint_name_round_trip(CheckpointType::FileCopy);
    if let Ok(c) = r {
        assert(text::strings(c.files_affected@).len() == c.files_affected@.len());
    }
}

/// What later steps see of a trace is one summary for each step, in their order.
pub proof fn law_summaries(trace: &[TraceEntry], r: Vec<StepSummary>, i: int)
    requires
        call_ensures(storage::summarize_steps, (trace,), r),
        0 <= i < trace@.len(),
    ensures
        r@.len() == trace@.len(),
        r@[i].step_number == trace@[i].step_number,
        r@[i].action_type == trace@[i].action.action_type,
        r@[i].description == trace@[i].action.description,
        r@[i].result == trace@[i].result,
{
}

/// A stored session comes back as it is.
pub proof fn law_loaded_sessions(row: SessionRow, r: SessionRecord)
    requires
        call_ensures(SessionRow::into_session_record, (row,), r),
    ensures
        r.session_id == row.id,
        r.agent_name == row.agent_name,
        r.working_dir == row.working_dir,
        r.status == row.status,
{
}

}
