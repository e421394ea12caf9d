//! What is stored of steps, checkpoints, anomalies and sessions, and what stored
//! rows mean.

use vstd::prelude::*;

use crate::number;
use crate::number::Real;
use crate::number::Timestamp;
use crate::outside;
use crate::text;
use crate::types;
use crate::types::Anomaly;
use crate::types::AnomalyType;
use crate::types::Checkpoint;
use crate::types::CheckpointType;
use crate::types::SessionRecord;
use crate::types::SessionSummary;
use crate::types::Severity;
use crate::types::StepAction;
use crate::types::StepResult;
use crate::types::StepSummary;
use crate::types::TraceEntry;
use crate::types::Verdict;
use crate::types::VerificationDecision;
use crate::types::VerificationOutcome;

verus! {

// ── Labels ───────────────────────────────────────────────────

/// The stored name of a verdict.
pub open spec fn verdict_name(v: Verdict) -> Seq<char> {
    match v {
        Verdict::Pass => "pass"@,
        Verdict::Warn { .. } => "warn"@,
        Verdict::Fail { .. } => "fail"@,
    }
}

/// The stored name of a step result.
pub open spec fn result_name(r: StepResult) -> Seq<char> {
    match r {
        StepResult::Success => "success"@,
        StepResult::Failure { .. } => "failure"@,
        StepResult::RolledBack { .. } => "rolled_back"@,
        StepResult::Skipped { .. } => "skipped"@,
    }
}

/// The stored name of an anomaly type.
pub open spec fn anomaly_name(t: AnomalyType) -> Seq<char> {
    match t {
        AnomalyType::GoalDrift => "goal_drift"@,
        AnomalyType::LoopTrap => "loop_trap"@,
        AnomalyType::TokenSpike => "token_spike"@,
        AnomalyType::PlanDeviation => "plan_deviation"@,
        AnomalyType::ConsistencyViolation => "consistency_violation"@,
    }
}

/// The stored name of a severity.
pub open spec fn severity_name(s: Severity) -> Seq<char> {
    match s {
        Severity::Info => "info"@,
        Severity::Warning => "warning"@,
        Severity::Critical => "critical"@,
    }
}

/// The stored name of a checkpoint type.
pub open spec fn checkpoint_name(t: CheckpointType) -> Seq<char> {
    match t {
        CheckpointType::GitStash => "git_stash"@,
        CheckpointType::GitCommit => "git_commit"@,
        CheckpointType::FileCopy => "file_copy"@,
    }
}

/// The stored name of a decision.
pub fn verification_label(decision: &VerificationDecision) -> (r: &'static str)
    ensures
        r@ == verdict_name(decision@),
{
    match decision {
        VerificationDecision::Pass => "pass",
        VerificationDecision::Warn { .. } => "warn",
        VerificationDecision::Fail { .. } => "fail",
    }
}

/// The stored name of a step result.
pub fn result_label(result: &StepResult) -> (r: &'static str)
    ensures
        r@ == result_name(*result),
{
    match result {
        StepResult::Success => "success",
        StepResult::Failure { .. } => "failure",
        StepResult::RolledBack { .. } => "rolled_back",
        StepResult::Skipped { .. } => "skipped",
    }
}

/// The stored name of an anomaly type.
pub fn anomaly_type_label(anomaly_type: &AnomalyType) -> (r: &'static str)
    ensures
        r@ == anomaly_name(*anomaly_type),
{
    match anomaly_type {
        AnomalyType::GoalDrift => "goal_drift",
        AnomalyType::LoopTrap => "loop_trap",
        AnomalyType::TokenSpike => "token_spike",
        AnomalyType::PlanDeviation => "plan_deviation",
        AnomalyType::ConsistencyViolation => "consistency_violation",
    }
}

/// The stored name of a severity.
pub fn severity_label(severity: &Severity) -> (r: &'static str)
    ensures
        r@ == severity_name(*severity),
{
    match severity {
        Severity::Info => "info",
        Severity::Warning => "warning",
        Severity::Critical => "critical",
    }
}

/// The stored name of a checkpoint type.
pub fn checkpoint_type_label(checkpoint_type: &CheckpointType) -> (r: &'static str)
    ensures
        r@ == checkpoint_name(*checkpoint_type),
{
    match checkpoint_type {
        CheckpointType::GitStash => "git_stash",
        CheckpointType::GitCommit => "git_commit",
        CheckpointType::FileCopy => "file_copy",
    }
}

/// The checkpoint type of a stored name.
pub open spec fn named_checkpoint(name: Seq<char>) -> Option<CheckpointType> {
    if name == "git_stash"@ {
        Some(CheckpointType::GitStash)
    } else if name == "git_commit"@ {
        Some(CheckpointType::GitCommit)
    } else if name == "file_copy"@ {
        Some(CheckpointType::FileCopy)
    } else {
        None
    }
}

/// The checkpoint type of a stored name.
pub fn checkpoint_type_of(name: &str) -> (r: Result<CheckpointType, String>)
    ensures
        r is Ok <==> named_checkpoint(name@) is Some,
        r matches Ok(t) ==> named_checkpoint(name@) == Some(t),
        r matches Err(e) ==> e@ == "unknown checkpoint type: "@ + name@,
{
    if text::str_eq(name, "git_stash") {
        Ok(CheckpointType::GitStash)
    } else if text::str_eq(name, "git_commit") {
        Ok(CheckpointType::GitCommit)
    } else if text::str_eq(name, "file_copy") {
        Ok(CheckpointType::FileCopy)
    } else {
        let mut m = "unknown checkpoint type: ".to_string();
        m.append(name);
        Err(m)
    }
}

// ── Sessions ─────────────────────────────────────────────────

/// A stored session.
#[derive(Debug)]
pub struct SessionRow {
    pub id: String,
    pub agent_name: Option<String>,
    pub working_dir: String,
    pub status: String,
}

impl SessionRow {
    /// The session that the row stands for.
    pub fn into_session_record(self) -> (r: SessionRecord)
        ensures
            r.session_id == self.id,
            r.agent_name == self.agent_name,
            r.working_dir == self.working_dir,
            r.status == self.status,
    {
        SessionRecord {
            session_id: self.id,
            agent_name: self.agent_name,
            working_dir: self.working_dir,
            status: self.status,
        }
    }
}

// ── Steps ────────────────────────────────────────────────────

/// The layout of stored instants.
pub open spec fn instant_layout() -> Seq<char> {
    "%Y-%m-%d %H:%M:%S"@
}

/// The instant that a stored text names, or `now` where it names none.
pub open spec fn stored_instant(text: Seq<char>, now: Timestamp) -> (i64, u32) {
    match outside::instant_read(text, instant_layout()) {
        Some(p) => p,
        None => now.parts(),
    }
}

/// What is stored of a step beside its texts.
#[derive(Debug, Clone, Copy)]
pub struct StepColumns {
    pub step_number: i64,
    pub verification_result: &'static str,
    pub result: &'static str,
    pub tokens_used: i64,
    pub duration_ms: i64,
}

/// What is stored of a step beside its texts. Counts keep their 64 bits.
pub fn step_columns(entry: &TraceEntry) -> (r: StepColumns)
    ensures
        r.step_number == entry.step_number,
        r.verification_result@ == verdict_name(entry.verification.decision@),
        r.result@ == result_name(entry.result),
        r.tokens_used == number::signed_value(entry.tokens_used as int),
        r.duration_ms == number::signed_value(entry.duration_ms as int),
{
    StepColumns {
        step_number: entry.step_number as i64,
        verification_result: verification_label(&entry.verification.decision),
        result: result_label(&entry.result),
        tokens_used: number::signed(entry.tokens_used),
        duration_ms: number::signed(entry.duration_ms),
    }
}

/// A stored step, without the parts that are stored as structured text.
#[derive(Debug)]
pub struct StepRow {
    pub id: String,
    pub session_id: String,
    pub step_number: i64,
    pub reason: Option<String>,
    pub checkpoint_id: Option<String>,
    pub tokens_used: i64,
    pub cost_usd: Real,
    pub duration_ms: i64,
    pub created_at: String,
}

impl StepRow {
    /// The step that the row stands for, with its structured parts. Where its
    /// instant cannot be read it is `now`.
    pub fn into_trace_entry(
        self,
        action: StepAction,
        verification: VerificationOutcome,
        result: StepResult,
        now: Timestamp,
    ) -> (r: TraceEntry)
        ensures
            r.step_id == self.id,
            r.session_id == self.session_id,
            r.step_number == self.step_number as int % 0x1_0000_0000,
            r.action == action,
            r.reason == self.reason,
            r.verification == verification,
            r.checkpoint_id == self.checkpoint_id,
            r.result == result,
            r.tokens_used == self.tokens_used as int % 0x1_0000_0000_0000_0000,
            r.cost_usd == self.cost_usd,
            r.duration_ms == self.duration_ms as int % 0x1_0000_0000_0000_0000,
            r.timestamp.parts() == stored_instant(self.created_at@, now),
    {
        let timestamp = Timestamp::read_or(self.created_at.as_str(), "%Y-%m-%d %H:%M:%S", now);
        TraceEntry {
            step_id: self.id,
            session_id: self.session_id,
            step_number: number::low_u32(self.step_number),
            action,
            reason: self.reason,
            verification,
            checkpoint_id: self.checkpoint_id,
            result,
            tokens_used: number::unsigned(self.tokens_used),
            cost_usd: self.cost_usd,
            duration_ms: number::unsigned(self.duration_ms),
            timestamp,
        }
    }
}

/// The steps, which come newest first, in the order in which they happened.
pub fn oldest_first(newest_first: Vec<TraceEntry>) -> (r: Vec<TraceEntry>)
    ensures
        r@ == newest_first@.reverse(),
{
    let mut rest = newest_first;
    let ghost all = rest@;
    let mut out: Vec<TraceEntry> = Vec::new();
    assert(all.take(all.len() as int) =~= all);
    while rest.len() > 0
        invariant
            rest@ == all.take(rest@.len() as int),
            out@ == all.skip(rest@.len() as int).reverse(),
            rest@.len() <= all.len(),
        decreases rest@.len(),
    {
        let ghost n = rest@.len() as int;
        match rest.pop() {
            Some(entry) => {
                proof {
                    assert(rest@ =~= all.take(n - 1));
                    assert(entry == all[n - 1]);
                    assert(all.skip(n - 1) =~= seq![entry] + all.skip(n));
                    assert(all.skip(n - 1).reverse() =~= all.skip(n).reverse().push(entry));
                }
                out.push(entry);
            },
            None => {},
        }
    }
    assert(all.skip(0) =~= all);
    out
}

/// What later steps see of the steps.
pub fn summarize_steps(trace: &[TraceEntry]) -> (r: Vec<StepSummary>)
    ensures
        r@ == trace@.map_values(|e: TraceEntry| types::summary_of(e)),
{
    let mut out: Vec<StepSummary> = Vec::new();
    let mut i: usize = 0;
    while i < trace.len()
        invariant
            i <= trace.len(),
            out@ == trace@.take(i as int).map_values(|e: TraceEntry| types::summary_of(e)),
        decreases trace.len() - i,
    {
        let s = StepSummary::from(&trace[i]);
        proof {
            assert(s == types::summary_of(trace@[i as int]));
            assert(trace@.take(i + 1) =~= trace@.take(i as int).push(trace@[i as int]));
            assert(trace@.take(i + 1).map_values(|e: TraceEntry| types::summary_of(e))
                =~= trace@.take(i as int).map_values(|e: TraceEntry| types::summary_of(e)).push(s));
        }
        out.push(s);
        i += 1;
    }
    assert(trace@.take(i as int) =~= trace@);
    out
}

// ── Summaries ────────────────────────────────────────────────

/// The stored totals of a session.
#[derive(Debug, Clone, Copy)]
pub struct SummaryRow {
    pub total_steps: i64,
    pub successful_steps: i64,
    pub failed_steps: i64,
    pub rollbacks: i64,
    pub interceptions: i64,
    pub total_tokens: i64,
    pub total_cost: Real,
    pub total_duration: i64,
}

impl SummaryRow {
    /// The summary of the session. Counts keep their low bits.
    pub fn into_summary(self, session_id: &str, anomalies: i64) -> (r: SessionSummary)
        ensures
            r.session_id@ == session_id@,
            r.total_steps == self.total_steps as int % 0x1_0000_0000,
            r.successful_steps == self.successful_steps as int % 0x1_0000_0000,
            r.failed_steps == self.failed_steps as int % 0x1_0000_0000,
            r.rollbacks == self.rollbacks as int % 0x1_0000_0000,
            r.verifier_interceptions == self.interceptions as int % 0x1_0000_0000,
            r.anomalies_detected == anomalies as int % 0x1_0000_0000,
            r.total_tokens == self.total_tokens as int % 0x1_0000_0000_0000_0000,
            r.total_cost_usd == self.total_cost,
            r.total_duration_ms == self.total_duration as int % 0x1_0000_0000_0000_0000,
    {
        SessionSummary {
            session_id: session_id.to_string(),
            total_steps: number::low_u32(self.total_steps),
            successful_steps: number::low_u32(self.successful_steps),
            failed_steps: number::low_u32(self.failed_steps),
            rollbacks: number::low_u32(self.rollbacks),
            verifier_interceptions: number::low_u32(self.interceptions),
            anomalies_detected: number::low_u32(anomalies),
            total_tokens: number::unsigned(self.total_tokens),
            total_cost_usd: self.total_cost,
            total_duration_ms: number::unsigned(self.total_duration),
        }
    }
}

// ── Anomalies ────────────────────────────────────────────────

/// What is stored of an anomaly beside its texts.
#[derive(Debug)]
pub struct AnomalyColumns {
    pub id: String,
    pub anomaly_type: &'static str,
    pub severity: &'static str,
}

/// What is stored of an anomaly beside its texts. Its identifier is new.
pub fn anomaly_columns(anomaly: &Anomaly) -> (r: AnomalyColumns)
    ensures
        types::is_random_uuid(r.id@),
        r.anomaly_type@ == anomaly_name(anomaly.anomaly_type),
        r.severity@ == severity_name(anomaly.severity),
{
    AnomalyColumns {
        id: types::new_id(),
        anomaly_type: anomaly_type_label(&anomaly.anomaly_type),
        severity: severity_label(&anomaly.severity),
    }
}

// ── Checkpoints ──────────────────────────────────────────────

/// A stored checkpoint.
#[derive(Debug)]
pub struct CheckpointRow {
    pub id: String,
    pub session_id: String,
    pub step_id: String,
    pub checkpoint_type: String,
    pub reference: String,
    pub files_affected: Option<String>,
    pub created_at: String,
}

/// The files that a stored text lists. Where none is stored there are none.
pub open spec fn stored_files(stored: Option<Seq<char>>) -> Result<Seq<Seq<char>>, Seq<char>> {
    match stored {
        Some(t) => outside::json_list_read(t),
        None => Ok(Seq::empty()),
    }
}

/// `row` is what is stored of the checkpoint.
pub open spec fn stores(row: CheckpointRow, cp: Checkpoint) -> bool {
    &&& row.id@ == cp.id@
    &&& row.session_id@ == cp.session_id@
    &&& row.step_id@ == cp.step_id@
    &&& row.checkpoint_type@ == checkpoint_name(cp.checkpoint_type)
    &&& row.reference@ == cp.reference@
    &&& row.files_affected matches Some(t) && t@ == outside::json_list_text(
        text::strings(cp.files_affected@),
    ) && stored_files(Some(t@)) == Ok::<Seq<Seq<char>>, Seq<char>>(
        text::strings(cp.files_affected@),
    )
}

/// What is stored of a checkpoint, except for its instant, which the store sets.
pub fn checkpoint_row(cp: &Checkpoint) -> (r: CheckpointRow)
    ensures
        stores(r, *cp),
        r.created_at@ == ""@,
{
    CheckpointRow {
        id: cp.id.clone(),
        session_id: cp.session_id.clone(),
        step_id: cp.step_id.clone(),
        checkpoint_type: checkpoint_type_label(&cp.checkpoint_type).to_string(),
        reference: cp.reference.clone(),
        files_affected: Some(outside::write_json_list(&cp.files_affected)),
        created_at: "".to_string(),
    }
}

/// `cp` is the checkpoint that the row stands for, with these files.
pub open spec fn stands_for(
    row: CheckpointRow,
    files: Seq<Seq<char>>,
    now: Timestamp,
    cp: Checkpoint,
) -> bool {
    &&& cp.id@ == row.id@
    &&& cp.session_id@ == row.session_id@
    &&& cp.step_id@ == row.step_id@
    &&& Some(cp.checkpoint_type) == named_checkpoint(row.checkpoint_type@)
    &&& cp.reference@ == row.reference@
    &&& text::strings(cp.files_affected@) == files
    &&& cp.created_at.parts() == stored_instant(row.created_at@, now)
}

impl CheckpointRow {
    /// The checkpoint that the row stands for. Where its instant cannot be read it
    /// is `now`.
    pub fn into_checkpoint(self, now: Timestamp) -> (r: Result<Checkpoint, String>)
        ensures
            r is Ok <==> named_checkpoint(self.checkpoint_type@) is Some && stored_files(
                text::opt_text(self.files_affected),
            ) is Ok,
            r matches Ok(cp) ==> stands_for(
                self,
                stored_files(text::opt_text(self.files_affected))->Ok_0,
                now,
                cp,
            ),
            r matches Err(e) ==> e@ == (if named_checkpoint(self.checkpoint_type@) is None {
                "unknown checkpoint type: "@ + self.checkpoint_type@
            } else {
                stored_files(text::opt_text(self.files_affected))->Err_0
            }),
    {
        let files = match &self.files_affected {
            Some(t) => outside::read_json_list(t.as_str()),
            None => {
                let none: Vec<String> = Vec::new();
                assert(text::strings(none@) =~= Seq::<Seq<char>>::empty());
                Ok(none)
            },
        };
        self.with_files(files, now)
    }

    /// The checkpoint that the row stands for when this came of reading its files.
    pub fn with_files(self, files: Result<Vec<String>, String>, now: Timestamp) -> (r: Result<
        Checkpoint,
        String,
    >)
        ensures
            r is Ok <==> named_checkpoint(self.checkpoint_type@) is Some && files is Ok,
            r matches Ok(cp) ==> stands_for(self, text::strings((files->Ok_0)@), now, cp),
            r matches Err(e) ==> e@ == (if named_checkpoint(self.checkpoint_type@) is None {
                "unknown checkpoint type: "@ + self.checkpoint_type@
            } else {
                (files->Err_0)@
            }),
    {
        let checkpoint_type = match checkpoint_type_of(self.checkpoint_type.as_str()) {
            Ok(t) => t,
            Err(e) => {
                return Err(e);
            },
        };
        let files_affected = match files {
            Ok(files) => files,
            Err(e) => {
                return Err(e);
            },
        };
        let created_at = Timestamp::read_or(self.created_at.as_str(), "%Y-%m-%d %H:%M:%S", now);
        Ok(
            Checkpoint {
                id: self.id,
                session_id: self.session_id,
                step_id: self.step_id,
                checkpoint_type,
                reference: self.reference,
                files_affected,
                created_at,
            },
        )
    }
}

// ── Laws ─────────────────────────────────────────────────────

/// A checkpoint type can be read back from its stored name, and no two types share
/// a name.
pub proof fn law_checkpoint_name_round_trip(t: CheckpointType)
    ensures
        named_checkpoint(checkpoint_name(t)) == Some(t),
{
    reveal_strlit("git_stash");
    reveal_strlit("git_commit");
    reveal_strlit("file_copy");
    assert("git_stash"@.len() != "git_commit"@.len());
    assert("git_commit"@.len() != "file_copy"@.len());
    assert("git_stash"@[0] != "file_copy"@[0]);
}

/// Stored names tell the outcomes of steps, verdicts, anomaly types and severities
/// apart.
pub proof fn law_names_are_distinct(
    a: StepResult,
    b: StepResult,
    v: Verdict,
    w: Verdict,
    s: AnomalyType,
    t: AnomalyType,
    x: Severity,
    y: Severity,
)
    ensures
        result_name(a) == result_name(b) ==> (a is Success == b is Success) && (a is Failure
            == b is Failure) && (a is RolledBack == b is RolledBack) && (a is Skipped
            == b is Skipped),
        verdict_name(v) == verdict_name(w) ==> (v is Pass == w is Pass) && (v is Warn == w is Warn)
            && (v is Fail == w is Fail),
        anomaly_name(s) == anomaly_name(t) ==> s == t,
        severity_name(x) == severity_name(y) ==> x == y,
{
    reveal_strlit("success");
    reveal_strlit("failure");
    reveal_strlit("rolled_back");
    reveal_strlit("skipped");
    assert("success"@[1] == 'u' && "failure"@[1] == 'a' && "rolled_back"@[1] == 'o' && "skipped"@[1]
        == 'k');
    reveal_strlit("pass");
    reveal_strlit("warn");
    reveal_strlit("fail");
    assert("pass"@[0] == 'p' && "warn"@[0] == 'w' && "fail"@[0] == 'f');
    reveal_strlit("goal_drift");
    reveal_strlit("loop_trap");
    reveal_strlit("token_spike");
    reveal_strlit("plan_deviation");
    reveal_strlit("consistency_violation");
    assert("goal_drift"@[0] == 'g' && "loop_trap"@[0] == 'l' && "token_spike"@[0] == 't'
        && "plan_deviation"@[0] == 'p' && "consistency_violation"@[0] == 'c');
    reveal_strlit("info");
    reveal_strlit("warning");
    reveal_strlit("critical");
    assert("info"@[0] == 'i' && "warning"@[0] == 'w' && "critical"@[0] == 'c');
}

/// The numbers of a step come back from the store unchanged.
pub proof fn law_step_numbers_round_trip(step_number: u32, count: u64)
    ensures
        step_number as int % 0x1_0000_0000 == step_number,
        number::signed_value(count as int) % 0x1_0000_0000_0000_0000 == count,
{
}

/// What is stored of a checkpoint can be loaded, and the checkpoint comes back with
/// its identifiers, type, reference and files.
pub proof fn law_checkpoint_round_trip(
    cp: Checkpoint,
    row: CheckpointRow,
    now: Timestamp,
    loaded: Checkpoint,
)
    requires
        stores(row, cp),
        stands_for(
            row,
            stored_files(text::opt_text(row.files_affected))->Ok_0,
            now,
            loaded,
        ),
    ensures
        named_checkpoint(row.checkpoint_type@) is Some,
        stored_files(text::opt_text(row.files_affected)) is Ok,
        loaded.id@ == cp.id@,
        loaded.session_id@ == cp.session_id@,
        loaded.step_id@ == cp.step_id@,
        loaded.checkpoint_type == cp.checkpoint_type,
        loaded.reference@ == cp.reference@,
        text::strings(loaded.files_affected@) == text::strings(cp.files_affected@),
{
    law_checkpoint_name_round_trip(cp.checkpoint_type);
}

}
