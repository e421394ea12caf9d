//! The command line: wrapped commands, what is shown, and what is recorded of them.

use vstd::prelude::*;

use crate::number;
use crate::number::Real;
use crate::number::Timestamp;
use crate::outside;
use crate::text;
use crate::types;
use crate::types::ActionType;
use crate::types::Anomaly;
use crate::types::AnomalyType;
use crate::types::ExecutionContext;
use crate::types::SessionSummary;
use crate::types::Severity;
use crate::types::StepAction;
use crate::types::StepResult;
use crate::types::StepSummary;
use crate::types::TraceEntry;
use crate::types::Verdict;
use crate::types::VerificationDecision;
use crate::types::VerificationOutcome;

verus! {

// ── Command lines ────────────────────────────────────────────

/// The character means nothing special to a shell.
pub open spec fn is_shell_safe(c: char) -> bool {
    text::is_ascii_alnum(c) || c == '_' || c == '-' || c == '.' || c == '/' || c == ':'
}

/// The value as one word for a shell.
pub open spec fn shell_word(value: Seq<char>) -> Seq<char> {
    if value.len() == 0 {
        seq!['\'', '\'']
    } else if forall|i: int| 0 <= i < value.len() ==> is_shell_safe(#[trigger] value[i]) {
        value
    } else {
        seq!['\''] + text::replaced(value, '\'', seq!['\'', '"', '\'', '"', '\'']) + seq!['\'']
    }
}

/// Whether the character means nothing special to a shell.
fn shell_safe(c: char) -> (b: bool)
    ensures
        b == is_shell_safe(c),
{
    ('a' <= c && c <= 'z') || ('A' <= c && c <= 'Z') || ('0' <= c && c <= '9') || c == '_' || c
        == '-' || c == '.' || c == '/' || c == ':'
}

/// The value as one word for a shell.
pub fn shell_escape(value: &str) -> (r: String)
    ensures
        r@ == shell_word(value@),
{
    let chars = text::chars_of(value);
    if chars.len() == 0 {
        let mut out = String::new();
        out.push('\'');
        out.push('\'');
        assert(out@ =~= seq!['\'', '\'']);
        return out;
    }
    let mut i: usize = 0;
    while i < chars.len() && shell_safe(chars[i])
        invariant
            i <= chars.len(),
            chars@ == value@,
            forall|j: int| 0 <= j < i ==> is_shell_safe(#[trigger] value@[j]),
        decreases chars.len() - i,
    {
        i += 1;
    }
    if i == chars.len() {
        return value.to_string();
    }
    assert(!is_shell_safe(value@[i as int]));
    proof {
        reveal_strlit("'\"'\"'");
        assert("'\"'\"'"@ =~= seq!['\'', '"', '\'', '"', '\'']);
    }
    let escaped = text::replace_char(value, '\'', "'\"'\"'");
    let mut out = String::new();
    out.push('\'');
    out.append(escaped.as_str());
    out.push('\'');
    assert(out@ =~= shell_word(value@));
    out
}

/// The parts without white space around them, without those that are blank.
pub open spec fn command_parts(command: Seq<Seq<char>>) -> Seq<Seq<char>> {
    command.map_values(|p: Seq<char>| text::trim(p)).filter(|p: Seq<char>| p.len() > 0)
}

/// The command line of the parts: a single part stands as it is, several are
/// escaped.
pub open spec fn command_line(parts: Seq<Seq<char>>) -> Seq<char> {
    if parts.len() == 1 {
        parts[0]
    } else {
        text::joined(parts.map_values(|p: Seq<char>| shell_word(p)), " "@)
    }
}

/// The command line to run.
pub fn normalize_command(command: &Vec<String>) -> (r: Result<String, String>)
    ensures
        r is Ok <==> command_parts(text::strings(command@)).len() > 0,
        r matches Ok(s) ==> s@ == command_line(command_parts(text::strings(command@))),
        r matches Err(e) ==> e@ == "No wrapped command provided"@,
{
    let ghost trimmed = text::strings(command@).map_values(|p: Seq<char>| text::trim(p));
    let ghost keep = |p: Seq<char>| p.len() > 0;
    let ghost escape = |p: Seq<char>| shell_word(p);
    let mut parts: Vec<String> = Vec::new();
    let mut escaped: Vec<String> = Vec::new();
    let mut i: usize = 0;
    proof {
        reveal(Seq::filter);
        assert(trimmed.take(0) =~= Seq::<Seq<char>>::empty());
        assert(text::strings(parts@) =~= Seq::<Seq<char>>::empty());
        assert(text::strings(escaped@) =~= Seq::<Seq<char>>::empty().map_values(escape));
    }
    while i < command.len()
        invariant
            i <= command.len(),
            trimmed == text::strings(command@).map_values(|p: Seq<char>| text::trim(p)),
            keep == (|p: Seq<char>| p.len() > 0),
            escape == (|p: Seq<char>| shell_word(p)),
            text::strings(parts@) == trimmed.take(i as int).filter(keep),
            text::strings(escaped@) == text::strings(parts@).map_values(escape),
        decreases command.len() - i,
    {
        let part = text::trim_spaces(command[i].as_str());
        let ghost before = parts@;
        let ghost escaped_before = escaped@;
        proof {
            assert(trimmed[i as int] == part@);
            crate::verification::patterns::lemma_filter_next(trimmed, keep, i as int);
        }
        if text::chars_of(part).len() > 0 {
            parts.push(part.to_string());
            escaped.push(shell_escape(part));
            proof {
                assert(text::strings(parts@) =~= text::strings(before) + seq![part@]);
                assert(text::strings(escaped@) =~= text::strings(escaped_before).push(
                    shell_word(part@),
                ));
                assert(text::strings(parts@).map_values(escape) =~= text::strings(
                    before,
                ).map_values(escape).push(shell_word(part@)));
            }
        } else {
            assert(text::strings(parts@) =~= text::strings(parts@) + Seq::<Seq<char>>::empty());
        }
        i += 1;
    }
    assert(trimmed.take(i as int) =~= trimmed);
    assert(parts@.len() == text::strings(parts@).len());
    if parts.len() == 0 {
        return Err("No wrapped command provided".to_string());
    }
    if parts.len() == 1 {
        assert(text::strings(parts@)[0] == parts@[0]@);
        return Ok(parts[0].clone());
    }
    Ok(text::join(&escaped, " "))
}

/// The first word of a command line.
pub fn first_token(command: &str) -> (r: Option<String>)
    ensures
        r is Some <==> text::words(command@).len() > 0,
        r matches Some(s) ==> s@ == text::words(command@)[0],
{
    let words = text::split_words(command);
    assert(words@.len() == text::texts(words@).len());
    if words.len() > 0 {
        assert(text::texts(words@)[0] == words@[0]@);
        Some(words[0].to_string())
    } else {
        None
    }
}

/// The exit code in words.
pub open spec fn exit_words(code: Option<i32>) -> Seq<char> {
    match code {
        Some(c) => text::signed_decimal(c as int),
        None => "terminated by signal"@,
    }
}

/// The exit code in words.
pub fn render_exit_status(code: Option<i32>) -> (r: String)
    ensures
        r@ == exit_words(code),
{
    match code {
        Some(c) => text::to_signed_decimal(c),
        None => "terminated by signal".to_string(),
    }
}

/// The arguments of an action as compact JSON text, when this is what the given
/// text is in compact form.
pub fn checked_args(compact: Option<String>) -> (r: Result<String, String>)
    ensures
        r is Ok <==> compact is Some,
        r matches Ok(s) ==> compact == Some(s),
        r matches Err(e) ==> e@ == "Expected --args-json to be valid JSON"@,
{
    match compact {
        Some(s) => Ok(s),
        None => Err("Expected --args-json to be valid JSON".to_string()),
    }
}

/// The arguments of an action as compact JSON text.
pub fn parse_args_json(input: &str) -> (r: Result<String, String>)
    ensures
        r is Ok <==> outside::json_compact_text(input@) is Some,
        r matches Ok(s) ==> outside::json_compact_text(input@) == Some(s@),
        r matches Err(e) ==> e@ == "Expected --args-json to be valid JSON"@,
{
    checked_args(outside::json_compact(input))
}

// ── Output ───────────────────────────────────────────────────

/// The text behind a prefix.
pub open spec fn prefixed(prefix: Seq<char>, list: Seq<Seq<char>>) -> Seq<Seq<char>> {
    list.map_values(|s: Seq<char>| prefix + s)
}

/// What is shown of a verdict, line by line.
pub open spec fn verdict_lines(v: Verdict) -> Seq<Seq<char>> {
    match v {
        Verdict::Pass => seq!["Verification: pass"@],
        Verdict::Warn { reasons } => seq!["Verification: warn"@] + prefixed("- "@, reasons),
        Verdict::Fail { reasons, suggestions } => seq!["Verification: fail"@] + prefixed(
            "- "@,
            reasons,
        ) + prefixed("  suggestion: "@, suggestions),
    }
}

/// Appends the texts behind a prefix.
fn push_prefixed(lines: &mut Vec<String>, prefix: &str, list: &Vec<String>)
    ensures
        text::strings(final(lines)@) == text::strings(old(lines)@) + prefixed(
            prefix@,
            text::strings(list@),
        ),
{
    let ghost before = text::strings(lines@);
    let ghost all = prefixed(prefix@, text::strings(list@));
    let mut i: usize = 0;
    assert(before + all.take(0) =~= before);
    while i < list.len()
        invariant
            i <= list.len(),
            all == prefixed(prefix@, text::strings(list@)),
            text::strings(lines@) == before + all.take(i as int),
        decreases list.len() - i,
    {
        let mut line = prefix.to_string();
        line.append(list[i].as_str());
        let ghost old_lines = lines@;
        lines.push(line);
        proof {
            assert(all[i as int] == line@);
            assert(text::strings(lines@) =~= text::strings(old_lines).push(line@));
            assert(before + all.take(i + 1) =~= (before + all.take(i as int)).push(line@));
        }
        i += 1;
    }
    assert(all.take(i as int) =~= all);
}

/// One line as a list.
fn line_list(line: &str) -> (r: Vec<String>)
    ensures
        text::strings(r@) == seq![line@],
{
    let r = text::owned(vec![line]);
    assert(text::strings(r@) =~= seq![line@]);
    r
}

/// What is shown of the outcome of a verification, line by line.
pub fn verification_lines(outcome: &VerificationOutcome) -> (r: Vec<String>)
    ensures
        text::strings(r@) == verdict_lines(outcome.decision@),
{
    match &outcome.decision {
        VerificationDecision::Pass => line_list("Verification: pass"),
        VerificationDecision::Warn { reasons } => {
            let mut lines = line_list("Verification: warn");
            push_prefixed(&mut lines, "- ", reasons);
            lines
        },
        VerificationDecision::Fail { reasons, suggestions } => {
            let mut lines = line_list("Verification: fail");
            push_prefixed(&mut lines, "- ", reasons);
            push_prefixed(&mut lines, "  suggestion: ", suggestions);
            lines
        },
    }
}

/// The name under which an anomaly type is shown.
pub open spec fn shown_anomaly(t: AnomalyType) -> Seq<char> {
    match t {
        AnomalyType::GoalDrift => "GoalDrift"@,
        AnomalyType::LoopTrap => "LoopTrap"@,
        AnomalyType::TokenSpike => "TokenSpike"@,
        AnomalyType::PlanDeviation => "PlanDeviation"@,
        AnomalyType::ConsistencyViolation => "ConsistencyViolation"@,
    }
}

/// The name under which a severity is shown.
pub open spec fn shown_severity(s: Severity) -> Seq<char> {
    match s {
        Severity::Info => "Info"@,
        Severity::Warning => "Warning"@,
        Severity::Critical => "Critical"@,
    }
}

/// The line that shows an anomaly.
pub open spec fn anomaly_words(a: Anomaly) -> Seq<char> {
    "- "@ + shown_anomaly(a.anomaly_type) + " ("@ + shown_severity(a.severity) + "): "@ + a.detail@
}

/// What is shown of anomalies, line by line: nothing where there are none.
pub open spec fn anomalies_shown(list: Seq<Anomaly>) -> Seq<Seq<char>> {
    if list.len() == 0 {
        Seq::empty()
    } else {
        seq!["Anomalies:"@] + list.map_values(|a: Anomaly| anomaly_words(a))
    }
}

fn anomaly_line(a: &Anomaly) -> (r: String)
    ensures
        r@ == anomaly_words(*a),
{
    let kind = match a.anomaly_type {
        AnomalyType::GoalDrift => "GoalDrift",
        AnomalyType::LoopTrap => "LoopTrap",
        AnomalyType::TokenSpike => "TokenSpike",
        AnomalyType::PlanDeviation => "PlanDeviation",
        AnomalyType::ConsistencyViolation => "ConsistencyViolation",
    };
    let severity = match a.severity {
        Severity::Info => "Info",
        Severity::Warning => "Warning",
        Severity::Critical => "Critical",
    };
    let mut line = "- ".to_string();
    line.append(kind);
    line.append(" (");
    line.append(severity);
    line.append("): ");
    line.append(a.detail.as_str());
    line
}

/// What is shown of anomalies, line by line.
pub fn anomaly_lines(anomalies: &[Anomaly]) -> (r: Vec<String>)
    ensures
        text::strings(r@) == anomalies_shown(anomalies@),
{
    if anomalies.len() == 0 {
        let none: Vec<String> = Vec::new();
        assert(text::strings(none@) =~= Seq::<Seq<char>>::empty());
        return none;
    }
    let ghost all = anomalies@.map_values(|a: Anomaly| anomaly_words(a));
    let mut lines = line_list("Anomalies:");
    let ghost head = text::strings(lines@);
    let mut i: usize = 0;
    assert(head + all.take(0) =~= head);
    while i < anomalies.len()
        invariant
            i <= anomalies.len(),
            all == anomalies@.map_values(|a: Anomaly| anomaly_words(a)),
            text::strings(lines@) == head + all.take(i as int),
        decreases anomalies.len() - i,
    {
        let line = anomaly_line(&anomalies[i]);
        let ghost old_lines = lines@;
        lines.push(line);
        proof {
            assert(all[i as int] == line@);
            assert(text::strings(lines@) =~= text::strings(old_lines).push(line@));
            assert(head + all.take(i + 1) =~= (head + all.take(i as int)).push(line@));
        }
        i += 1;
    }
    assert(all.take(i as int) =~= all);
    lines
}

/// What is shown of a session, line by line. `cost` is its cost with four decimals.
pub open spec fn summary_shown(s: SessionSummary, cost: Seq<char>) -> Seq<Seq<char>> {
    seq![
        "Session: "@ + s.session_id@,
        "Steps: "@ + text::decimal(s.total_steps as nat),
        "Successful: "@ + text::decimal(s.successful_steps as nat),
        "Failed: "@ + text::decimal(s.failed_steps as nat),
        "Rollbacks: "@ + text::decimal(s.rollbacks as nat),
        "Verifier interceptions: "@ + text::decimal(s.verifier_interceptions as nat),
        "Anomalies: "@ + text::decimal(s.anomalies_detected as nat),
        "Tokens: "@ + text::decimal(s.total_tokens as nat),
        "Cost (USD): "@ + cost,
        "Duration (ms): "@ + text::decimal(s.total_duration_ms as nat),
    ]
}

fn label_text(label: &str, value: &str) -> (r: String)
    ensures
        r@ == label@ + value@,
{
    let mut s = label.to_string();
    s.append(value);
    s
}

fn label_count(label: &str, n: u64) -> (r: String)
    ensures
        r@ == label@ + text::decimal(n as nat),
{
    label_text(label, text::to_decimal(n).as_str())
}

/// What is shown of a session, line by line. `cost` is its cost with four decimals.
pub fn summary_lines(s: &SessionSummary, cost: &str) -> (r: Vec<String>)
    ensures
        text::strings(r@) == summary_shown(*s, cost@),
{
    let r = vec![
        label_text("Session: ", s.session_id.as_str()),
        label_count("Steps: ", s.total_steps as u64),
        label_count("Successful: ", s.successful_steps as u64),
        label_count("Failed: ", s.failed_steps as u64),
        label_count("Rollbacks: ", s.rollbacks as u64),
        label_count("Verifier interceptions: ", s.verifier_interceptions as u64),
        label_count("Anomalies: ", s.anomalies_detected as u64),
        label_count("Tokens: ", s.total_tokens),
        label_text("Cost (USD): ", cost),
        label_count("Duration (ms): ", s.total_duration_ms),
    ];
    assert(text::strings(r@) =~= summary_shown(*s, cost@));
    r
}

// ── Verifying ────────────────────────────────────────────────

/// The number of a step to verify: the given one, or one more than there are
/// previous steps. Counts are taken modulo 2³².
pub fn step_number_or_next(step_number: Option<u32>, previous_steps: &Vec<StepSummary>) -> (r: u32)
    ensures
        r == match step_number {
            Some(n) => n as int,
            None => (previous_steps@.len() as int + 1) % 0x1_0000_0000,
        },
{
    match step_number {
        Some(n) => n,
        None => number::low_u32_of(previous_steps.len()).wrapping_add(1),
    }
}

// ── Wrapping ─────────────────────────────────────────────────

/// The name of the agent: the given one, or the first word of the command.
pub fn wrapped_agent(agent_name: Option<String>, command_line: &str) -> (r: Option<String>)
    ensures
        agent_name is Some ==> r == agent_name,
        agent_name is None ==> (r is Some <==> text::words(command_line@).len() > 0),
        agent_name is None ==> (r matches Some(s) ==> s@ == text::words(command_line@)[0]),
{
    match agent_name {
        Some(name) => Some(name),
        None => first_token(command_line),
    }
}

/// The arguments that stand for a wrapped command.
pub open spec fn wrap_arguments(command_line: Seq<char>, config_path: Seq<char>) -> Seq<char> {
    outside::json_object_text(
        seq!["command"@, "shell"@, "config_path"@],
        seq![command_line, "sh -lc"@, config_path],
    )
}

/// The action that stands for a wrapped command.
pub fn wrap_action(command_line: &str, config_path: &str, target_files: Vec<String>) -> (r: StepAction)
    ensures
        r.action_type@ is Execute,
        text::opt_text(r.tool_name) == Some("wrap"@),
        r.arguments@ == wrap_arguments(command_line@, config_path@),
        r.target_files == target_files,
        r.description@ == "Execute wrapped command: "@ + command_line@,
{
    let names = text::owned(vec!["command", "shell", "config_path"]);
    let values = text::owned(vec![command_line, "sh -lc", config_path]);
    proof {
        assert(text::strings(names@) =~= seq!["command"@, "shell"@, "config_path"@]);
        assert(text::strings(values@) =~= seq![command_line@, "sh -lc"@, config_path@]);
        assert(names@.len() == text::strings(names@).len());
        assert(values@.len() == text::strings(values@).len());
    }
    let arguments = outside::json_object(&names, &values);
    StepAction {
        action_type: ActionType::Execute,
        tool_name: Some("wrap".to_string()),
        arguments,
        target_files,
        description: label_text("Execute wrapped command: ", command_line),
    }
}

/// The context of a wrapped command: the first and only step of a session.
pub fn wrap_context(
    session_id: &str,
    working_dir: &str,
    agent_name: &Option<String>,
    plan: Option<String>,
) -> (r: ExecutionContext)
    ensures
        r.session_id@ == session_id@,
        r.step_number == 1,
        r.working_dir@ == working_dir@,
        r.agent_name == *agent_name,
        r.plan == plan,
        r.previous_steps@.len() == 0,
{
    ExecutionContext {
        session_id: session_id.to_string(),
        step_number: 1,
        working_dir: working_dir.to_string(),
        agent_name: types::copy_opt(agent_name),
        plan,
        previous_steps: Vec::new(),
    }
}

/// How a wrapped command ended.
#[derive(Debug)]
pub enum RunOutcome {
    /// It ran and ended with this code, or by a signal.
    Exited(Option<i32>),
    /// It could not be started.
    NotStarted(String),
}

/// `r` is the result of a command that ended so.
pub open spec fn is_run_result(outcome: RunOutcome, r: StepResult) -> bool {
    match outcome {
        RunOutcome::Exited(code) => if code == Some(0i32) {
            r is Success
        } else {
            r matches StepResult::Failure { error } && error@ == "Command exited with status "@
                + exit_words(code)
        },
        RunOutcome::NotStarted(err) => {
            r matches StepResult::Failure { error } && error@
                == "Failed to spawn wrapped command: "@ + err@
        },
    }
}

/// What to do with a wrapped command, once it is recorded.
#[derive(Debug)]
pub struct WrapEnd {
    /// What is recorded of the command.
    pub entry: TraceEntry,
    /// What becomes of the session.
    pub session_status: &'static str,
    /// The exit code, or what is said where the command did not start.
    pub exit: Result<i32, String>,
}

/// What comes after the verification of a wrapped command.
#[derive(Debug)]
pub enum WrapStep {
    /// The command is blocked.
    Blocked(WrapEnd),
    /// The command runs.
    Run(StepAction, VerificationOutcome),
}

/// `entry` records the action with its verification as the only step of the session.
pub open spec fn wrap_entry(
    session_id: Seq<char>,
    action: StepAction,
    verification: VerificationOutcome,
    reason: Seq<char>,
    duration_ms: u64,
    now: Timestamp,
    entry: TraceEntry,
) -> bool {
    &&& types::is_random_uuid(entry.step_id@)
    &&& entry.session_id@ == session_id
    &&& entry.step_number == 1
    &&& entry.action == action
    &&& text::opt_text(entry.reason) == Some(reason)
    &&& entry.verification == verification
    &&& entry.checkpoint_id is None
    &&& entry.tokens_used == 0
    &&& entry.cost_usd == (Real { bits: 0 })
    &&& entry.duration_ms == duration_ms
    &&& entry.timestamp == now
}

fn make_entry(
    session_id: &str,
    action: StepAction,
    verification: VerificationOutcome,
    reason: &str,
    result: StepResult,
    duration_ms: u64,
    now: Timestamp,
) -> (r: TraceEntry)
    ensures
        wrap_entry(session_id@, action, verification, reason@, duration_ms, now, r),
        r.result == result,
{
    TraceEntry {
        step_id: types::new_id(),
        session_id: session_id.to_string(),
        step_number: 1,
        action,
        reason: Some(reason.to_string()),
        verification,
        checkpoint_id: None,
        result,
        tokens_used: 0,
        cost_usd: Real { bits: 0 },
        duration_ms,
        timestamp: now,
    }
}

/// What comes after the verification of a wrapped command: it is blocked exactly
/// where verification failed.
pub fn after_verification(
    session_id: &str,
    action: StepAction,
    verification: VerificationOutcome,
    now: Timestamp,
) -> (r: WrapStep)
    ensures
        match r {
            WrapStep::Blocked(end) => {
                &&& verification.decision@ is Fail
                &&& wrap_entry(
                    session_id@,
                    action,
                    verification,
                    "Verification blocked wrapped command"@,
                    0,
                    now,
                    end.entry,
                )
                &&& end.entry.result matches StepResult::Skipped { reason }
                &&& reason@ == "Blocked before execution"@
                &&& end.session_status@ == "blocked"@
                &&& end.exit == Ok::<i32, String>(2)
            },
            WrapStep::Run(a, v) => {
                &&& !(verification.decision@ is Fail)
                &&& a == action
                &&& v == verification
            },
        },
{
    if !verification.decision.is_fail() {
        return WrapStep::Run(action, verification);
    }
    let entry = make_entry(
        session_id,
        action,
        verification,
        "Verification blocked wrapped command",
        StepResult::Skipped { reason: "Blocked before execution".to_string() },
        0,
        now,
    );
    WrapStep::Blocked(WrapEnd { entry, session_status: "blocked", exit: Ok(2) })
}

/// What comes after a wrapped command ran, or could not be started.
pub fn after_run(
    session_id: &str,
    action: StepAction,
    verification: VerificationOutcome,
    outcome: RunOutcome,
    duration_ms: u64,
    now: Timestamp,
) -> (r: WrapEnd)
    ensures
        wrap_entry(
            session_id@,
            action,
            verification,
            "Executed via carapace wrap"@,
            duration_ms,
            now,
            r.entry,
        ),
        is_run_result(outcome, r.entry.result),
        r.session_status@ == (if outcome == RunOutcome::Exited(Some(0i32)) {
            "completed"@
        } else {
            "failed"@
        }),
        match outcome {
            RunOutcome::Exited(Some(code)) => r.exit == Ok::<i32, String>(code),
            RunOutcome::Exited(None) => r.exit == Ok::<i32, String>(1),
            RunOutcome::NotStarted(_) => {
                r.exit matches Err(e) && e@ == "Wrapped command failed to start"@
            },
        },
{
    match outcome {
        RunOutcome::Exited(code) => {
            let success = match code {
                Some(c) => c == 0,
                None => false,
            };
            let result = if success {
                StepResult::Success
            } else {
                StepResult::Failure {
                    error: label_text(
                        "Command exited with status ",
                        render_exit_status(code).as_str(),
                    ),
                }
            };
            let exit_code: i32 = match code {
                Some(c) => c,
                None => 1,
            };
            WrapEnd {
                entry: make_entry(
                    session_id,
                    action,
                    verification,
                    "Executed via carapace wrap",
                    result,
                    duration_ms,
                    now,
                ),
                session_status: if success {
                    "completed"
                } else {
                    "failed"
                },
                exit: Ok(exit_code),
            }
        },
        RunOutcome::NotStarted(err) => {
            let result = StepResult::Failure {
                error: label_text("Failed to spawn wrapped command: ", err.as_str()),
            };
            WrapEnd {
                entry: make_entry(
                    session_id,
                    action,
                    verification,
                    "Executed via carapace wrap",
                    result,
                    duration_ms,
                    now,
                ),
                session_status: "failed",
                exit: Err("Wrapped command failed to start".to_string()),
            }
        },
    }
}

// ── Laws ─────────────────────────────────────────────────────

/// How a shell reads the next character.
pub enum Quoting {
    Bare,
    Single,
    Double,
}

/// The words into which a shell divides a line at spaces, or nothing where the line
/// asks for more than that. Quotes of either kind are dropped; nothing is special
/// between single quotes, and nothing but `$`, a backquote and a backslash between
/// double ones.
pub open spec fn shell_line(s: Seq<char>, q: Quoting) -> Option<Seq<Seq<char>>>
    decreases s.len(),
{
    if s.len() == 0 {
        if q is Bare {
            Some(seq![Seq::empty()])
        } else {
            None
        }
    } else {
        let c = s[0];
        let rest = s.skip(1);
        match q {
            Quoting::Bare => if c == ' ' {
                match shell_line(rest, Quoting::Bare) {
                    Some(words) => Some(seq![Seq::empty()] + words),
                    None => None,
                }
            } else if c == '\'' {
                shell_line(rest, Quoting::Single)
            } else if c == '"' {
                shell_line(rest, Quoting::Double)
            } else if is_shell_safe(c) {
                onto_first(seq![c], shell_line(rest, Quoting::Bare))
            } else {
                None
            },
            Quoting::Single => if c == '\'' {
                shell_line(rest, Quoting::Bare)
            } else {
                onto_first(seq![c], shell_line(rest, Quoting::Single))
            },
            Quoting::Double => if c == '"' {
                shell_line(rest, Quoting::Bare)
            } else if c == '$' || c == '`' || c == '\\' {
                None
            } else {
                onto_first(seq![c], shell_line(rest, Quoting::Double))
            },
        }
    }
}

/// The words, with more text before the first one.
pub open spec fn onto_first(front: Seq<char>, words: Option<Seq<Seq<char>>>) -> Option<
    Seq<Seq<char>>,
> {
    match words {
        Some(w) => Some(w.update(0, front + w[0])),
        None => None,
    }
}

proof fn lemma_line_has_words(s: Seq<char>, q: Quoting)
    ensures
        shell_line(s, q) matches Some(w) ==> w.len() > 0,
    decreases s.len(),
{
    if s.len() > 0 {
        lemma_line_has_words(s.skip(1), Quoting::Bare);
        lemma_line_has_words(s.skip(1), Quoting::Single);
        lemma_line_has_words(s.skip(1), Quoting::Double);
    }
}

/// Text before text before the first word is text before the first word.
proof fn lemma_onto_twice(a: Seq<char>, b: Seq<char>, words: Option<Seq<Seq<char>>>)
    requires
        words matches Some(w) ==> w.len() > 0,
    ensures
        onto_first(a, onto_first(b, words)) == onto_first(a + b, words),
{
    match words {
        Some(w) => {
            assert(a + (b + w[0]) =~= (a + b) + w[0]);
            assert(w.update(0, b + w[0]).update(0, a + (b + w[0])) =~= w.update(
                0,
                (a + b) + w[0],
            ));
        },
        None => {},
    }
}

proof fn lemma_onto_nothing(words: Option<Seq<Seq<char>>>)
    requires
        words matches Some(w) ==> w.len() > 0,
    ensures
        onto_first(Seq::empty(), words) == words,
{
    match words {
        Some(w) => {
            assert(Seq::<char>::empty() + w[0] =~= w[0]);
            assert(w.update(0, w[0]) =~= w);
        },
        None => {},
    }
}

proof fn lemma_replaced_front(s: Seq<char>, c: char, by: Seq<char>)
    requires
        s.len() > 0,
    ensures
        text::replaced(s, c, by) == (if s[0] == c {
            by
        } else {
            seq![s[0]]
        }) + text::replaced(s.skip(1), c, by),
    decreases s.len(),
{
    let head = if s[0] == c {
        by
    } else {
        seq![s[0]]
    };
    if s.len() == 1 {
        assert(s.drop_last() =~= Seq::<char>::empty());
        assert(s.skip(1) =~= Seq::<char>::empty());
        let none = text::replaced(Seq::<char>::empty(), c, by);
        assert(none =~= Seq::<char>::empty());
        assert(s.last() == s[0]);
        assert(text::replaced(s, c, by) == none + head);
        assert(none + head =~= head);
        assert(head + none =~= head);
    } else {
        lemma_replaced_front(s.drop_last(), c, by);
        assert(s.drop_last().skip(1) =~= s.skip(1).drop_last());
        assert(s.skip(1).last() == s.last());
        assert(text::replaced(s, c, by) =~= head + text::replaced(s.skip(1), c, by));
    }
}

proof fn lemma_single_quoted(value: Seq<char>, tail: Seq<char>)
    ensures
        shell_line(
            text::replaced(value, '\'', seq!['\'', '"', '\'', '"', '\'']) + seq!['\''] + tail,
            Quoting::Single,
        ) == onto_first(value, shell_line(tail, Quoting::Bare)),
    decreases value.len(),
{
    let by = seq!['\'', '"', '\'', '"', '\''];
    let line = text::replaced(value, '\'', by) + seq!['\''] + tail;
    let words = shell_line(tail, Quoting::Bare);
    lemma_line_has_words(tail, Quoting::Bare);
    if value.len() == 0 {
        assert(line =~= seq!['\''] + tail);
        assert(line.skip(1) =~= tail);
        assert(value =~= Seq::<char>::empty());
        lemma_onto_nothing(words);
    } else {
        let short = value.skip(1);
        let rest = text::replaced(short, '\'', by) + seq!['\''] + tail;
        lemma_single_quoted(short, tail);
        lemma_replaced_front(value, '\'', by);
        lemma_onto_twice(seq![value[0]], short, words);
        assert(seq![value[0]] + short =~= value);
        if value[0] == '\'' {
            assert(line =~= by + rest);
            let a = line.skip(1);
            let b = a.skip(1);
            let c = b.skip(1);
            let d = c.skip(1);
            assert(line[0] == '\'' && a[0] == '"' && b[0] == '\'' && c[0] == '"' && d[0] == '\'');
            assert(d.skip(1) =~= rest);
            assert(shell_line(d, Quoting::Bare) == onto_first(short, words));
            assert(shell_line(c, Quoting::Double) == onto_first(short, words));
            assert(shell_line(b, Quoting::Double) == onto_first(value, words));
            assert(shell_line(a, Quoting::Bare) == onto_first(value, words));
        } else {
            assert(line =~= seq![value[0]] + rest);
            assert(line.skip(1) =~= rest);
        }
    }
}

proof fn lemma_safe_word(value: Seq<char>, tail: Seq<char>)
    requires
        forall|i: int| 0 <= i < value.len() ==> is_shell_safe(#[trigger] value[i]),
    ensures
        shell_line(value + tail, Quoting::Bare) == onto_first(
            value,
            shell_line(tail, Quoting::Bare),
        ),
    decreases value.len(),
{
    let words = shell_line(tail, Quoting::Bare);
    lemma_line_has_words(tail, Quoting::Bare);
    if value.len() == 0 {
        assert(value =~= Seq::<char>::empty());
        assert(value + tail =~= tail);
        lemma_onto_nothing(words);
    } else {
        let short = value.skip(1);
        assert(is_shell_safe(value[0]));
        assert forall|i: int| 0 <= i < short.len() implies is_shell_safe(#[trigger] short[i]) by {
            assert(short[i] == value[i + 1]);
        }
        lemma_safe_word(short, tail);
        lemma_onto_twice(seq![value[0]], short, words);
        assert((value + tail).skip(1) =~= short + tail);
        assert(seq![value[0]] + short =~= value);
    }
}

/// A shell reads an escaped value before anything else.
proof fn lemma_word_first(value: Seq<char>, tail: Seq<char>)
    ensures
        shell_line(shell_word(value) + tail, Quoting::Bare) == onto_first(
            value,
            shell_line(tail, Quoting::Bare),
        ),
{
    let by = seq!['\'', '"', '\'', '"', '\''];
    let line = shell_word(value) + tail;
    let words = shell_line(tail, Quoting::Bare);
    lemma_line_has_words(tail, Quoting::Bare);
    if value.len() == 0 {
        assert(line.skip(1).skip(1) =~= tail);
        assert(line[0] == '\'' && line.skip(1)[0] == '\'');
        assert(shell_line(line.skip(1), Quoting::Single) == words);
        assert(value =~= Seq::<char>::empty());
        lemma_onto_nothing(words);
    } else if forall|i: int| 0 <= i < value.len() ==> is_shell_safe(#[trigger] value[i]) {
        lemma_safe_word(value, tail);
    } else {
        lemma_single_quoted(value, tail);
        assert(line.skip(1) =~= text::replaced(value, '\'', by) + seq!['\''] + tail);
        assert(line[0] == '\'');
    }
}

/// Whatever the value is, a shell reads the escaped value as one word, and the word
/// is the value.
pub proof fn law_shell_reads_the_value(value: Seq<char>)
    ensures
        shell_line(shell_word(value), Quoting::Bare) == Some(seq![value]),
{
    let nothing = Seq::<char>::empty();
    lemma_word_first(value, nothing);
    assert(shell_word(value) + nothing =~= shell_word(value));
    assert(seq![nothing].update(0, value + nothing) =~= seq![value]);
}

proof fn lemma_joined_front(parts: Seq<Seq<char>>, sep: Seq<char>)
    requires
        parts.len() >= 2,
    ensures
        text::joined(parts, sep) == parts[0] + sep + text::joined(parts.skip(1), sep),
    decreases parts.len(),
{
    let shorter = parts.drop_last();
    if parts.len() == 2 {
        assert(shorter.len() == 1 && shorter[0] == parts[0]);
        assert(parts.skip(1).len() == 1 && parts.skip(1)[0] == parts.last());
        assert(text::joined(shorter, sep) == parts[0]);
        assert(text::joined(parts.skip(1), sep) == parts.last());
    } else {
        lemma_joined_front(shorter, sep);
        assert(shorter.skip(1) =~= parts.skip(1).drop_last());
        assert(parts.skip(1).last() == parts.last());
        assert(text::joined(parts, sep) =~= parts[0] + sep + text::joined(parts.skip(1), sep));
    }
}

/// The line of several escaped values is read by a shell as exactly those values.
pub proof fn law_shell_reads_the_command(parts: Seq<Seq<char>>)
    requires
        parts.len() > 0,
    ensures
        shell_line(
            text::joined(parts.map_values(|p: Seq<char>| shell_word(p)), " "@),
            Quoting::Bare,
        ) == Some(parts),
    decreases parts.len(),
{
    let escape = |p: Seq<char>| shell_word(p);
    let words = parts.map_values(escape);
    if parts.len() == 1 {
        law_shell_reads_the_value(parts[0]);
        assert(seq![parts[0]] =~= parts);
    } else {
        let rest = parts.skip(1);
        law_shell_reads_the_command(rest);
        lemma_joined_front(words, " "@);
        assert(words.skip(1) =~= rest.map_values(escape));
        reveal_strlit(" ");
        let tail = " "@ + text::joined(rest.map_values(escape), " "@);
        assert(tail[0] == ' ');
        assert(tail.skip(1) =~= text::joined(rest.map_values(escape), " "@));
        lemma_word_first(parts[0], tail);
        assert(text::joined(words, " "@) =~= shell_word(parts[0]) + tail);
        let nothing = Seq::<char>::empty();
        assert(shell_line(tail, Quoting::Bare) == Some(seq![nothing] + rest));
        assert((seq![nothing] + rest).update(0, parts[0] + nothing) =~= parts);
    }
}

}
