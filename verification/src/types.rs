//! Shared data: actions, checks, results, trace entries, checkpoints, anomalies.

use vstd::prelude::*;

use crate::number::Real;
use crate::number::Timestamp;
use crate::text;

verus! {

// ── Identifiers ──────────────────────────────────────────────

pub type SessionId = String;

pub type StepId = String;

pub type CheckpointId = String;

/// A lower-case hexadecimal digit.
pub open spec fn is_hex_digit(c: char) -> bool {
    ('0' <= c <= '9') || ('a' <= c <= 'f')
}

/// The text of a random (version 4) UUID: hyphenated groups of hexadecimal digits.
pub open spec fn is_random_uuid(s: Seq<char>) -> bool {
    &&& s.len() == 36
    &&& forall|i: int|
        0 <= i < 36 ==> if i == 8 || i == 13 || i == 18 || i == 23 {
            #[trigger] s[i] == '-'
        } else {
            is_hex_digit(s[i])
        }
    &&& s[14] == '4'
    &&& s[19] == '8' || s[19] == '9' || s[19] == 'a' || s[19] == 'b'
}

/// A new identifier: `Uuid::new_v4` draws a random UUID of version 4 and the
/// variant of RFC 4122, and `to_string` writes it in lower case with hyphens. Which
/// one it is depends on chance.
#[verifier::external_body]
pub fn new_id() -> (r: String)
    ensures
        is_random_uuid(r@),
{
    uuid::Uuid::new_v4().to_string()
}

// ── Step action ──────────────────────────────────────────────

/// What kind of thing a step does.
#[derive(Debug)]
pub enum ActionType {
    Read,
    Write,
    Delete,
    Execute,
    ApiCall,
    Search,
    Other(String),
}

/// An action type with its name as plain text.
pub enum ActionKind {
    Read,
    Write,
    Delete,
    Execute,
    ApiCall,
    Search,
    Other(Seq<char>),
}

impl ActionKind {
    /// The name under which the action type is configured, stored and shown.
    pub open spec fn name(self) -> Seq<char> {
        match self {
            ActionKind::Read => "read"@,
            ActionKind::Write => "write"@,
            ActionKind::Delete => "delete"@,
            ActionKind::Execute => "execute"@,
            ActionKind::ApiCall => "api_call"@,
            ActionKind::Search => "search"@,
            ActionKind::Other(value) => value,
        }
    }

    /// How dangerous the action type is in general.
    pub open spec fn risk(self) -> RiskLevel {
        match self {
            ActionKind::Read | ActionKind::Search => RiskLevel::Low,
            ActionKind::Write | ActionKind::ApiCall | ActionKind::Other(_) => RiskLevel::Medium,
            ActionKind::Execute => RiskLevel::High,
            ActionKind::Delete => RiskLevel::Critical,
        }
    }
}

impl View for ActionType {
    type V = ActionKind;

    open spec fn view(&self) -> ActionKind {
        match self {
            ActionType::Read => ActionKind::Read,
            ActionType::Write => ActionKind::Write,
            ActionType::Delete => ActionKind::Delete,
            ActionType::Execute => ActionKind::Execute,
            ActionType::ApiCall => ActionKind::ApiCall,
            ActionType::Search => ActionKind::Search,
            ActionType::Other(value) => ActionKind::Other(value@),
        }
    }
}

/// What the text `value` names: surrounding white space and the case of ASCII
/// letters do not matter for the known names, any other text stands for itself, and
/// blank text names nothing.
pub open spec fn named_action(value: Seq<char>) -> Option<ActionKind> {
    let trimmed = text::trim(value);
    let normalized = text::ascii_lower(trimmed);
    if normalized == "read"@ {
        Some(ActionKind::Read)
    } else if normalized == "write"@ {
        Some(ActionKind::Write)
    } else if normalized == "delete"@ {
        Some(ActionKind::Delete)
    } else if normalized == "execute"@ {
        Some(ActionKind::Execute)
    } else if normalized == "api_call"@ {
        Some(ActionKind::ApiCall)
    } else if normalized == "search"@ {
        Some(ActionKind::Search)
    } else if trimmed.len() > 0 {
        Some(ActionKind::Other(trimmed))
    } else {
        None
    }
}

impl ActionType {
    /// The name of the action type.
    pub fn as_str(&self) -> (r: &str)
        ensures
            r@ == self@.name(),
    {
        match self {
            ActionType::Read => "read",
            ActionType::Write => "write",
            ActionType::Delete => "delete",
            ActionType::Execute => "execute",
            ActionType::ApiCall => "api_call",
            ActionType::Search => "search",
            ActionType::Other(value) => value.as_str(),
        }
    }

    /// How dangerous the action type is in general.
    pub fn risk_level(&self) -> (r: RiskLevel)
        ensures
            r == self@.risk(),
    {
        match self {
            ActionType::Read | ActionType::Search => RiskLevel::Low,
            ActionType::Write | ActionType::ApiCall => RiskLevel::Medium,
            ActionType::Execute => RiskLevel::High,
            ActionType::Delete => RiskLevel::Critical,
            ActionType::Other(_) => RiskLevel::Medium,
        }
    }

    /// The action type that `value` names.
    pub fn parse(value: &str) -> (r: Result<ActionType, String>)
        ensures
            r is Ok <==> named_action(value@) is Some,
            r matches Ok(t) ==> Some(t@) == named_action(value@),
            r matches Err(e) ==> e@ == "action type must not be empty"@,
    {
        let trimmed = text::trim_spaces(value);
        let normalized = text::to_ascii_lower(trimmed);
        if text::str_eq(normalized.as_str(), "read") {
            Ok(ActionType::Read)
        } else if text::str_eq(normalized.as_str(), "write") {
            Ok(ActionType::Write)
        } else if text::str_eq(normalized.as_str(), "delete") {
            Ok(ActionType::Delete)
        } else if text::str_eq(normalized.as_str(), "execute") {
            Ok(ActionType::Execute)
        } else if text::str_eq(normalized.as_str(), "api_call") {
            Ok(ActionType::ApiCall)
        } else if text::str_eq(normalized.as_str(), "search") {
            Ok(ActionType::Search)
        } else if !trimmed.is_empty() {
            Ok(ActionType::Other(trimmed.to_string()))
        } else {
            Err("action type must not be empty".to_string())
        }
    }
}

impl std::str::FromStr for ActionType {
    type Err = String;

    /// The action type that `value` names.
    fn from_str(value: &str) -> (r: Result<ActionType, String>)
        ensures
            r is Ok <==> named_action(value@) is Some,
            r matches Ok(t) ==> Some(t@) == named_action(value@),
            r matches Err(e) ==> e@ == "action type must not be empty"@,
    {
        ActionType::parse(value)
    }
}

impl Clone for ActionType {
    fn clone(&self) -> (r: ActionType)
        ensures
            r == *self,
    {
        match self {
            ActionType::Read => ActionType::Read,
            ActionType::Write => ActionType::Write,
            ActionType::Delete => ActionType::Delete,
            ActionType::Execute => ActionType::Execute,
            ActionType::ApiCall => ActionType::ApiCall,
            ActionType::Search => ActionType::Search,
            ActionType::Other(value) => ActionType::Other(value.clone()),
        }
    }
}

impl PartialEq for ActionType {
    fn eq(&self, other: &ActionType) -> (r: bool) {
        match (self, other) {
            (ActionType::Read, ActionType::Read) => true,
            (ActionType::Write, ActionType::Write) => true,
            (ActionType::Delete, ActionType::Delete) => true,
            (ActionType::Execute, ActionType::Execute) => true,
            (ActionType::ApiCall, ActionType::ApiCall) => true,
            (ActionType::Search, ActionType::Search) => true,
            (ActionType::Other(a), ActionType::Other(b)) => text::str_eq(a.as_str(), b.as_str()),
            _ => false,
        }
    }
}

impl vstd::std_specs::cmp::PartialEqSpecImpl for ActionType {
    open spec fn obeys_eq_spec() -> bool {
        true
    }

    open spec fn eq_spec(&self, other: &ActionType) -> bool {
        self@ == other@
    }
}

/// Text without white space at its ends is left as it is.
proof fn lemma_trimmed(s: Seq<char>)
    requires
        s.len() > 0,
        !text::is_space(s[0]),
        !text::is_space(s.last()),
    ensures
        text::trim(s) == s,
{
}

/// An action type can be read back from its name. That of a type that is not known
/// must not be blank, must have no white space around it, and must not differ from
/// a known one only by the case of its letters.
pub proof fn law_action_name_round_trip(kind: ActionKind)
    requires
        kind matches ActionKind::Other(value) ==> value.len() > 0 && !text::is_space(value[0])
            && !text::is_space(value.last()) && !is_known_name(text::ascii_lower(value)),
    ensures
        named_action(kind.name()) == Some(kind),
{
    reveal_strlit("read");
    reveal_strlit("write");
    reveal_strlit("delete");
    reveal_strlit("execute");
    reveal_strlit("api_call");
    reveal_strlit("search");
    let name = kind.name();
    lemma_trimmed(name);
    assert("read"@[0] == 'r' && "write"@[0] == 'w' && "delete"@[0] == 'd' && "execute"@[0] == 'e'
        && "api_call"@[0] == 'a' && "search"@[0] == 's');
    if !(kind is Other) {
        assert(text::ascii_lower(name) =~= name);
    }
}

/// The name is that of a known action type.
pub open spec fn is_known_name(name: Seq<char>) -> bool {
    name == "read"@ || name == "write"@ || name == "delete"@ || name == "execute"@ || name
        == "api_call"@ || name == "search"@
}

/// Deleting is the most dangerous thing to do, and reading and searching are the
/// least.
pub proof fn law_risk(kind: ActionKind)
    ensures
        kind.risk() == RiskLevel::Critical <==> kind is Delete,
        kind.risk() == RiskLevel::High <==> kind is Execute,
        kind.risk() == RiskLevel::Low <==> kind is Read || kind is Search,
{
}

/// A step that an agent proposes or has taken.
///
/// `arguments` is the compact JSON text of the tool arguments.
#[derive(Debug, Clone)]
pub struct StepAction {
    pub action_type: ActionType,
    pub tool_name: Option<String>,
    pub arguments: String,
    pub target_files: Vec<String>,
    pub description: String,
}

// ── Execution context ────────────────────────────────────────

/// The session around a step: its plan and the steps before it, oldest first.
#[derive(Debug, Clone)]
pub struct ExecutionContext {
    pub session_id: SessionId,
    pub step_number: u32,
    pub working_dir: String,
    pub agent_name: Option<String>,
    pub plan: Option<String>,
    pub previous_steps: Vec<StepSummary>,
}

/// A stored session.
#[derive(Debug, Clone)]
pub struct SessionRecord {
    pub session_id: SessionId,
    pub agent_name: Option<String>,
    pub working_dir: String,
    pub status: String,
}

/// What later steps see of an earlier one.
#[derive(Debug, Clone)]
pub struct StepSummary {
    pub step_number: u32,
    pub action_type: ActionType,
    pub description: String,
    pub result: StepResult,
}

/// The summary of a trace entry.
pub open spec fn summary_of(entry: TraceEntry) -> StepSummary {
    StepSummary {
        step_number: entry.step_number,
        action_type: entry.action.action_type,
        description: entry.action.description,
        result: entry.result,
    }
}

impl From<&TraceEntry> for StepSummary {
    fn from(entry: &TraceEntry) -> (r: StepSummary) {
        StepSummary {
            step_number: entry.step_number,
            action_type: entry.action.action_type.clone(),
            description: entry.action.description.clone(),
            result: entry.result.clone(),
        }
    }
}

impl vstd::std_specs::convert::FromSpecImpl<&TraceEntry> for StepSummary {
    open spec fn obeys_from_spec() -> bool {
        true
    }

    open spec fn from_spec(entry: &TraceEntry) -> StepSummary {
        summary_of(*entry)
    }
}

// ── Verification ─────────────────────────────────────────────

#[derive(Debug, Clone, Copy, PartialEq, Eq, Structural)]
pub enum RiskLevel {
    Low,
    Medium,
    High,
    Critical,
}

impl RiskLevel {
    /// The name of the level.
    pub open spec fn label(self) -> Seq<char> {
        match self {
            RiskLevel::Low => "Low"@,
            RiskLevel::Medium => "Medium"@,
            RiskLevel::High => "High"@,
            RiskLevel::Critical => "Critical"@,
        }
    }

    /// The name of the level.
    pub fn as_label(&self) -> (r: &'static str)
        ensures
            r@ == self.label(),
    {
        match self {
            RiskLevel::Low => "Low",
            RiskLevel::Medium => "Medium",
            RiskLevel::High => "High",
            RiskLevel::Critical => "Critical",
        }
    }
}

/// The outcome of verifying one step.
#[derive(Debug)]
pub struct VerificationOutcome {
    pub decision: VerificationDecision,
    pub checks_performed: Vec<CheckResult>,
    pub duration_ms: u64,
}

impl Clone for VerificationOutcome {
    fn clone(&self) -> (r: VerificationOutcome)
        ensures
            r.decision@ == self.decision@,
            checks(r.checks_performed@) == checks(self.checks_performed@),
            r.duration_ms == self.duration_ms,
    {
        let checks_performed = self.checks_performed.clone();
        assert(checks_performed@ =~= self.checks_performed@);
        VerificationOutcome {
            decision: self.decision.clone(),
            checks_performed,
            duration_ms: self.duration_ms,
        }
    }
}

#[derive(Debug, PartialEq)]
pub enum VerificationDecision {
    Pass,
    Warn { reasons: Vec<String> },
    Fail { reasons: Vec<String>, suggestions: Vec<String> },
}

/// A decision with its texts.
pub enum Verdict {
    Pass,
    Warn { reasons: Seq<Seq<char>> },
    Fail { reasons: Seq<Seq<char>>, suggestions: Seq<Seq<char>> },
}

impl Verdict {
    /// Why the decision is not a pass.
    pub open spec fn reasons(self) -> Seq<Seq<char>> {
        match self {
            Verdict::Pass => Seq::empty(),
            Verdict::Warn { reasons } => reasons,
            Verdict::Fail { reasons, .. } => reasons,
        }
    }
}

impl View for VerificationDecision {
    type V = Verdict;

    open spec fn view(&self) -> Verdict {
        match self {
            VerificationDecision::Pass => Verdict::Pass,
            VerificationDecision::Warn { reasons } => Verdict::Warn {
                reasons: text::strings(reasons@),
            },
            VerificationDecision::Fail { reasons, suggestions } => Verdict::Fail {
                reasons: text::strings(reasons@),
                suggestions: text::strings(suggestions@),
            },
        }
    }
}

impl Clone for VerificationDecision {
    fn clone(&self) -> (r: VerificationDecision)
        ensures
            r@ == self@,
    {
        match self {
            VerificationDecision::Pass => VerificationDecision::Pass,
            VerificationDecision::Warn { reasons } => {
                let copy = reasons.clone();
                assert(copy@ =~= reasons@);
                VerificationDecision::Warn { reasons: copy }
            },
            VerificationDecision::Fail { reasons, suggestions } => {
                let reasons_copy = reasons.clone();
                let suggestions_copy = suggestions.clone();
                assert(reasons_copy@ =~= reasons@);
                assert(suggestions_copy@ =~= suggestions@);
                VerificationDecision::Fail { reasons: reasons_copy, suggestions: suggestions_copy }
            },
        }
    }
}

impl VerificationDecision {
    pub fn is_pass(&self) -> (b: bool)
        ensures
            b == (self@ is Pass),
    {
        matches!(self, VerificationDecision::Pass)
    }

    pub fn is_fail(&self) -> (b: bool)
        ensures
            b == (self@ is Fail),
    {
        matches!(self, VerificationDecision::Fail { .. })
    }

    /// Why the decision is not a pass.
    pub fn reasons(&self) -> (r: &[String])
        ensures
            text::strings(r@) == self@.reasons(),
    {
        match self {
            VerificationDecision::Pass => {
                let none: &[String] = &[];
                assert(text::strings(none@) =~= Seq::<Seq<char>>::empty());
                none
            },
            VerificationDecision::Warn { reasons } => reasons.as_slice(),
            VerificationDecision::Fail { reasons, .. } => reasons.as_slice(),
        }
    }
}

/// The result of one check. A check that passed with a message is a warning.
#[derive(Debug)]
pub struct CheckResult {
    pub checker_name: String,
    pub passed: bool,
    pub message: Option<String>,
}

/// A check result with its texts.
pub struct Check {
    pub checker: Seq<char>,
    pub passed: bool,
    pub message: Option<Seq<char>>,
}

impl View for CheckResult {
    type V = Check;

    open spec fn view(&self) -> Check {
        Check {
            checker: self.checker_name@,
            passed: self.passed,
            message: text::opt_text(self.message),
        }
    }
}

/// The texts of check results.
pub open spec fn checks(v: Seq<CheckResult>) -> Seq<Check> {
    v.map_values(|c: CheckResult| c@)
}

impl Clone for CheckResult {
    fn clone(&self) -> (r: CheckResult)
        ensures
            r == *self,
    {
        CheckResult {
            checker_name: self.checker_name.clone(),
            passed: self.passed,
            message: copy_opt(&self.message),
        }
    }
}

/// A copy of an optional string.
pub fn copy_opt(o: &Option<String>) -> (r: Option<String>)
    ensures
        r == *o,
{
    match o {
        Some(s) => Some(s.clone()),
        None => None,
    }
}

impl Check {
    /// The check `checker` has nothing to say.
    pub open spec fn silent(checker: Seq<char>) -> Check {
        Check { checker, passed: true, message: None }
    }

    /// The check `checker` objects.
    pub open spec fn failed(checker: Seq<char>, message: Seq<char>) -> Check {
        Check { checker, passed: false, message: Some(message) }
    }

    /// The check `checker` passes with a warning.
    pub open spec fn warned(checker: Seq<char>, message: Seq<char>) -> Check {
        Check { checker, passed: true, message: Some(message) }
    }
}

impl CheckResult {
    pub(crate) fn silent(checker: &str) -> (r: CheckResult)
        ensures
            r@ == Check::silent(checker@),
    {
        CheckResult { checker_name: checker.to_string(), passed: true, message: None }
    }

    pub(crate) fn failed(checker: &str, message: String) -> (r: CheckResult)
        ensures
            r@ == Check::failed(checker@, message@),
    {
        CheckResult { checker_name: checker.to_string(), passed: false, message: Some(message) }
    }

    pub(crate) fn warned(checker: &str, message: String) -> (r: CheckResult)
        ensures
            r@ == Check::warned(checker@, message@),
    {
        CheckResult { checker_name: checker.to_string(), passed: true, message: Some(message) }
    }
}

// ── Step result ──────────────────────────────────────────────

#[derive(Debug, PartialEq)]
pub enum StepResult {
    Success,
    Failure { error: String },
    RolledBack { reason: String },
    Skipped { reason: String },
}

impl Clone for StepResult {
    fn clone(&self) -> (r: StepResult)
        ensures
            r == *self,
    {
        match self {
            StepResult::Success => StepResult::Success,
            StepResult::Failure { error } => StepResult::Failure { error: error.clone() },
            StepResult::RolledBack { reason } => StepResult::RolledBack { reason: reason.clone() },
            StepResult::Skipped { reason } => StepResult::Skipped { reason: reason.clone() },
        }
    }
}

impl StepResult {
    pub fn is_success(&self) -> (b: bool)
        ensures
            b == (self is Success),
    {
        matches!(self, StepResult::Success)
    }
}

// ── Trace entry ──────────────────────────────────────────────

/// A recorded step.
#[derive(Debug, Clone)]
pub struct TraceEntry {
    pub step_id: StepId,
    pub session_id: SessionId,
    pub step_number: u32,
    pub action: StepAction,
    pub reason: Option<String>,
    pub verification: VerificationOutcome,
    pub checkpoint_id: Option<CheckpointId>,
    pub result: StepResult,
    pub tokens_used: u64,
    pub cost_usd: Real,
    pub duration_ms: u64,
    pub timestamp: Timestamp,
}

// ── Checkpoint ───────────────────────────────────────────────

#[derive(Debug, Clone, Copy, PartialEq, Eq, Structural)]
pub enum CheckpointType {
    GitStash,
    GitCommit,
    FileCopy,
}

/// A saved state of the working directory.
#[derive(Debug, Clone)]
pub struct Checkpoint {
    pub id: CheckpointId,
    pub session_id: SessionId,
    pub step_id: StepId,
    pub checkpoint_type: CheckpointType,
    pub reference: String,
    pub files_affected: Vec<String>,
    pub created_at: Timestamp,
}

/// The checkpoints have the same contents.
pub open spec fn same_checkpoint(a: Checkpoint, b: Checkpoint) -> bool {
    &&& a.id@ == b.id@
    &&& a.session_id@ == b.session_id@
    &&& a.step_id@ == b.step_id@
    &&& a.checkpoint_type == b.checkpoint_type
    &&& a.reference@ == b.reference@
    &&& text::strings(a.files_affected@) == text::strings(b.files_affected@)
    &&& a.created_at == b.created_at
}

/// A copy of the checkpoint.
pub(crate) fn copy_checkpoint(checkpoint: &Checkpoint) -> (r: Checkpoint)
    ensures
        same_checkpoint(r, *checkpoint),
{
    let files_affected = checkpoint.files_affected.clone();
    assert(files_affected@ =~= checkpoint.files_affected@);
    Checkpoint {
        id: checkpoint.id.clone(),
        session_id: checkpoint.session_id.clone(),
        step_id: checkpoint.step_id.clone(),
        checkpoint_type: checkpoint.checkpoint_type,
        reference: checkpoint.reference.clone(),
        files_affected,
        created_at: checkpoint.created_at,
    }
}

// ── Saga ─────────────────────────────────────────────────────

#[derive(Debug, Clone)]
pub struct SagaStepRecord {
    pub step_id: StepId,
    pub forward_description: String,
    pub compensate_description: Option<String>,
    pub reversible: bool,
}

/// What a rollback did.
#[derive(Debug, Clone, Copy, PartialEq, Eq, Structural)]
pub struct RollbackResult {
    pub rolled_back_to_step: u32,
    pub steps_undone: u32,
    pub compensations_executed: u32,
    pub compensations_failed: u32,
}

// ── Anomaly ──────────────────────────────────────────────────

#[derive(Debug, Clone, Copy, PartialEq, Eq, Structural)]
pub enum AnomalyType {
    GoalDrift,
    LoopTrap,
    TokenSpike,
    PlanDeviation,
    ConsistencyViolation,
}

#[derive(Debug, Clone, Copy, PartialEq, Eq, Structural)]
pub enum Severity {
    Info,
    Warning,
    Critical,
}

/// Something conspicuous about a step.
#[derive(Debug, Clone)]
pub struct Anomaly {
    pub anomaly_type: AnomalyType,
    pub severity: Severity,
    pub detail: String,
    pub step_id: Option<StepId>,
    pub detected_at: Timestamp,
}

// ── Session summary ──────────────────────────────────────────

#[derive(Debug, Clone)]
pub struct SessionSummary {
    pub session_id: SessionId,
    pub total_steps: u32,
    pub successful_steps: u32,
    pub failed_steps: u32,
    pub rollbacks: u32,
    pub verifier_interceptions: u32,
    pub anomalies_detected: u32,
    pub total_tokens: u64,
    pub total_cost_usd: Real,
    pub total_duration_ms: u64,
}

}
