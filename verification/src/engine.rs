//! Sessions and their steps: what is asked of the store, what is verified, and what
//! is recorded.

use vstd::prelude::*;

use crate::checkpoint;
use crate::checkpoint::saga;
use crate::checkpoint::stash::StashLog;
use crate::checkpoint::undo::RollbackAction;
use crate::checkpoint::CheckpointManager;
use crate::config::CarapaceConfig;
use crate::config::VerificationConfig;
use crate::learner::rules as learned;
use crate::learner::rules::LearnedRule;
use crate::number::Real;
use crate::number::Timestamp;
use crate::text;
use crate::types;
use crate::types::Anomaly;
use crate::types::Check;
use crate::types::Checkpoint;
use crate::types::CheckpointId;
use crate::types::ExecutionContext;
use crate::types::RollbackResult;
use crate::types::SessionId;
use crate::types::SessionRecord;
use crate::types::StepAction;
use crate::types::StepId;
use crate::types::StepResult;
use crate::types::StepSummary;
use crate::types::TraceEntry;
use crate::types::Verdict;
use crate::types::VerificationDecision;
use crate::types::VerificationOutcome;
use crate::verification;
use crate::verification::CompositeVerifier;
use crate::verification::Verifier;

verus! {

// ── Requests and responses ───────────────────────────────────

pub type StepInput = StepAction;

#[derive(Debug, Clone)]
pub struct BeginSessionRequest {
    pub session_id: Option<SessionId>,
    pub agent_name: Option<String>,
    pub working_dir: String,
}

#[derive(Debug, Clone)]
pub struct BeginSessionResponse {
    pub session: SessionRecord,
}

#[derive(Debug, Clone)]
pub struct VerifyStepRequest {
    pub session_id: SessionId,
    pub step_number: Option<u32>,
    pub plan: Option<String>,
    pub action: StepInput,
}

#[derive(Debug, Clone)]
pub struct VerifyStepResponse {
    pub session_id: SessionId,
    pub step_number: u32,
    pub verification: VerificationOutcome,
}

#[derive(Debug, Clone, Copy, PartialEq, Eq, Structural)]
pub enum StepOutcomeStatus {
    Success,
    Failure,
    RolledBack,
    Skipped,
}

/// `r` is the result of a step of this status.
pub open spec fn is_result(status: StepOutcomeStatus, message: Option<Seq<char>>, r: StepResult) -> bool {
    match status {
        StepOutcomeStatus::Success => r is Success,
        StepOutcomeStatus::Failure => {
            r matches StepResult::Failure { error } && error@ == text::or_text(message, "step failed"@)
        },
        StepOutcomeStatus::RolledBack => {
            r matches StepResult::RolledBack { reason } && reason@ == text::or_text(
                message,
                "step rolled back"@,
            )
        },
        StepOutcomeStatus::Skipped => {
            r matches StepResult::Skipped { reason } && reason@ == text::or_text(
                message,
                "step skipped"@,
            )
        },
    }
}

/// The message, or the text where there is none.
fn message_or(message: Option<String>, other: &str) -> (r: String)
    ensures
        r@ == text::or_text(text::opt_text(message), other@),
{
    match message {
        Some(m) => m,
        None => other.to_string(),
    }
}

impl StepOutcomeStatus {
    /// The result of a step of this status, with the message or one that says as
    /// much.
    pub fn into_step_result(self, message: Option<String>) -> (r: StepResult)
        ensures
            is_result(self, text::opt_text(message), r),
    {
        match self {
            StepOutcomeStatus::Success => StepResult::Success,
            StepOutcomeStatus::Failure => StepResult::Failure {
                error: message_or(message, "step failed"),
            },
            StepOutcomeStatus::RolledBack => StepResult::RolledBack {
                reason: message_or(message, "step rolled back"),
            },
            StepOutcomeStatus::Skipped => StepResult::Skipped {
                reason: message_or(message, "step skipped"),
            },
        }
    }
}

#[derive(Debug, Clone)]
pub struct RecordStepRequest {
    pub session_id: SessionId,
    pub step_number: Option<u32>,
    pub plan: Option<String>,
    pub action: StepInput,
    pub reason: Option<String>,
    pub checkpoint_id: Option<CheckpointId>,
    pub result_status: StepOutcomeStatus,
    pub result_message: Option<String>,
    pub tokens_used: u64,
    pub cost_usd: Real,
    pub duration_ms: u64,
}

#[derive(Debug, Clone)]
pub struct RecordStepResponse {
    pub step_id: StepId,
    pub session_id: SessionId,
    pub step_number: u32,
    pub verification: VerificationOutcome,
    pub checkpoint_id: Option<CheckpointId>,
    pub result: StepResult,
    pub anomalies: Vec<Anomaly>,
}

#[derive(Debug, Clone)]
pub struct SaveCheckpointRequest {
    pub session_id: SessionId,
    pub action: StepInput,
}

#[derive(Debug, Clone)]
pub struct SaveCheckpointResponse {
    pub session_id: SessionId,
    pub checkpoint: Checkpoint,
}

#[derive(Debug, Clone)]
pub struct RollbackRequest {
    pub session_id: SessionId,
    pub checkpoint_id: Option<CheckpointId>,
    pub steps_back: Option<u32>,
    pub reason: Option<String>,
}

#[derive(Debug, Clone)]
pub struct RollbackResponse {
    pub session_id: SessionId,
    pub result: RollbackResult,
}

// ── Beginning a session ──────────────────────────────────────

/// A session that is being begun.
#[derive(Debug)]
pub struct BeginRun {
    pub session_id: SessionId,
    pub agent_name: Option<String>,
    pub working_dir: String,
    /// The session was created already.
    pub created: bool,
}

/// What comes next when a session is begun.
#[derive(Debug)]
pub enum BeginAction {
    /// Create the session and look it up again.
    Create(BeginRun),
    /// The session is there.
    Done(BeginSessionResponse),
    /// The session is not there though it was created.
    Failed(String),
}

impl BeginRun {
    /// Begins a session: the one that is named, or a new one.
    pub fn start(request: BeginSessionRequest) -> (r: BeginRun)
        ensures
            match request.session_id {
                Some(id) => r.session_id == id,
                None => types::is_random_uuid(r.session_id@),
            },
            r.agent_name == request.agent_name,
            r.working_dir == request.working_dir,
            !r.created,
    {
        let session_id = match request.session_id {
            Some(id) => id,
            None => types::new_id(),
        };
        BeginRun {
            session_id,
            agent_name: request.agent_name,
            working_dir: request.working_dir,
            created: false,
        }
    }

    /// What comes after the store was asked for the session: an existing session
    /// is resumed, a missing one is created once.
    pub open spec fn leads_to(self, found: Option<SessionRecord>, next: BeginAction) -> bool {
        match found {
            Some(record) => next matches BeginAction::Done(response) && response.session == record,
            None => if self.created {
                next matches BeginAction::Failed(m) && m@ == "Session "@ + self.session_id@
                    + " was not readable after creation"@
            } else {
                next matches BeginAction::Create(run) && run == (BeginRun {
                    created: true,
                    ..self
                })
            },
        }
    }

    /// What comes after the store was asked for the session.
    pub fn next(self, found: Option<SessionRecord>) -> (r: BeginAction)
        ensures
            self.leads_to(found, r),
    {
        match found {
            Some(session) => BeginAction::Done(BeginSessionResponse { session }),
            None => {
                if self.created {
                    let mut m = "Session ".to_string();
                    m.append(self.session_id.as_str());
                    m.append(" was not readable after creation");
                    BeginAction::Failed(m)
                } else {
                    BeginAction::Create(
                        BeginRun {
                            session_id: self.session_id,
                            agent_name: self.agent_name,
                            working_dir: self.working_dir,
                            created: true,
                        },
                    )
                }
            },
        }
    }
}

// ── Context ──────────────────────────────────────────────────

/// The number of the step after these: one more than the last, or 1.
pub open spec fn following_number(previous: Seq<StepSummary>) -> u32 {
    if previous.len() == 0 {
        1
    } else if previous.last().step_number == u32::MAX {
        u32::MAX
    } else {
        (previous.last().step_number + 1) as u32
    }
}

/// The number of the step after these.
pub fn next_step_number(previous_steps: &[StepSummary]) -> (r: u32)
    ensures
        r == following_number(previous_steps@),
{
    let n = previous_steps.len();
    if n == 0 {
        return 1;
    }
    let last = previous_steps[n - 1].step_number;
    if last == u32::MAX {
        last
    } else {
        last + 1
    }
}

/// The session, or what is said where it is unknown.
pub fn load_session(found: Option<SessionRecord>, session_id: &str) -> (r: Result<
    SessionRecord,
    String,
>)
    ensures
        r is Ok <==> found is Some,
        r matches Ok(s) ==> found == Some(s),
        r matches Err(e) ==> e@ == "Unknown session: "@ + session_id@,
{
    match found {
        Some(s) => Ok(s),
        None => {
            let mut m = "Unknown session: ".to_string();
            m.append(session_id);
            Err(m)
        },
    }
}

/// `ctx` is the context of a step of the session.
pub open spec fn is_context(
    session: SessionRecord,
    step_number: Option<u32>,
    plan: Option<String>,
    previous: Seq<StepSummary>,
    ctx: ExecutionContext,
) -> bool {
    &&& ctx.session_id == session.session_id
    &&& ctx.step_number == match step_number {
        Some(n) => n,
        None => following_number(previous),
    }
    &&& ctx.working_dir == session.working_dir
    &&& ctx.agent_name == session.agent_name
    &&& ctx.plan == plan
    &&& ctx.previous_steps@ == previous
}

/// The context of a step of the session, after the previous steps, oldest first.
/// Without a number the step is the next one.
pub fn build_context(
    session: &SessionRecord,
    step_number: Option<u32>,
    plan: Option<String>,
    previous_steps: Vec<StepSummary>,
) -> (r: ExecutionContext)
    ensures
        is_context(*session, step_number, plan, previous_steps@, r),
{
    let number = match step_number {
        Some(n) => n,
        None => next_step_number(previous_steps.as_slice()),
    };
    ExecutionContext {
        session_id: session.session_id.clone(),
        step_number: number,
        working_dir: session.working_dir.clone(),
        agent_name: types::copy_opt(&session.agent_name),
        plan,
        previous_steps,
    }
}

// ── Engine ───────────────────────────────────────────────────

/// Verifies and records steps by the configuration and what was learned.
#[derive(Debug)]
pub struct ExecutionEngine {
    config: CarapaceConfig,
    learned_rules: Vec<LearnedRule>,
}

/// `outcome` is what verification says of the action: nothing where it is disabled,
/// and otherwise the verdict on all checks.
pub open spec fn verifies(
    policy: crate::config::Policy,
    lessons: Seq<learned::Advice>,
    action: StepAction,
    ctx: ExecutionContext,
    outcome: VerificationOutcome,
) -> bool {
    let checks = if policy.enabled {
        verification::all_checks(
            policy,
            verification::patterns::usable_threats(),
            lessons,
            action,
            ctx,
        )
    } else {
        Seq::empty()
    };
    &&& types::checks(outcome.checks_performed@) == checks
    &&& outcome.decision@ == (if policy.enabled {
        verification::verdict(checks)
    } else {
        Verdict::Pass
    })
    &&& !policy.enabled ==> outcome.duration_ms == 0
}

/// Verifies an action by the configuration and the learned rules.
pub fn verify_action(
    config: &VerificationConfig,
    learned_rules: &Vec<LearnedRule>,
    action: &StepAction,
    context: &ExecutionContext,
) -> (r: VerificationOutcome)
    ensures
        verifies(config@, learned::advices(learned_rules@), *action, *context, r),
{
    if !config.enabled {
        let none: Vec<types::CheckResult> = Vec::new();
        assert(types::checks(none@) =~= Seq::<Check>::empty());
        return VerificationOutcome {
            decision: VerificationDecision::Pass,
            checks_performed: none,
            duration_ms: 0,
        };
    }
    let composite = CompositeVerifier::new(config.clone()).with_learned_rules(
        learned::copy_rules(learned_rules),
    );
    composite.verify(action, context)
}

/// `entry` records the step in its context with this outcome of verification.
pub open spec fn records(
    request: RecordStepRequest,
    ctx: ExecutionContext,
    now: Timestamp,
    entry: TraceEntry,
) -> bool {
    &&& types::is_random_uuid(entry.step_id@)
    &&& entry.session_id == ctx.session_id
    &&& entry.step_number == ctx.step_number
    &&& entry.action == request.action
    &&& entry.reason == request.reason
    &&& entry.checkpoint_id == request.checkpoint_id
    &&& is_result(request.result_status, text::opt_text(request.result_message), entry.result)
    &&& entry.tokens_used == request.tokens_used
    &&& entry.cost_usd == request.cost_usd
    &&& entry.duration_ms == request.duration_ms
    &&& entry.timestamp == now
}

/// `response` reports the recorded step and these anomalies.
pub open spec fn reports(
    entry: TraceEntry,
    anomalies: Vec<Anomaly>,
    response: RecordStepResponse,
) -> bool {
    &&& response.step_id == entry.step_id
    &&& response.session_id == entry.session_id
    &&& response.step_number == entry.step_number
    &&& response.verification.decision@ == entry.verification.decision@
    &&& types::checks(response.verification.checks_performed@) == types::checks(
        entry.verification.checks_performed@,
    )
    &&& response.verification.duration_ms == entry.verification.duration_ms
    &&& response.checkpoint_id == entry.checkpoint_id
    &&& response.result == entry.result
    &&& response.anomalies == anomalies
}

/// What is said of a recorded step with these anomalies.
pub fn record_response(entry: &TraceEntry, anomalies: Vec<Anomaly>) -> (r: RecordStepResponse)
    ensures
        reports(*entry, anomalies, r),
{
    RecordStepResponse {
        step_id: entry.step_id.clone(),
        session_id: entry.session_id.clone(),
        step_number: entry.step_number,
        verification: entry.verification.clone(),
        checkpoint_id: types::copy_opt(&entry.checkpoint_id),
        result: entry.result.clone(),
        anomalies,
    }
}

// ── Rollback ─────────────────────────────────────────────────

/// Begins to roll a session back as asked: to the checkpoint where one is named,
/// undoing the step that owns it, and otherwise by the number of steps, or by all of
/// them.
pub fn roll_back(
    manager: &mut CheckpointManager,
    request: &RollbackRequest,
    stashes: &StashLog,
) -> (r: Result<RollbackAction, String>)
    ensures
        final(manager).settings() == old(manager).settings(),
        final(manager).backend() == old(manager).backend(),
        match request.checkpoint_id {
            None => r is Ok && checkpoint::begins_rollback(
                old(manager).steps(),
                saga::undo_count(old(manager).steps().len(), request.steps_back),
                stashes@,
                final(manager).steps(),
                r->Ok_0,
            ),
            Some(id) => match r {
                Err(e) => e@ == "Unknown checkpoint: "@ + id@ && final(manager).steps() == old(
                    manager,
                ).steps() && saga::no_owner(old(manager).steps(), id@),
                Ok(action) => exists|i: int| #[trigger]
                    saga::newest_owner(old(manager).steps(), id@, i)
                        && checkpoint::begins_rollback(
                        old(manager).steps(),
                        (old(manager).steps().len() - i) as nat,
                        stashes@,
                        final(manager).steps(),
                        action,
                    ),
            },
        },
{
    match &request.checkpoint_id {
        None => Ok(manager.rollback(request.steps_back, stashes)),
        Some(id) => match manager.rollback_to_checkpoint(id.as_str(), stashes) {
            Some(action) => Ok(action),
            None => {
                let mut m = "Unknown checkpoint: ".to_string();
                m.append(id.as_str());
                Err(m)
            },
        },
    }
}

/// What is answered to a request to roll back, once that is done.
pub fn rollback_response(request: RollbackRequest, result: RollbackResult) -> (r: RollbackResponse)
    ensures
        r.session_id == request.session_id,
        r.result == result,
{
    RollbackResponse { session_id: request.session_id, result }
}

impl ExecutionEngine {
    /// The configuration in force.
    pub closed spec fn settings(self) -> CarapaceConfig {
        self.config
    }

    /// The learned rules in force.
    pub closed spec fn lessons(self) -> Seq<learned::Advice> {
        learned::advices(self.learned_rules@)
    }

    /// An engine that has learned nothing yet.
    pub fn new(config: CarapaceConfig) -> (r: ExecutionEngine)
        ensures
            r.settings() == config,
            r.lessons() == Seq::<learned::Advice>::empty(),
    {
        let r = ExecutionEngine { config, learned_rules: Vec::new() };
        assert(r.lessons() =~= Seq::<learned::Advice>::empty());
        r
    }

    /// The same engine with these learned rules, and their number.
    pub fn load_learned_rules(self, rules: Vec<LearnedRule>) -> (r: (ExecutionEngine, usize))
        ensures
            r.0.settings() == self.settings(),
            r.0.lessons() == learned::advices(rules@),
            r.1 == rules@.len(),
    {
        let n = rules.len();
        (ExecutionEngine { config: self.config, learned_rules: rules }, n)
    }

    /// The configuration in force.
    pub fn config(&self) -> (r: &CarapaceConfig)
        ensures
            *r == self.settings(),
    {
        &self.config
    }

    /// Verifies an action in its context.
    pub fn verify_action(&self, action: &StepAction, context: &ExecutionContext) -> (r:
        VerificationOutcome)
        ensures
            verifies(self.settings().verification@, self.lessons(), *action, *context, r),
    {
        verify_action(&self.config.verification, &self.learned_rules, action, context)
    }

    /// Verifies a step of a session, after the previous steps, oldest first. `found`
    /// is what the store has under the name of the session.
    pub fn verify_step(
        &self,
        request: VerifyStepRequest,
        found: Option<SessionRecord>,
        previous_steps: Vec<StepSummary>,
    ) -> (r: Result<VerifyStepResponse, String>)
        ensures
            r is Ok <==> found is Some,
            r matches Ok(response) ==> exists|ctx: ExecutionContext| #[trigger]
                is_context(
                    found->0,
                    request.step_number,
                    request.plan,
                    previous_steps@,
                    ctx,
                ) && response.session_id == ctx.session_id && response.step_number
                    == ctx.step_number && verifies(
                    self.settings().verification@,
                    self.lessons(),
                    request.action,
                    ctx,
                    response.verification,
                ),
            r matches Err(e) ==> e@ == "Unknown session: "@ + request.session_id@,
    {
        let session = match load_session(found, request.session_id.as_str()) {
            Ok(s) => s,
            Err(e) => {
                return Err(e);
            },
        };
        let ghost previous = previous_steps@;
        let ctx = build_context(&session, request.step_number, request.plan, previous_steps);
        assert(is_context(found->0, request.step_number, request.plan, previous, ctx));
        let verification = self.verify_action(&request.action, &ctx);
        Ok(
            VerifyStepResponse {
                session_id: ctx.session_id.clone(),
                step_number: ctx.step_number,
                verification,
            },
        )
    }

    /// What is recorded of a step of a session, after the previous steps, oldest
    /// first. `found` is what the store has under the name of the session. Steps
    /// are verified again when they are recorded.
    pub fn record_step(
        &self,
        request: RecordStepRequest,
        found: Option<SessionRecord>,
        previous_steps: Vec<StepSummary>,
        now: Timestamp,
    ) -> (r: Result<TraceEntry, String>)
        ensures
            r is Ok <==> found is Some,
            r matches Ok(entry) ==> exists|ctx: ExecutionContext| #[trigger]
                is_context(
                    found->0,
                    request.step_number,
                    request.plan,
                    previous_steps@,
                    ctx,
                ) && records(request, ctx, now, entry) && verifies(
                    self.settings().verification@,
                    self.lessons(),
                    request.action,
                    ctx,
                    entry.verification,
                ),
            r matches Err(e) ==> e@ == "Unknown session: "@ + request.session_id@,
    {
        let session = match load_session(found, request.session_id.as_str()) {
            Ok(s) => s,
            Err(e) => {
                return Err(e);
            },
        };
        let ghost previous = previous_steps@;
        let ctx = build_context(&session, request.step_number, request.plan, previous_steps);
        assert(is_context(found->0, request.step_number, request.plan, previous, ctx));
        let verification = self.verify_action(&request.action, &ctx);
        let result = request.result_status.into_step_result(request.result_message);
        let entry = TraceEntry {
            step_id: types::new_id(),
            session_id: ctx.session_id.clone(),
            step_number: ctx.step_number,
            action: request.action,
            reason: request.reason,
            verification,
            checkpoint_id: request.checkpoint_id,
            result,
            tokens_used: request.tokens_used,
            cost_usd: request.cost_usd,
            duration_ms: request.duration_ms,
            timestamp: now,
        };
        Ok(entry)
    }

    /// Whether anomalies are looked for when a step is recorded.
    pub fn traces(&self) -> (b: bool)
        ensures
            b == self.settings().trace.enabled,
    {
        self.config.trace.enabled
    }
}

// ── Laws ─────────────────────────────────────────────────────

/// Where verification is disabled, every step passes without a check.
pub proof fn law_disabled_verification_passes(
    policy: crate::config::Policy,
    lessons: Seq<learned::Advice>,
    action: StepAction,
    ctx: ExecutionContext,
    outcome: VerificationOutcome,
)
    requires
        !policy.enabled,
        verifies(policy, lessons, action, ctx, outcome),
    ensures
        outcome.decision@ is Pass,
        outcome.checks_performed@.len() == 0,
{
    assert(types::checks(outcome.checks_performed@).len() == outcome.checks_performed@.len());
}

/// Steps that are numbered by the engine count up: each number follows the last
/// one, as long as there are numbers left.
pub proof fn law_steps_count_up(previous: Seq<StepSummary>, step: StepSummary)
    requires
        step.step_number < u32::MAX,
    ensures
        following_number(previous.push(step)) == step.step_number + 1,
        following_number(Seq::empty()) == 1,
{
}

/// Beginning a session ends after at most one creation, with the session that the
/// store has under its name, or not at all.
pub proof fn law_session_is_created_once(
    start: BeginRun,
    first: Option<SessionRecord>,
    after_first: BeginAction,
    second: Option<SessionRecord>,
    after_second: BeginAction,
)
    requires
        !start.created,
        start.leads_to(first, after_first),
        after_first matches BeginAction::Create(run) ==> run.leads_to(second, after_second),
    ensures
        first is Some ==> (after_first matches BeginAction::Done(r) && r.session == first->0),
        first is None ==> (after_first matches BeginAction::Create(run) && run.session_id
            == start.session_id),
        first is None && second is Some ==> (after_second matches BeginAction::Done(r)
            && r.session == second->0),
        first is None && second is None ==> after_second is Failed,
{
}

}
