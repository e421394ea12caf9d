use carapace::checkpoint::stash::StashLog;
use carapace::checkpoint::undo::RollbackAction;
use carapace::checkpoint::CheckpointManager;
use carapace::config::{CarapaceConfig, CheckpointConfig};
use carapace::engine::{
    build_context, load_session, next_step_number, record_response, roll_back, rollback_response,
    verify_action, BeginAction, BeginRun, BeginSessionRequest, ExecutionEngine, RecordStepRequest,
    RollbackRequest, RollbackResponse, StepOutcomeStatus, VerifyStepRequest,
};
use carapace::learner::patterns::{Measure, Measures, SessionTrace};
use carapace::learner::tally::{tally_sessions, Tally};
use carapace::learner::{learn, trace_of, LearningReport};
use carapace::number::{Real, Timestamp};
use carapace::storage::summarize_steps;
use carapace::types::{
    ActionType, Checkpoint, CheckpointType, SessionRecord, StepAction, StepResult, StepSummary, TraceEntry,
    VerificationDecision, VerificationOutcome,
};

fn now() -> Timestamp {
    Timestamp::from_parts(1_700_000_000, 0).unwrap()
}

fn action(kind: ActionType, tool: &str, files: Vec<&str>, description: &str, arguments: &str) -> StepAction {
    StepAction {
        action_type: kind,
        tool_name: Some(tool.into()),
        arguments: arguments.into(),
        target_files: files.into_iter().map(String::from).collect(),
        description: description.into(),
    }
}

fn safe_action() -> StepAction {
    action(ActionType::Read, "read_file", vec!["src/lib.rs"], "Inspect lib.rs", "{\"path\":\"src/lib.rs\"}")
}

fn session(id: &str) -> SessionRecord {
    SessionRecord {
        session_id: id.into(),
        agent_name: Some("test-agent".into()),
        working_dir: "/workspace".into(),
        status: "active".into(),
    }
}

/// One session with its steps.
struct Desk {
    engine: ExecutionEngine,
    session: SessionRecord,
    steps: Vec<TraceEntry>,
}

impl Desk {
    fn new(config: CarapaceConfig, id: &str) -> Self {
        Desk { engine: ExecutionEngine::new(config), session: session(id), steps: vec![] }
    }

    fn verify(&self, step_number: Option<u32>, plan: Option<&str>, action: &StepAction) -> VerificationOutcome {
        let request = VerifyStepRequest {
            session_id: self.session.session_id.clone(),
            step_number,
            plan: plan.map(String::from),
            action: action.clone(),
        };
        self.engine
            .verify_step(request, Some(self.session.clone()), summarize_steps(&self.steps))
            .unwrap()
            .verification
    }

    fn record(&mut self, plan: Option<&str>, action: &StepAction, status: StepOutcomeStatus, message: Option<&str>) -> u32 {
        let request = RecordStepRequest {
            session_id: self.session.session_id.clone(),
            step_number: None,
            plan: plan.map(String::from),
            action: action.clone(),
            reason: Some("because".into()),
            checkpoint_id: None,
            result_status: status,
            result_message: message.map(String::from),
            tokens_used: 100,
            cost_usd: Real { bits: 0.01f64.to_bits() },
            duration_ms: 10,
        };
        let entry = self
            .engine
            .record_step(request, Some(self.session.clone()), summarize_steps(&self.steps), now())
            .unwrap();
        let number = entry.step_number;
        self.steps.push(entry);
        number
    }

    fn trace(&self) -> SessionTrace {
        trace_of(self.session.session_id.clone(), self.steps.clone()).unwrap()
    }
}

fn measure(t: Tally) -> Measure {
    let rate = t.failed as f64 / t.total as f64;
    let confidence = ((1.0 - (1.0 / (1.0 + t.total as f64))) * rate).clamp(0.0, 1.0);
    Measure {
        rate: Real { bits: rate.to_bits() },
        confidence: Real { bits: confidence.to_bits() },
        percent: format!("{:.0}", rate * 100.0),
    }
}

fn learn_from(sessions: &[SessionTrace], min: f64) -> LearningReport {
    let t = tally_sessions(sessions);
    let rate = |t: Tally| if t.total > 0 { t.failed as f64 / t.total as f64 } else { 0.0 };
    let m = Measures {
        writes: measure(t.writes),
        repeats: measure(t.repeats),
        untested: measure(t.untested),
        tested_percent: format!("{:.0}", rate(t.tested) * 100.0),
        untested_is_worse: !(rate(t.untested) <= rate(t.tested) + 0.1),
        unprotected: measure(t.unprotected),
        worst: measure(t.worst.as_ref().map(|w| w.tally).unwrap_or(Tally { total: 0, failed: 0 })),
    };
    learn(sessions, &m, Real { bits: min.to_bits() })
}

#[test]
fn sessions_are_begun_resumed_or_given_up() {
    let request = |id: Option<&str>| BeginSessionRequest {
        session_id: id.map(String::from),
        agent_name: Some("a".into()),
        working_dir: "/w".into(),
    };
    match BeginRun::start(request(Some("session-1"))).next(Some(session("session-1"))) {
        BeginAction::Done(r) => assert_eq!(r.session.session_id, "session-1"),
        _ => panic!("not resumed"),
    }
    let run = match BeginRun::start(request(Some("session-1"))).next(None) {
        BeginAction::Create(run) => run,
        _ => panic!("not created"),
    };
    assert_eq!(run.session_id, "session-1");
    assert_eq!(run.agent_name.as_deref(), Some("a"));
    assert_eq!(run.working_dir, "/w");
    match run.next(None) {
        BeginAction::Failed(m) => assert_eq!(m, "Session session-1 was not readable after creation"),
        _ => panic!("not given up"),
    }
    let fresh = BeginRun::start(request(None));
    assert_eq!(fresh.session_id.len(), 36);
    match fresh.next(None) {
        BeginAction::Create(run) => match run.next(Some(session("x"))) {
            BeginAction::Done(r) => assert_eq!(r.session.session_id, "x"),
            _ => panic!("not done"),
        },
        _ => panic!("not created"),
    }
}

#[test]
fn steps_are_verified_and_recorded() {
    let mut desk = Desk::new(CarapaceConfig::default(), "session-1");
    let v = desk.verify(None, Some("Inspect project"), &safe_action());
    assert!(matches!(v.decision, VerificationDecision::Pass));
    assert_eq!(desk.record(Some("Inspect project"), &safe_action(), StepOutcomeStatus::Success, None), 1);
    let entry = &desk.steps[0];
    assert_eq!(entry.session_id, "session-1");
    assert_eq!(entry.result, StepResult::Success);
    assert_eq!(entry.tokens_used, 100);
    assert_eq!(entry.duration_ms, 10);
    assert_eq!(entry.reason.as_deref(), Some("because"));
    assert_eq!(entry.step_id.len(), 36);
    let response = record_response(entry, vec![]);
    assert_eq!(response.step_id, entry.step_id);
    assert_eq!(response.step_number, 1);
    assert_eq!(response.result, StepResult::Success);
    assert!(response.verification.decision.is_pass());
    assert!(response.anomalies.is_empty());
}

#[test]
fn verification_follows_the_configuration() {
    let mut config = CarapaceConfig::default();
    config.verification.consistency_enabled = false;
    config.verification.blocked_paths = vec!["/workspace/secret.txt".to_string()];
    let desk = Desk::new(config, "session-2");
    let a = action(
        ActionType::Write,
        "write_file",
        vec!["/workspace/secret.txt"],
        "Overwrite secret",
        "{\"path\":\"/workspace/secret.txt\"}",
    );
    assert!(desk.verify(None, None, &a).decision.is_fail());

    let mut config = CarapaceConfig::default();
    config.verification.enabled = false;
    let desk = Desk::new(config.clone(), "session-2");
    let a = action(ActionType::Execute, "shell", vec!["/etc/shadow"], "rm -rf /", "{}");
    let v = desk.verify(None, None, &a);
    assert!(v.decision.is_pass());
    assert!(v.checks_performed.is_empty());
    assert_eq!(v.duration_ms, 0);
    let ctx = build_context(&session("s"), None, None, vec![]);
    assert!(verify_action(&config.verification, &vec![], &a, &ctx).decision.is_pass());
}

#[test]
fn unknown_sessions_are_refused() {
    let engine = ExecutionEngine::new(CarapaceConfig::default());
    let request = VerifyStepRequest {
        session_id: "nobody".into(),
        step_number: None,
        plan: None,
        action: safe_action(),
    };
    assert_eq!(
        engine.verify_step(request, None, vec![]).unwrap_err(),
        "Unknown session: nobody"
    );
    let request = RecordStepRequest {
        session_id: "nobody".into(),
        step_number: None,
        plan: None,
        action: safe_action(),
        reason: None,
        checkpoint_id: None,
        result_status: StepOutcomeStatus::Success,
        result_message: None,
        tokens_used: 0,
        cost_usd: Real { bits: 0 },
        duration_ms: 0,
    };
    assert_eq!(
        engine.record_step(request, None, vec![], now()).unwrap_err(),
        "Unknown session: nobody"
    );
    assert!(load_session(Some(session("s")), "s").is_ok());
}

#[test]
fn results_have_a_message() {
    assert_eq!(StepOutcomeStatus::Success.into_step_result(Some("x".into())), StepResult::Success);
    assert_eq!(
        StepOutcomeStatus::Failure.into_step_result(None),
        StepResult::Failure { error: "step failed".into() }
    );
    assert_eq!(
        StepOutcomeStatus::RolledBack.into_step_result(None),
        StepResult::RolledBack { reason: "step rolled back".into() }
    );
    assert_eq!(
        StepOutcomeStatus::Skipped.into_step_result(None),
        StepResult::Skipped { reason: "step skipped".into() }
    );
    assert_eq!(
        StepOutcomeStatus::Failure.into_step_result(Some("boom".into())),
        StepResult::Failure { error: "boom".into() }
    );
}

fn summary(number: u32) -> StepSummary {
    StepSummary {
        step_number: number,
        action_type: ActionType::Read,
        description: "d".into(),
        result: StepResult::Success,
    }
}

#[test]
fn steps_count_up() {
    assert_eq!(next_step_number(&[]), 1);
    assert_eq!(next_step_number(&[summary(1), summary(7)]), 8);
    assert_eq!(next_step_number(&[summary(u32::MAX)]), u32::MAX);
    let ctx = build_context(&session("s"), None, Some("p".into()), vec![summary(4)]);
    assert_eq!(ctx.step_number, 5);
    assert_eq!(ctx.session_id, "s");
    assert_eq!(ctx.working_dir, "/workspace");
    assert_eq!(ctx.agent_name.as_deref(), Some("test-agent"));
    assert_eq!(ctx.plan.as_deref(), Some("p"));
    assert_eq!(ctx.previous_steps.len(), 1);
    assert_eq!(build_context(&session("s"), Some(99), None, vec![summary(4)]).step_number, 99);
}

#[test]
fn tracing_can_be_switched_off() {
    let mut config = CarapaceConfig::default();
    assert!(ExecutionEngine::new(config.clone()).traces());
    config.trace.enabled = false;
    let engine = ExecutionEngine::new(config);
    assert!(!engine.traces());
    assert!(!engine.config().trace.enabled);
}

fn permissive_config() -> CarapaceConfig {
    let mut config = CarapaceConfig::default();
    config.verification.rules_enabled = true;
    config.verification.consistency_enabled = false;
    config.verification.blocked_paths.clear();
    config.verification.blocked_commands.clear();
    config.verification.require_confirmation_for.clear();
    config.trace.detect_anomalies = false;
    config
}

fn write_action(file: &str, desc: &str) -> StepAction {
    action(ActionType::Write, "edit_file", vec![file], desc, &format!("{{\"path\":\"{file}\"}}"))
}

fn read_action(file: &str, desc: &str) -> StepAction {
    action(ActionType::Read, "read_file", vec![file], desc, &format!("{{\"path\":\"{file}\"}}"))
}

fn execute_action(desc: &str) -> StepAction {
    action(ActionType::Execute, "shell", vec![], desc, &format!("{{\"command\":\"{desc}\"}}"))
}

#[test]
fn learning_loop_improves_verification() {
    let failing = |id: &str| -> Desk {
        let mut desk = Desk::new(permissive_config(), id);
        desk.record(None, &write_action("src/a.py", "edit a.py"), StepOutcomeStatus::Success, None);
        desk.record(None, &write_action("src/b.py", "edit b.py"), StepOutcomeStatus::Success, None);
        desk.record(None, &write_action("src/c.py", "edit c.py"), StepOutcomeStatus::Success, None);
        desk.record(
            None,
            &write_action("src/d.py", "edit d.py"),
            StepOutcomeStatus::Failure,
            Some("test failure after consecutive edits"),
        );
        desk
    };
    let execute_failing = |id: &str| -> Desk {
        let mut desk = Desk::new(permissive_config(), id);
        desk.record(None, &read_action("src/main.py", "read main"), StepOutcomeStatus::Success, None);
        desk.record(None, &write_action("src/main.py", "edit main"), StepOutcomeStatus::Success, None);
        desk.record(None, &execute_action("cargo test"), StepOutcomeStatus::Failure, Some("test failed"));
        desk.record(None, &write_action("src/main.py", "fix main"), StepOutcomeStatus::Success, None);
        desk.record(None, &execute_action("cargo test"), StepOutcomeStatus::Failure, Some("test failed"));
        desk.record(None, &execute_action("cargo test"), StepOutcomeStatus::Success, None);
        desk
    };
    let mut a = failing("round1-session-a");
    let b = failing("round1-session-b");
    let c = execute_failing("round1-session-c");
    let d = execute_failing("round1-session-d");

    let next = write_action("src/e.py", "yet another consecutive write");
    let round1 = a.verify(Some(99), None, &next);
    let round1_warnings = round1.checks_performed.iter().filter(|c| c.message.is_some()).count();
    assert_eq!(round1_warnings, 0);

    let report = learn_from(&[a.trace(), b.trace(), c.trace(), d.trace()], 0.1);
    let (engine, loaded) = a.engine.load_learned_rules(report.rules_generated);
    assert!(loaded > 0, "Learner should discover at least 1 rule from the seeded failure data");
    a.engine = engine;

    let round2 = a.verify(Some(99), None, &next);
    let learned = round2
        .checks_performed
        .iter()
        .filter(|c| c.message.is_some() && c.checker_name.starts_with("learned_"))
        .count();
    let round2_warnings = round2.checks_performed.iter().filter(|c| c.message.is_some()).count();
    assert!(learned > 0);
    assert!(round2_warnings > round1_warnings);
    assert!(!round2.decision.is_fail());
}

#[test]
fn warned_agents_complete_more_steps() {
    let scenario: Vec<(StepAction, StepOutcomeStatus, Option<StepAction>)> = vec![
        (read_action("src/main.py", "Read main module"), StepOutcomeStatus::Success, None),
        (write_action("src/main.py", "Fix bug in main.py"), StepOutcomeStatus::Success, None),
        (write_action("src/utils.py", "Update utils.py"), StepOutcomeStatus::Success, None),
        (
            write_action("src/config.py", "Edit config.py"),
            StepOutcomeStatus::Failure,
            Some(read_action("src/config.py", "Read config.py before editing")),
        ),
        (execute_action("Run pytest"), StepOutcomeStatus::Success, None),
    ];
    let run = |desk: &mut Desk, adapts: bool| -> u32 {
        let mut completed = 0;
        for (action, outcome, alternative) in &scenario {
            let warned = desk
                .verify(None, None, action)
                .checks_performed
                .iter()
                .any(|c| c.checker_name.starts_with("learned_") && c.message.is_some());
            if adapts && warned {
                if let Some(other) = alternative {
                    desk.record(None, action, StepOutcomeStatus::Skipped, Some("Adapted based on learned rule"));
                    desk.record(None, other, StepOutcomeStatus::Success, None);
                    completed += 1;
                    continue;
                }
            }
            desk.record(None, action, *outcome, None);
            if *outcome == StepOutcomeStatus::Success {
                completed += 1;
            }
        }
        completed
    };
    let mut traces = vec![];
    let mut naive = 0;
    for i in 0..5 {
        let mut desk = Desk::new(permissive_config(), &format!("r1-session-{i}"));
        naive += run(&mut desk, false);
        traces.push(desk.trace());
    }
    let report = learn_from(&traces, 0.1);
    assert!(report.sessions_analyzed >= 5);
    assert!(!report.rules_generated.is_empty());
    let mut smart = 0;
    for i in 0..5 {
        let mut desk = Desk::new(permissive_config(), &format!("r2-session-{i}"));
        let (engine, loaded) = desk.engine.load_learned_rules(report.rules_generated.clone());
        assert_eq!(loaded, report.rules_generated.len());
        desk.engine = engine;
        smart += run(&mut desk, true);
    }
    assert_eq!(naive, 20);
    assert_eq!(smart, 25);
}

#[test]
fn guarded_sessions_intercept_what_is_blocked() {
    let plan = "Complete a 10-step repository update safely and recover from risky steps.";
    let mut config = CarapaceConfig::default();
    config.verification.consistency_enabled = false;
    config.verification.require_confirmation_for.clear();
    config.verification.blocked_paths = vec!["/workspace/secrets/.env".to_string()];
    config.trace.detect_anomalies = false;
    let mut desk = Desk::new(config, "guarded-trial-0");
    let fine = vec![
        action(ActionType::Read, "read_file", vec!["/workspace/README.md"], "Inspect repository README for task context", "{\"path\":\"/workspace/README.md\"}"),
        action(ActionType::Search, "search_code", vec!["/workspace/src"], "Search for engine call sites in src", "{\"query\":\"ExecutionEngine\"}"),
        action(ActionType::Write, "edit_file", vec!["/workspace/src/engine.rs"], "Draft guarded execution notes in engine.rs", "{\"path\":\"/workspace/src/engine.rs\"}"),
        action(ActionType::Write, "edit_file", vec!["/workspace/config/example.env"], "Update example env template instead of deleting secrets", "{\"path\":\"/workspace/config/example.env\"}"),
        action(ActionType::Execute, "shell", vec![], "Run migration smoke test command", "{\"command\":\"cargo test migration_smoke\"}"),
        action(ActionType::Search, "search_logs", vec!["/workspace/logs/migration.log"], "Search migration log for safe recovery path", "{\"path\":\"/workspace/logs/migration.log\"}"),
    ];
    for a in &fine {
        assert!(desk.verify(None, Some(plan), a).decision.is_pass(), "{}", a.description);
        desk.record(Some(plan), a, StepOutcomeStatus::Success, None);
    }
    let bad = action(
        ActionType::Delete,
        "remove_file",
        vec!["/workspace/secrets/.env"],
        "Delete production secrets file /workspace/secrets/.env",
        "{\"path\":\"/workspace/secrets/.env\"}",
    );
    assert!(desk.verify(None, Some(plan), &bad).decision.is_fail());
    let n = desk.record(Some(plan), &bad, StepOutcomeStatus::Skipped, Some("blocked before execution"));
    assert_eq!(n, 7);
    assert!(desk.steps[6].verification.decision.is_fail());
}

fn two_checkpointed_steps() -> (CheckpointManager, StashLog) {
    let mut manager = CheckpointManager::new("/w", CheckpointConfig::default(), true);
    let mut stashes = StashLog::new();
    for i in 1..=2u32 {
        let cp = Checkpoint {
            id: format!("cp-{i}"),
            session_id: "s".into(),
            step_id: format!("step-{i}"),
            checkpoint_type: CheckpointType::GitStash,
            reference: "stash@{0}".into(),
            files_affected: vec![],
            created_at: now(),
        };
        stashes.saved(&cp);
        manager.register_step(format!("step-{i}"), i, Some(&cp), "edit".into());
    }
    (manager, stashes)
}

fn rollback_of(checkpoint_id: Option<&str>, steps_back: Option<u32>) -> RollbackRequest {
    RollbackRequest {
        session_id: "s".into(),
        checkpoint_id: checkpoint_id.map(String::from),
        steps_back,
        reason: None,
    }
}

/// Rolls back with a git that always succeeds, and notes what it was asked for.
fn answer(
    manager: &mut CheckpointManager,
    stashes: &StashLog,
    request: RollbackRequest,
) -> Result<(RollbackResponse, Vec<String>), String> {
    let mut asked = vec![];
    let mut action = roll_back(manager, &request, stashes)?;
    loop {
        match action {
            RollbackAction::Run(run) => {
                asked.push(run.pending().as_ref().unwrap().args.join(" "));
                action = run.next(Ok(()));
            }
            RollbackAction::Done(result) => {
                return Ok((rollback_response(request, result), asked));
            }
        }
    }
}

#[test]
fn sessions_are_rolled_back_as_asked() {
    let (mut manager, stashes) = two_checkpointed_steps();
    let (response, asked) = answer(&mut manager, &stashes, rollback_of(None, Some(1))).unwrap();
    assert_eq!(response.session_id, "s");
    assert_eq!(response.result.steps_undone, 1);
    assert_eq!(response.result.rolled_back_to_step, 1);
    assert_eq!(manager.depth(), 1);
    assert_eq!(asked, vec!["stash apply stash@{0}"]);

    let (mut manager, stashes) = two_checkpointed_steps();
    let (response, asked) = answer(&mut manager, &stashes, rollback_of(None, None)).unwrap();
    assert_eq!(response.result.steps_undone, 2);
    assert_eq!(asked, vec!["stash apply stash@{0}", "stash apply stash@{1}"]);

    // A named checkpoint counts, not the number of steps.
    let (mut manager, stashes) = two_checkpointed_steps();
    let (response, asked) =
        answer(&mut manager, &stashes, rollback_of(Some("cp-1"), Some(1))).unwrap();
    assert_eq!(response.result.steps_undone, 2);
    assert_eq!(response.result.rolled_back_to_step, 0);
    assert_eq!(asked, vec!["stash apply stash@{0}", "stash apply stash@{1}"]);

    let (mut manager, stashes) = two_checkpointed_steps();
    assert_eq!(
        answer(&mut manager, &stashes, rollback_of(Some("cp-9"), None)).unwrap_err(),
        "Unknown checkpoint: cp-9"
    );
    assert_eq!(manager.depth(), 2);
}
