use carapace::number::{Real, Timestamp};
use carapace::storage::{
    anomaly_columns, anomaly_type_label, checkpoint_row, checkpoint_type_label, checkpoint_type_of,
    oldest_first, result_label, severity_label, step_columns, summarize_steps, verification_label,
    CheckpointRow, SessionRow, StepRow, SummaryRow,
};
use carapace::types::{
    ActionType, Anomaly, AnomalyType, Checkpoint, CheckpointType, Severity, StepAction, StepResult,
    TraceEntry, VerificationDecision, VerificationOutcome,
};

fn now() -> Timestamp {
    Timestamp::from_parts(1_700_000_000, 5).unwrap()
}

fn action(description: &str) -> StepAction {
    StepAction {
        action_type: ActionType::Write,
        tool_name: Some("edit_file".into()),
        arguments: "{\"line_count\":1}".into(),
        target_files: vec!["src/a.rs".into()],
        description: description.into(),
    }
}

fn outcome() -> VerificationOutcome {
    VerificationOutcome {
        decision: VerificationDecision::Warn { reasons: vec!["r".into()] },
        checks_performed: vec![],
        duration_ms: 1,
    }
}

fn entry(number: u32, description: &str) -> TraceEntry {
    TraceEntry {
        step_id: format!("step-{number}"),
        session_id: "s".into(),
        step_number: number,
        action: action(description),
        reason: None,
        verification: outcome(),
        checkpoint_id: None,
        result: StepResult::Failure { error: "e".into() },
        tokens_used: u64::MAX,
        cost_usd: Real { bits: 0 },
        duration_ms: 5,
        timestamp: now(),
    }
}

fn row(created_at: &str) -> StepRow {
    StepRow {
        id: "step-1".into(),
        session_id: "s".into(),
        step_number: 3,
        reason: Some("why".into()),
        checkpoint_id: Some("cp".into()),
        tokens_used: -1,
        cost_usd: Real { bits: 0.25f64.to_bits() },
        duration_ms: 9,
        created_at: created_at.into(),
    }
}

fn checkpoint(kind: CheckpointType, files: Vec<&str>) -> Checkpoint {
    Checkpoint {
        id: "cp-1".into(),
        session_id: "session-3".into(),
        step_id: "step-1".into(),
        checkpoint_type: kind,
        reference: "abc123".into(),
        files_affected: files.into_iter().map(String::from).collect(),
        created_at: now(),
    }
}

#[test]
fn labels() {
    assert_eq!(verification_label(&VerificationDecision::Pass), "pass");
    assert_eq!(verification_label(&VerificationDecision::Warn { reasons: vec![] }), "warn");
    assert_eq!(
        verification_label(&VerificationDecision::Fail { reasons: vec![], suggestions: vec![] }),
        "fail"
    );
    assert_eq!(result_label(&StepResult::Success), "success");
    assert_eq!(result_label(&StepResult::Failure { error: "".into() }), "failure");
    assert_eq!(result_label(&StepResult::RolledBack { reason: "".into() }), "rolled_back");
    assert_eq!(result_label(&StepResult::Skipped { reason: "".into() }), "skipped");
    assert_eq!(anomaly_type_label(&AnomalyType::GoalDrift), "goal_drift");
    assert_eq!(anomaly_type_label(&AnomalyType::LoopTrap), "loop_trap");
    assert_eq!(anomaly_type_label(&AnomalyType::TokenSpike), "token_spike");
    assert_eq!(anomaly_type_label(&AnomalyType::PlanDeviation), "plan_deviation");
    assert_eq!(anomaly_type_label(&AnomalyType::ConsistencyViolation), "consistency_violation");
    assert_eq!(severity_label(&Severity::Info), "info");
    assert_eq!(severity_label(&Severity::Warning), "warning");
    assert_eq!(severity_label(&Severity::Critical), "critical");
}

#[test]
fn checkpoint_types_come_back_from_their_names() {
    for t in [CheckpointType::GitStash, CheckpointType::GitCommit, CheckpointType::FileCopy] {
        assert_eq!(checkpoint_type_of(checkpoint_type_label(&t)), Ok(t));
    }
    assert_eq!(checkpoint_type_label(&CheckpointType::FileCopy), "file_copy");
    assert_eq!(
        checkpoint_type_of("tape"),
        Err("unknown checkpoint type: tape".to_string())
    );
}

#[test]
fn stored_checkpoints_come_back() {
    for kind in [CheckpointType::GitStash, CheckpointType::GitCommit, CheckpointType::FileCopy] {
        let cp = checkpoint(kind, vec!["src/lib.rs", "we\"ird, \u{e4}.txt", ""]);
        let mut row = checkpoint_row(&cp);
        row.created_at = "2024-02-03 04:05:06".into();
        let loaded = row.into_checkpoint(now()).unwrap();
        assert_eq!(loaded.id, cp.id);
        assert_eq!(loaded.session_id, cp.session_id);
        assert_eq!(loaded.step_id, cp.step_id);
        assert_eq!(loaded.checkpoint_type, cp.checkpoint_type);
        assert_eq!(loaded.reference, cp.reference);
        assert_eq!(loaded.files_affected, cp.files_affected);
        assert_eq!(loaded.created_at.seconds(), 1_706_933_106);
    }
    let row = checkpoint_row(&checkpoint(CheckpointType::GitStash, vec!["a", "b"]));
    assert_eq!(row.files_affected.as_deref(), Some("[\"a\",\"b\"]"));
}

#[test]
fn broken_checkpoints_are_refused() {
    let broken = |kind: &str, files: Option<&str>| CheckpointRow {
        id: "c".into(),
        session_id: "s".into(),
        step_id: "t".into(),
        checkpoint_type: kind.into(),
        reference: "r".into(),
        files_affected: files.map(String::from),
        created_at: "never".into(),
    };
    assert_eq!(
        broken("tape", Some("[")).into_checkpoint(now()).unwrap_err(),
        "unknown checkpoint type: tape"
    );
    let expected = serde_json::from_str::<Vec<String>>("[1]").unwrap_err().to_string();
    assert_eq!(broken("git_stash", Some("[1]")).into_checkpoint(now()).unwrap_err(), expected);
    let loaded = broken("git_stash", None).into_checkpoint(now()).unwrap();
    assert!(loaded.files_affected.is_empty());
    assert_eq!(loaded.created_at.seconds(), now().seconds());
    assert_eq!(loaded.created_at.nanos(), 5);
    assert_eq!(
        broken("git_stash", None).with_files(Err("gone".into()), now()).unwrap_err(),
        "gone"
    );
    let loaded = broken("git_commit", None).with_files(Ok(vec!["f".into()]), now()).unwrap();
    assert_eq!(loaded.files_affected, vec!["f".to_string()]);
}

#[test]
fn sessions() {
    let r = SessionRow {
        id: "s".into(),
        agent_name: Some("a".into()),
        working_dir: "/w".into(),
        status: "active".into(),
    }
    .into_session_record();
    assert_eq!(r.session_id, "s");
    assert_eq!(r.agent_name.as_deref(), Some("a"));
    assert_eq!(r.working_dir, "/w");
    assert_eq!(r.status, "active");
}

#[test]
fn stored_steps_come_back() {
    let e = row("2024-02-03 04:05:06").into_trace_entry(action("d"), outcome(), StepResult::Success, now());
    assert_eq!(e.step_id, "step-1");
    assert_eq!(e.step_number, 3);
    assert_eq!(e.reason.as_deref(), Some("why"));
    assert_eq!(e.checkpoint_id.as_deref(), Some("cp"));
    assert_eq!(e.tokens_used, u64::MAX);
    assert_eq!(e.duration_ms, 9);
    assert_eq!(f64::from_bits(e.cost_usd.bits), 0.25);
    assert_eq!(e.timestamp.seconds(), 1_706_933_106);
    assert_eq!(e.action.description, "d");
    assert!(e.result.is_success());
    let e = row("soon").into_trace_entry(action("d"), outcome(), StepResult::Success, now());
    assert_eq!(e.timestamp.nanos(), 5);
}

#[test]
fn stored_numbers_keep_their_bits() {
    let c = step_columns(&entry(u32::MAX, "d"));
    assert_eq!(c.step_number, 4_294_967_295);
    assert_eq!(c.tokens_used, -1);
    assert_eq!(c.duration_ms, 5);
    assert_eq!(c.verification_result, "warn");
    assert_eq!(c.result, "failure");
}

#[test]
fn recent_steps_are_given_oldest_first() {
    let steps = oldest_first(vec![entry(3, "c"), entry(2, "b"), entry(1, "a")]);
    let numbers: Vec<u32> = steps.iter().map(|s| s.step_number).collect();
    assert_eq!(numbers, vec![1, 2, 3]);
    let summaries = summarize_steps(&steps);
    assert_eq!(summaries.len(), 3);
    assert_eq!(summaries[0].step_number, 1);
    assert_eq!(summaries[2].description, "c");
    assert!(matches!(summaries[1].action_type, ActionType::Write));
    assert!(!summaries[1].result.is_success());
    assert!(oldest_first(vec![]).is_empty());
}

#[test]
fn summaries() {
    let r = SummaryRow {
        total_steps: 5,
        successful_steps: 3,
        failed_steps: 1,
        rollbacks: 1,
        interceptions: 2,
        total_tokens: 42,
        total_cost: Real { bits: 0.5f64.to_bits() },
        total_duration: 77,
    };
    let s = r.into_summary("s", 4);
    assert_eq!(s.session_id, "s");
    assert_eq!(s.total_steps, 5);
    assert_eq!(s.successful_steps, 3);
    assert_eq!(s.failed_steps, 1);
    assert_eq!(s.rollbacks, 1);
    assert_eq!(s.verifier_interceptions, 2);
    assert_eq!(s.anomalies_detected, 4);
    assert_eq!(s.total_tokens, 42);
    assert_eq!(f64::from_bits(s.total_cost_usd.bits), 0.5);
    assert_eq!(s.total_duration_ms, 77);
}

#[test]
fn anomalies_get_an_identifier() {
    let a = Anomaly {
        anomaly_type: AnomalyType::LoopTrap,
        severity: Severity::Critical,
        detail: "d".into(),
        step_id: None,
        detected_at: now(),
    };
    let c = anomaly_columns(&a);
    assert_eq!(c.id.len(), 36);
    assert_eq!(c.anomaly_type, "loop_trap");
    assert_eq!(c.severity, "critical");
}
