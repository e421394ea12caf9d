use carapace::cli::{
    after_run, after_verification, anomaly_lines, checked_args, first_token, normalize_command,
    parse_args_json, render_exit_status, shell_escape, step_number_or_next, summary_lines,
    verification_lines, wrap_action, wrap_context, wrapped_agent, RunOutcome, WrapStep,
};
use carapace::number::{Real, Timestamp};
use carapace::types::{
    ActionType, Anomaly, AnomalyType, SessionSummary, Severity, StepResult, StepSummary,
    VerificationDecision, VerificationOutcome,
};

fn now() -> Timestamp {
    Timestamp::from_parts(0, 0).unwrap()
}

fn strings(list: Vec<&str>) -> Vec<String> {
    list.into_iter().map(String::from).collect()
}

fn outcome(decision: VerificationDecision) -> VerificationOutcome {
    VerificationOutcome { decision, checks_performed: vec![], duration_ms: 3 }
}

fn fail() -> VerificationDecision {
    VerificationDecision::Fail { reasons: strings(vec!["no"]), suggestions: strings(vec!["yes"]) }
}

#[test]
fn commands_are_normalized() {
    assert_eq!(normalize_command(&strings(vec!["  ls -la  "])), Ok("ls -la".to_string()));
    assert_eq!(
        normalize_command(&strings(vec!["git", " ", "commit", "-m", "it's done", ""])),
        Ok("git commit -m 'it'\"'\"'s done'".to_string())
    );
    assert_eq!(
        normalize_command(&strings(vec![" ", ""])),
        Err("No wrapped command provided".to_string())
    );
    assert_eq!(normalize_command(&vec![]), Err("No wrapped command provided".to_string()));
}

#[test]
fn words_are_escaped_for_a_shell() {
    assert_eq!(shell_escape(""), "''");
    assert_eq!(shell_escape("a_B-9./:"), "a_B-9./:");
    assert_eq!(shell_escape("a b"), "'a b'");
    assert_eq!(shell_escape("$x"), "'$x'");
    assert_eq!(shell_escape("'"), "''\"'\"''");
    assert_eq!(shell_escape("\u{e4}"), "'\u{e4}'");
}

/// Drops the quotes of a line without special characters and divides it at spaces.
fn read_line(line: &str) -> Vec<String> {
    let mut words = vec![String::new()];
    let mut quote: Option<char> = None;
    for c in line.chars() {
        match quote {
            None if c == ' ' => words.push(String::new()),
            None if c == '\'' || c == '"' => quote = Some(c),
            Some(q) if c == q => quote = None,
            _ => words.last_mut().unwrap().push(c),
        }
    }
    assert!(quote.is_none());
    words
}

#[test]
fn a_shell_reads_the_words_back() {
    let parts = strings(vec!["echo", "it's", "a \"b\" c", "$HOME `x` \\", "''", "x;y|z&"]);
    let line = normalize_command(&parts).unwrap();
    assert_eq!(read_line(&line), parts);
}

#[test]
fn first_words() {
    assert_eq!(first_token("  cargo\ttest"), Some("cargo".to_string()));
    assert_eq!(first_token("   "), None);
    assert_eq!(wrapped_agent(None, "agent --x"), Some("agent".to_string()));
    assert_eq!(wrapped_agent(Some("me".into()), "agent --x"), Some("me".to_string()));
    assert_eq!(wrapped_agent(None, ""), None);
}

#[test]
fn exit_codes_in_words() {
    assert_eq!(render_exit_status(Some(0)), "0");
    assert_eq!(render_exit_status(Some(-1)), "-1");
    assert_eq!(render_exit_status(Some(i32::MIN)), "-2147483648");
    assert_eq!(render_exit_status(Some(i32::MAX)), "2147483647");
    assert_eq!(render_exit_status(None), "terminated by signal");
}

#[test]
fn arguments_must_be_json() {
    let expected: serde_json::Value = serde_json::from_str("{\"b\":1,\"a\":[true]}").unwrap();
    assert_eq!(parse_args_json(" { \"b\" : 1, \"a\": [ true ] } "), Ok(expected.to_string()));
    assert_eq!(parse_args_json("7"), Ok("7".to_string()));
    assert_eq!(
        parse_args_json("{"),
        Err("Expected --args-json to be valid JSON".to_string())
    );
    assert!(checked_args(None).is_err());
    assert_eq!(checked_args(Some("x".into())), Ok("x".to_string()));
}

#[test]
fn verdicts_are_shown() {
    assert_eq!(
        verification_lines(&outcome(VerificationDecision::Pass)),
        strings(vec!["Verification: pass"])
    );
    assert_eq!(
        verification_lines(&outcome(VerificationDecision::Warn { reasons: strings(vec!["a", "b"]) })),
        strings(vec!["Verification: warn", "- a", "- b"])
    );
    assert_eq!(
        verification_lines(&outcome(fail())),
        strings(vec!["Verification: fail", "- no", "  suggestion: yes"])
    );
}

#[test]
fn anomalies_are_shown() {
    assert!(anomaly_lines(&[]).is_empty());
    let a = |kind: AnomalyType, severity: Severity| Anomaly {
        anomaly_type: kind,
        severity,
        detail: "d".into(),
        step_id: None,
        detected_at: now(),
    };
    assert_eq!(
        anomaly_lines(&[
            a(AnomalyType::LoopTrap, Severity::Critical),
            a(AnomalyType::GoalDrift, Severity::Info),
            a(AnomalyType::TokenSpike, Severity::Warning),
            a(AnomalyType::PlanDeviation, Severity::Info),
            a(AnomalyType::ConsistencyViolation, Severity::Info),
        ]),
        strings(vec![
            "Anomalies:",
            "- LoopTrap (Critical): d",
            "- GoalDrift (Info): d",
            "- TokenSpike (Warning): d",
            "- PlanDeviation (Info): d",
            "- ConsistencyViolation (Info): d",
        ])
    );
}

#[test]
fn summaries_are_shown() {
    let s = SessionSummary {
        session_id: "s".into(),
        total_steps: 10,
        successful_steps: 7,
        failed_steps: 1,
        rollbacks: 2,
        verifier_interceptions: 3,
        anomalies_detected: 4,
        total_tokens: 12345,
        total_cost_usd: Real { bits: 0.5f64.to_bits() },
        total_duration_ms: 99,
    };
    let cost = format!("{:.4}", f64::from_bits(s.total_cost_usd.bits));
    assert_eq!(
        summary_lines(&s, &cost),
        strings(vec![
            "Session: s",
            "Steps: 10",
            "Successful: 7",
            "Failed: 1",
            "Rollbacks: 2",
            "Verifier interceptions: 3",
            "Anomalies: 4",
            "Tokens: 12345",
            "Cost (USD): 0.5000",
            "Duration (ms): 99",
        ])
    );
}

#[test]
fn steps_to_verify_are_numbered() {
    let step = StepSummary {
        step_number: 9,
        action_type: ActionType::Read,
        description: "d".into(),
        result: StepResult::Success,
    };
    assert_eq!(step_number_or_next(None, &vec![]), 1);
    assert_eq!(step_number_or_next(None, &vec![step.clone(), step.clone()]), 3);
    assert_eq!(step_number_or_next(Some(7), &vec![step]), 7);
}

#[test]
fn wrapped_commands_become_actions() {
    let a = wrap_action("echo \"hi\"", "/c.yaml", strings(vec!["f"]));
    assert!(matches!(a.action_type, ActionType::Execute));
    assert_eq!(a.tool_name.as_deref(), Some("wrap"));
    assert_eq!(a.description, "Execute wrapped command: echo \"hi\"");
    assert_eq!(a.target_files, strings(vec!["f"]));
    let args: serde_json::Value = serde_json::from_str(&a.arguments).unwrap();
    assert_eq!(args.get("command").and_then(|v| v.as_str()), Some("echo \"hi\""));
    assert_eq!(args.get("shell").and_then(|v| v.as_str()), Some("sh -lc"));
    assert_eq!(args.get("config_path").and_then(|v| v.as_str()), Some("/c.yaml"));
    assert_eq!(a.arguments, args.to_string());

    let c = wrap_context("s", "/w", &Some("me".into()), Some("p".into()));
    assert_eq!(c.step_number, 1);
    assert_eq!(c.session_id, "s");
    assert_eq!(c.working_dir, "/w");
    assert_eq!(c.agent_name.as_deref(), Some("me"));
    assert_eq!(c.plan.as_deref(), Some("p"));
    assert!(c.previous_steps.is_empty());
}

#[test]
fn blocked_commands_do_not_run() {
    let a = wrap_action("rm -rf /", "/c", vec![]);
    match after_verification("s", a.clone(), outcome(fail()), now()) {
        WrapStep::Blocked(end) => {
            assert_eq!(end.exit, Ok(2));
            assert_eq!(end.session_status, "blocked");
            assert_eq!(end.entry.result, StepResult::Skipped { reason: "Blocked before execution".into() });
            assert_eq!(end.entry.reason.as_deref(), Some("Verification blocked wrapped command"));
            assert_eq!(end.entry.session_id, "s");
            assert_eq!(end.entry.step_number, 1);
            assert_eq!(end.entry.duration_ms, 0);
        }
        WrapStep::Run(..) => panic!("not blocked"),
    }
    let warn = VerificationDecision::Warn { reasons: vec![] };
    assert!(matches!(after_verification("s", a, outcome(warn), now()), WrapStep::Run(..)));
}

#[test]
fn wrapped_commands_end() {
    let end = |o: RunOutcome| after_run("s", wrap_action("x", "/c", vec![]), outcome(VerificationDecision::Pass), o, 12, now());
    let e = end(RunOutcome::Exited(Some(0)));
    assert_eq!(e.exit, Ok(0));
    assert_eq!(e.session_status, "completed");
    assert!(e.entry.result.is_success());
    assert_eq!(e.entry.duration_ms, 12);
    assert_eq!(e.entry.reason.as_deref(), Some("Executed via carapace wrap"));
    let e = end(RunOutcome::Exited(Some(3)));
    assert_eq!(e.exit, Ok(3));
    assert_eq!(e.session_status, "failed");
    assert_eq!(e.entry.result, StepResult::Failure { error: "Command exited with status 3".into() });
    let e = end(RunOutcome::Exited(None));
    assert_eq!(e.exit, Ok(1));
    assert_eq!(
        e.entry.result,
        StepResult::Failure { error: "Command exited with status terminated by signal".into() }
    );
    let e = end(RunOutcome::NotStarted("no sh".into()));
    assert_eq!(e.exit, Err("Wrapped command failed to start".to_string()));
    assert_eq!(e.session_status, "failed");
    assert_eq!(
        e.entry.result,
        StepResult::Failure { error: "Failed to spawn wrapped command: no sh".into() }
    );
}
