use carapace::learner::patterns::{
    analyze_sessions, detect_failure_after_action_type, detect_missing_test_after_edit,
    patterns_from, FailurePattern, LearnedSuggestion, Measure, Measures, SessionTrace,
};
use carapace::learner::persist::rules_path;
use carapace::learner::rules::{
    evaluate_rule, generate_rules, is_source_name, is_test_run, suggestion_to_check, test_reminder,
    LearnedCheck, LearnedRule,
};
use carapace::learner::tally::{
    count_action_types, count_consecutive_writes, count_repeated_edits, count_source_edits,
    count_unprotected_sessions, find_worst, has_test_after, is_small, tally_sessions, ActionTally,
    Tallies, Tally,
};
use carapace::learner::{learn, trace_of};
use carapace::number::{Real, Timestamp};
use carapace::types::{
    ActionType, ExecutionContext, StepAction, StepResult, StepSummary, TraceEntry,
    VerificationDecision, VerificationOutcome,
};

fn to_real(x: f64) -> Real {
    Real { bits: x.to_bits() }
}

fn value(r: Real) -> f64 {
    f64::from_bits(r.bits)
}

fn measure(t: Tally) -> Measure {
    let rate = t.failed as f64 / t.total as f64;
    let confidence = ((1.0 - (1.0 / (1.0 + t.total as f64))) * rate).clamp(0.0, 1.0);
    Measure {
        rate: to_real(rate),
        confidence: to_real(confidence),
        percent: format!("{:.0}", rate * 100.0),
    }
}

fn measures(t: &Tallies) -> Measures {
    let tested_rate = if t.tested.total > 0 { t.tested.failed as f64 / t.tested.total as f64 } else { 0.0 };
    let untested_rate = if t.untested.total > 0 { t.untested.failed as f64 / t.untested.total as f64 } else { 0.0 };
    Measures {
        writes: measure(t.writes),
        repeats: measure(t.repeats),
        untested: measure(t.untested),
        tested_percent: format!("{:.0}", tested_rate * 100.0),
        untested_is_worse: !(untested_rate <= tested_rate + 0.1),
        unprotected: measure(t.unprotected),
        worst: measure(t.worst.as_ref().map(|w| w.tally).unwrap_or(Tally { total: 0, failed: 0 })),
    }
}

fn analyze(sessions: &[SessionTrace]) -> Vec<FailurePattern> {
    assert!(is_small(sessions));
    let m = measures(&tally_sessions(sessions));
    analyze_sessions(sessions, &m)
}

fn make_step(
    num: u32,
    action_type: ActionType,
    desc: &str,
    files: Vec<&str>,
    success: bool,
    checkpoint: bool,
) -> TraceEntry {
    TraceEntry {
        step_id: format!("step-{num}"),
        session_id: "test-session".into(),
        step_number: num,
        action: StepAction {
            action_type,
            tool_name: None,
            arguments: "{}".into(),
            target_files: files.into_iter().map(String::from).collect(),
            description: desc.into(),
        },
        reason: None,
        verification: VerificationOutcome {
            decision: VerificationDecision::Pass,
            checks_performed: vec![],
            duration_ms: 0,
        },
        checkpoint_id: if checkpoint { Some(format!("cp-{num}")) } else { None },
        result: if success {
            StepResult::Success
        } else {
            StepResult::Failure { error: "test failure".into() }
        },
        tokens_used: 100,
        cost_usd: to_real(0.01),
        duration_ms: 10,
        timestamp: Timestamp::from_parts(0, 0).unwrap(),
    }
}

fn session(steps: Vec<TraceEntry>) -> SessionTrace {
    SessionTrace { session_id: "s".into(), steps }
}

#[test]
fn detects_consecutive_writes() {
    let sessions = vec![
        SessionTrace {
            session_id: "s1".into(),
            steps: vec![
                make_step(1, ActionType::Write, "edit a", vec!["a.py"], true, false),
                make_step(2, ActionType::Write, "edit b", vec!["b.py"], true, false),
                make_step(3, ActionType::Write, "edit c", vec!["c.py"], false, false),
                make_step(4, ActionType::Write, "edit d", vec!["d.py"], false, false),
            ],
        },
        SessionTrace {
            session_id: "s2".into(),
            steps: vec![
                make_step(1, ActionType::Write, "edit a", vec!["a.py"], true, false),
                make_step(2, ActionType::Write, "edit b", vec!["b.py"], true, false),
                make_step(3, ActionType::Write, "edit c", vec!["c.py"], false, false),
            ],
        },
    ];

    let patterns = analyze(&sessions);
    let found = patterns.iter().find(|p| p.name == "consecutive_writes_without_read");
    assert!(found.is_some(), "should detect consecutive writes pattern");
    assert!(value(found.unwrap().failure_rate) > 0.0);
    assert_eq!(
        found.unwrap().description,
        "3+ consecutive writes without a read: 3/3 failed (100%)"
    );
}

#[test]
fn detects_high_failure_action_type() {
    let sessions = vec![SessionTrace {
        session_id: "s1".into(),
        steps: vec![
            make_step(1, ActionType::Read, "read", vec!["a.py"], true, false),
            make_step(2, ActionType::Read, "read", vec!["b.py"], true, false),
            make_step(3, ActionType::Read, "read", vec!["c.py"], true, false),
            make_step(4, ActionType::Execute, "run", vec![], false, false),
            make_step(5, ActionType::Execute, "run", vec![], false, false),
            make_step(6, ActionType::Execute, "run", vec![], true, false),
        ],
    }];

    let patterns = analyze(&sessions);
    let found = patterns.iter().find(|p| p.name == "high_failure_action_type");
    assert!(found.is_some());
    assert!(found.unwrap().description.contains("execute"));
    assert_eq!(found.unwrap().description, "Action type 'execute': 2/3 failed (67%)");
}

#[test]
fn no_patterns_from_clean_sessions() {
    let sessions = vec![SessionTrace {
        session_id: "s1".into(),
        steps: vec![
            make_step(1, ActionType::Read, "read", vec!["a.py"], true, false),
            make_step(2, ActionType::Write, "write", vec!["a.py"], true, true),
        ],
    }];

    let patterns = analyze(&sessions);
    assert!(patterns.is_empty(), "clean session should produce no warnings");
}

fn ctx_with_writes(count: u32) -> ExecutionContext {
    let previous = (1..=count)
        .map(|i| StepSummary {
            step_number: i,
            action_type: ActionType::Write,
            description: format!("edit file_{}.py", i),
            result: StepResult::Success,
        })
        .collect();

    ExecutionContext {
        session_id: "test".into(),
        step_number: count + 1,
        working_dir: "/workspace".into(),
        agent_name: None,
        plan: None,
        previous_steps: previous,
    }
}

#[test]
fn consecutive_write_rule_fires() {
    let rule = LearnedRule {
        name: "learned_consecutive_writes".into(),
        source_pattern: "consecutive_writes_without_read".into(),
        description: "3+ writes without read".into(),
        confidence: to_real(0.7),
        check: LearnedCheck::ConsecutiveWriteLimit { max: 3 },
    };

    let action = StepAction {
        action_type: ActionType::Write,
        tool_name: None,
        arguments: "{}".into(),
        target_files: vec!["new.py".into()],
        description: "another write".into(),
    };

    // 2 previous writes → rule should pass
    let result = evaluate_rule(&rule, &action, &ctx_with_writes(2));
    assert!(result.message.is_none());

    // 3 previous writes → rule should warn
    let result = evaluate_rule(&rule, &action, &ctx_with_writes(3));
    assert!(result.message.is_some());
    assert!(result.message.unwrap().contains("consecutive writes"));
}

#[test]
fn generate_rules_filters_by_confidence() {
    let patterns = vec![
        FailurePattern {
            name: "high_conf".into(),
            description: "high".into(),
            occurrences: 10,
            failure_rate: to_real(0.8),
            confidence: to_real(0.7),
            suggestion: LearnedSuggestion::WarnConsecutiveWrites { threshold: 3 },
        },
        FailurePattern {
            name: "low_conf".into(),
            description: "low".into(),
            occurrences: 2,
            failure_rate: to_real(0.3),
            confidence: to_real(0.1),
            suggestion: LearnedSuggestion::WarnConsecutiveWrites { threshold: 3 },
        },
    ];

    let rules = generate_rules(&patterns, to_real(0.5));
    assert_eq!(rules.len(), 1);
    assert_eq!(rules[0].name, "learned_high_conf");
}

fn rule(check: LearnedCheck) -> LearnedRule {
    LearnedRule {
        name: "learned_r".into(),
        source_pattern: "r".into(),
        description: "why".into(),
        confidence: to_real(0.5),
        check,
    }
}

fn action(kind: ActionType, files: Vec<&str>) -> StepAction {
    StepAction {
        action_type: kind,
        tool_name: None,
        arguments: "{}".into(),
        target_files: files.into_iter().map(String::from).collect(),
        description: "do".into(),
    }
}

fn ctx(steps: Vec<(ActionType, &str)>) -> ExecutionContext {
    let mut c = ctx_with_writes(0);
    c.previous_steps = steps
        .into_iter()
        .enumerate()
        .map(|(i, (kind, description))| StepSummary {
            step_number: i as u32 + 1,
            action_type: kind,
            description: description.into(),
            result: StepResult::Success,
        })
        .collect();
    c
}

fn message(r: &LearnedRule, a: &StepAction, c: &ExecutionContext) -> Option<String> {
    let result = evaluate_rule(r, a, c);
    assert!(result.passed);
    assert_eq!(result.checker_name, "learned_r");
    result.message
}

#[test]
fn the_write_limit_counts_trailing_writes_only() {
    let r = rule(LearnedCheck::ConsecutiveWriteLimit { max: 2 });
    let w = action(ActionType::Write, vec![]);
    let c = ctx(vec![(ActionType::Write, "a"), (ActionType::Read, "b"), (ActionType::Write, "c")]);
    assert_eq!(message(&r, &w, &c), None);
    let c = ctx(vec![(ActionType::Read, "b"), (ActionType::Write, "c"), (ActionType::Write, "d")]);
    assert_eq!(
        message(&r, &w, &c).unwrap(),
        "2+ consecutive writes without a read (learned: why)"
    );
    assert_eq!(message(&r, &action(ActionType::Read, vec![]), &c), None);
}

#[test]
fn the_edit_limit_counts_writes_that_name_the_file() {
    let r = rule(LearnedCheck::RepeatedFileEditLimit { max: 2 });
    let c = ctx(vec![
        (ActionType::Write, "edit b.rs"),
        (ActionType::Read, "read b.rs"),
        (ActionType::Write, "edit b.rs again"),
    ]);
    assert_eq!(
        message(&r, &action(ActionType::Write, vec!["a.rs", "b.rs"]), &c).unwrap(),
        "File 'b.rs' edited 3 times already (learned: why)"
    );
    assert_eq!(message(&r, &action(ActionType::Write, vec!["a.rs"]), &c), None);
}

#[test]
fn the_edit_limit_leaves_reads_alone() {
    let r = rule(LearnedCheck::RepeatedFileEditLimit { max: 3 });
    let c = ctx(vec![
        (ActionType::Write, "edit a.py"),
        (ActionType::Write, "edit a.py"),
        (ActionType::Write, "edit a.py"),
    ]);
    let look = StepAction { description: "look at a.py".into(), ..action(ActionType::Read, vec!["a.py"]) };
    let check = evaluate_rule(&r, &look, &c);
    assert!(check.passed);
    assert_eq!(check.message, None);
    assert_eq!(
        message(&r, &action(ActionType::Write, vec!["a.py"]), &c).unwrap(),
        "File 'a.py' edited 4 times already (learned: why)"
    );
    assert_eq!(message(&r, &action(ActionType::Delete, vec!["a.py"]), &c), None);
}

#[test]
fn edits_without_tests_are_pointed_out() {
    let r = rule(LearnedCheck::TestAfterSourceEdit);
    let untested = ctx(vec![(ActionType::Read, "a"), (ActionType::Read, "b"), (ActionType::Read, "c")]);
    let edit = action(ActionType::Write, vec!["SRC/Main.RS"]);
    assert_eq!(
        message(&r, &edit, &untested).unwrap(),
        "Source file edit without recent test run (learned: why)"
    );
    assert_eq!(message(&r, &action(ActionType::Write, vec!["test_a.py"]), &untested), None);
    assert_eq!(message(&r, &action(ActionType::Write, vec!["notes.md"]), &untested), None);
    assert_eq!(message(&r, &action(ActionType::Read, vec!["a.py"]), &untested), None);
    let early = ctx(vec![(ActionType::Read, "a"), (ActionType::Read, "b")]);
    assert_eq!(message(&r, &edit, &early), None);
    let tested = ctx(vec![(ActionType::Execute, "Run TESTS"), (ActionType::Read, "b"), (ActionType::Read, "c")]);
    assert_eq!(message(&r, &edit, &tested), None);
    let stale = ctx(vec![
        (ActionType::Execute, "run tests"),
        (ActionType::Read, "b"),
        (ActionType::Read, "c"),
        (ActionType::Read, "d"),
    ]);
    assert!(message(&r, &edit, &stale).is_some());
    assert!(test_reminder(&r, true, false, 3).message.is_some());
    assert!(test_reminder(&r, true, false, 2).message.is_none());
    assert!(test_reminder(&r, true, true, 9).message.is_none());
    assert!(is_source_name("a.ts") && is_source_name("a.js") && !is_source_name("a.tsx"));
    assert!(is_test_run(&ActionType::Execute, "PyTest") && !is_test_run(&ActionType::Read, "test"));
}

#[test]
fn checkpoints_are_due_after_the_interval() {
    let r = rule(LearnedCheck::PeriodicCheckpoint { interval: 2 });
    let a = action(ActionType::Read, vec![]);
    let c = ctx(vec![(ActionType::Read, "a"), (ActionType::Read, "save checkpoint"), (ActionType::Read, "b")]);
    assert_eq!(message(&r, &a, &c), None);
    let c = ctx(vec![(ActionType::Read, "checkpoint"), (ActionType::Read, "b"), (ActionType::Read, "c"), (ActionType::Read, "d")]);
    assert_eq!(
        message(&r, &a, &c).unwrap(),
        "3 steps since last checkpoint (learned: why)"
    );
    let always = rule(LearnedCheck::PeriodicCheckpoint { interval: 0 });
    assert_eq!(
        message(&always, &a, &ctx(vec![])).unwrap(),
        "0 steps since last checkpoint (learned: why)"
    );
}

#[test]
fn risky_action_types_are_pointed_out() {
    let r = rule(LearnedCheck::CheckpointBeforeAction { action_types: vec!["execute".into(), "deploy".into()] });
    assert_eq!(
        message(&r, &action(ActionType::Execute, vec![]), &ctx(vec![])).unwrap(),
        "Action type 'execute' has high failure rate — consider checkpoint (learned: why)"
    );
    assert!(message(&r, &action(ActionType::Other("deploy".into()), vec![]), &ctx(vec![])).is_some());
    assert_eq!(message(&r, &action(ActionType::Read, vec![]), &ctx(vec![])), None);
}

#[test]
fn suggestions_become_checks() {
    assert!(matches!(
        suggestion_to_check(&LearnedSuggestion::WarnConsecutiveWrites { threshold: 7 }),
        LearnedCheck::ConsecutiveWriteLimit { max: 7 }
    ));
    assert!(matches!(
        suggestion_to_check(&LearnedSuggestion::WarnRepeatedFileEdits { threshold: 8 }),
        LearnedCheck::RepeatedFileEditLimit { max: 8 }
    ));
    assert!(matches!(
        suggestion_to_check(&LearnedSuggestion::SuggestTestAfterEdit),
        LearnedCheck::TestAfterSourceEdit
    ));
    assert!(matches!(
        suggestion_to_check(&LearnedSuggestion::SuggestPeriodicCheckpoint { interval: 9 }),
        LearnedCheck::PeriodicCheckpoint { interval: 9 }
    ));
    match suggestion_to_check(&LearnedSuggestion::CheckpointBefore { action_types: vec!["x".into()] }) {
        LearnedCheck::CheckpointBeforeAction { action_types } => assert_eq!(action_types, vec!["x".to_string()]),
        _ => panic!("wrong check"),
    }
}

#[test]
fn write_runs_are_broken_by_reads_only() {
    let s = session(vec![
        make_step(1, ActionType::Write, "a", vec![], true, false),
        make_step(2, ActionType::Write, "b", vec![], true, false),
        make_step(3, ActionType::Execute, "c", vec![], true, false),
        make_step(4, ActionType::Write, "d", vec![], false, false),
        make_step(5, ActionType::Search, "e", vec![], true, false),
        make_step(6, ActionType::Write, "f", vec![], false, false),
        make_step(7, ActionType::Write, "g", vec![], false, false),
    ]);
    assert_eq!(count_consecutive_writes(&[s.clone()]), Tally { total: 1, failed: 1 });
    // Sessions are counted apart.
    assert_eq!(count_consecutive_writes(&[s.clone(), s]), Tally { total: 2, failed: 2 });
}

#[test]
fn repeated_edits_count_every_mention() {
    let s = session(vec![
        make_step(1, ActionType::Write, "a", vec!["x", "y"], true, false),
        make_step(2, ActionType::Write, "b", vec!["x", "x"], false, false),
        make_step(3, ActionType::Read, "c", vec!["y", "y"], true, false),
        make_step(4, ActionType::Write, "d", vec!["y", "x"], true, false),
    ]);
    assert_eq!(count_repeated_edits(&[s.clone()]), Tally { total: 2, failed: 1 });
    let patterns = analyze(&[s]);
    let p = patterns.iter().find(|p| p.name == "repeated_file_edits").unwrap();
    assert_eq!(p.description, "Same file edited 3+ times: 1/2 failed (50%)");
    assert_eq!(p.occurrences, 2);
}

#[test]
fn edits_are_tested_within_three_steps() {
    let steps = vec![
        make_step(1, ActionType::Write, "a", vec!["a.rs"], false, false),
        make_step(2, ActionType::Read, "b", vec![], true, false),
        make_step(3, ActionType::Read, "c", vec![], true, false),
        make_step(4, ActionType::Execute, "cargo TEST", vec![], true, false),
        make_step(5, ActionType::Write, "e", vec!["b.rs", "x.md"], false, false),
        make_step(6, ActionType::Write, "f", vec!["c.rs"], false, false),
        make_step(7, ActionType::Write, "g", vec!["my_test.rs"], false, false),
    ];
    assert!(has_test_after(&steps, 0));
    assert!(!has_test_after(&steps, 3));
    assert!(!has_test_after(&steps, 6));
    let s = session(steps);
    assert_eq!(count_source_edits(&[s.clone()], true), Tally { total: 1, failed: 1 });
    assert_eq!(count_source_edits(&[s], false), Tally { total: 2, failed: 2 });
}

#[test]
fn untested_edits_are_reported_where_they_are_worse() {
    let m = measure(Tally { total: 4, failed: 3 });
    let untested = Tally { total: 4, failed: 3 };
    let tested = Tally { total: 2, failed: 1 };
    let p = detect_missing_test_after_edit(untested, tested, &m, "50", true).unwrap();
    assert_eq!(
        p.description,
        "Source edits without test: 75% failure vs 50% with test (6 edits observed)"
    );
    assert_eq!(p.occurrences, 4);
    assert!(detect_missing_test_after_edit(untested, tested, &m, "50", false).is_none());
    assert!(detect_missing_test_after_edit(Tally { total: 1, failed: 1 }, tested, &m, "50", true).is_none());
    assert!(detect_missing_test_after_edit(Tally { total: 2, failed: 1 }, Tally { total: 0, failed: 0 }, &m, "0", true).is_none());
}

#[test]
fn long_sessions_without_checkpoints() {
    let plain = |bad: bool| session((1..=5).map(|i| make_step(i, ActionType::Read, "r", vec![], !(bad && i == 2), false)).collect());
    let guarded = session((1..=6).map(|i| make_step(i, ActionType::Read, "r", vec![], false, i == 3)).collect());
    let short = session((1..=4).map(|i| make_step(i, ActionType::Read, "r", vec![], false, false)).collect());
    let all = vec![plain(true), plain(false), guarded, short, plain(true)];
    assert_eq!(count_unprotected_sessions(&all), Tally { total: 3, failed: 2 });
    let patterns = analyze(&all);
    let p = patterns.iter().find(|p| p.name == "long_session_without_checkpoint").unwrap();
    assert_eq!(p.description, "Sessions with 5+ steps and no checkpoint: 2/3 had failures (67%)");
    assert!(matches!(p.suggestion, LearnedSuggestion::SuggestPeriodicCheckpoint { interval: 5 }));
}

#[test]
fn action_types_are_counted_in_order() {
    let s = session(vec![
        make_step(1, ActionType::Write, "a", vec![], false, false),
        make_step(2, ActionType::Read, "b", vec![], true, false),
        make_step(3, ActionType::Write, "c", vec![], true, false),
        make_step(4, ActionType::Other("deploy".into()), "d", vec![], true, false),
    ]);
    let list = count_action_types(&[s.clone(), s]);
    let shown: Vec<(&str, u32, u32)> = list.iter().map(|t| (t.name.as_str(), t.tally.total, t.tally.failed)).collect();
    assert_eq!(shown, vec![("write", 4, 2), ("read", 2, 0), ("deploy", 2, 0)]);
}

fn tally_of(name: &str, total: u32, failed: u32) -> ActionTally {
    ActionTally { name: name.into(), tally: Tally { total, failed } }
}

#[test]
fn the_worst_action_type_has_the_highest_rate() {
    assert_eq!(find_worst(&vec![]), None);
    assert_eq!(find_worst(&vec![tally_of("a", 2, 2)]), None);
    assert_eq!(
        find_worst(&vec![tally_of("a", 2, 2), tally_of("b", 4, 1), tally_of("c", 3, 1), tally_of("d", 6, 2)]),
        Some(2)
    );
    assert_eq!(
        find_worst(&vec![tally_of("a", u32::MAX, u32::MAX - 1), tally_of("b", u32::MAX, u32::MAX)]),
        Some(1)
    );
}

#[test]
fn a_rate_below_fifteen_percent_is_no_pattern() {
    for total in 3..300u32 {
        for failed in 0..=total {
            let rate = failed as f64 / total as f64;
            let w = Some(tally_of("read", total, failed));
            let m = measure(Tally { total, failed });
            let found = detect_failure_after_action_type(&w, &m).is_some();
            assert_eq!(found, !(rate < 0.15), "{failed}/{total}");
        }
    }
    assert!(detect_failure_after_action_type(&None, &measure(Tally { total: 3, failed: 3 })).is_none());
}

fn tallies() -> Tallies {
    Tallies {
        writes: Tally { total: 2, failed: 1 },
        repeats: Tally { total: 2, failed: 2 },
        untested: Tally { total: 0, failed: 0 },
        tested: Tally { total: 0, failed: 0 },
        unprotected: Tally { total: 2, failed: 1 },
        worst: Some(tally_of("write", 9, 9)),
    }
}

#[test]
fn patterns_are_ranked_by_confidence_and_ties_keep_their_order() {
    let t = tallies();
    let patterns = patterns_from(&t, &measures(&t));
    let names: Vec<&str> = patterns.iter().map(|p| p.name.as_str()).collect();
    assert_eq!(
        names,
        vec![
            "high_failure_action_type",
            "repeated_file_edits",
            "consecutive_writes_without_read",
            "long_session_without_checkpoint",
        ]
    );
    let confidences: Vec<f64> = patterns.iter().map(|p| value(p.confidence)).collect();
    assert!(confidences.windows(2).all(|w| w[0] >= w[1]));
    let expected = (1.0 - 1.0 / 10.0) * 1.0;
    assert_eq!(confidences[0], expected);
}

#[test]
fn a_higher_threshold_only_removes_rules() {
    let t = tallies();
    let patterns = patterns_from(&t, &measures(&t));
    let names = |min: f64| -> Vec<String> {
        generate_rules(&patterns, to_real(min)).into_iter().map(|r| r.name).collect()
    };
    let low = names(0.0);
    let high = names(0.5);
    assert_eq!(low.len(), 4);
    assert_eq!(high, low[..2].to_vec());
    assert!(names(f64::NAN).is_empty());
    assert_eq!(names(value(patterns[1].confidence)).len(), 2);
}

#[test]
fn reports_count_sessions_steps_and_failures() {
    let sessions = vec![
        session((1..=5).map(|i| make_step(i, ActionType::Write, "w", vec!["x.md"], i != 5, false)).collect()),
        session((1..=5).map(|i| make_step(i, ActionType::Write, "w", vec!["x.md"], i != 5, false)).collect()),
    ];
    let m = measures(&tally_sessions(&sessions));
    let report = learn(&sessions, &m, to_real(0.1));
    assert_eq!(report.sessions_analyzed, 2);
    assert_eq!(report.total_steps, 10);
    assert_eq!(report.total_failures, 2);
    assert_eq!(report.patterns_found.len(), 4);
    assert_eq!(report.rules_generated.len(), 4);
    assert!(report.rules_generated.iter().all(|r| r.name.starts_with("learned_")));
    let strict = learn(&sessions, &m, to_real(2.0));
    assert!(strict.rules_generated.is_empty());
}

#[test]
fn sessions_without_steps_have_no_trace() {
    assert!(trace_of("s".into(), vec![]).is_none());
    let t = trace_of("s".into(), vec![make_step(1, ActionType::Read, "r", vec![], true, false)]).unwrap();
    assert_eq!(t.session_id, "s");
    assert_eq!(t.steps.len(), 1);
    assert!(analyze(&[]).is_empty());
    assert!(analyze(&[session(vec![])]).is_empty());
}

#[test]
fn learned_rules_have_a_place() {
    assert_eq!(rules_path("/data"), "/data/learned_rules.json");
    assert_eq!(rules_path("/data/"), "/data/learned_rules.json");
    assert_eq!(rules_path(""), "learned_rules.json");
}

#[test]
fn sessions_without_failures_teach_nothing() {
    let clean = session(
        (1..=6).map(|i| make_step(i, ActionType::Write, "w", vec!["x.rs"], true, false)).collect(),
    );
    let sessions = vec![clean.clone(), clean];
    let t = tally_sessions(&sessions);
    assert_eq!(t.writes, Tally { total: 8, failed: 0 });
    let m = measures(&t);
    let report = learn(&sessions, &m, to_real(f64::MIN_POSITIVE));
    assert_eq!(report.total_failures, 0);
    // What shows is not worth a rule.
    assert_eq!(report.patterns_found.len(), 3);
    assert!(report.patterns_found.iter().all(|p| value(p.confidence) == 0.0));
    assert!(report.rules_generated.is_empty());
    assert_eq!(learn(&sessions, &m, to_real(0.0)).rules_generated.len(), 3);
}
