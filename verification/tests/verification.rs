use carapace::config::VerificationConfig;
use carapace::learner::rules::{LearnedCheck, LearnedRule};
use carapace::number::Real;
use carapace::types::{
    ActionType, CheckResult, ExecutionContext, StepAction, StepResult, StepSummary,
    VerificationDecision, VerificationOutcome,
};
use carapace::verification::consistency::{
    any_shared, deviation, extract_paths, has_file_overlap_from_desc, keywords_of,
    similar_descriptions, ConsistencyChecker,
};
use carapace::verification::{decide, CompositeVerifier, Verifier};

fn action(kind: ActionType, description: &str) -> StepAction {
    StepAction {
        action_type: kind,
        tool_name: None,
        arguments: "{}".into(),
        target_files: vec![],
        description: description.into(),
    }
}

fn step(number: u32, kind: ActionType, description: &str) -> StepSummary {
    StepSummary {
        step_number: number,
        action_type: kind,
        description: description.into(),
        result: StepResult::Success,
    }
}

fn ctx(plan: Option<&str>, previous_steps: Vec<StepSummary>) -> ExecutionContext {
    ExecutionContext {
        session_id: "s".into(),
        step_number: previous_steps.len() as u32 + 1,
        working_dir: "/w".into(),
        agent_name: None,
        plan: plan.map(String::from),
        previous_steps,
    }
}

fn check(name: &str, passed: bool, message: Option<&str>) -> CheckResult {
    CheckResult {
        checker_name: name.into(),
        passed,
        message: message.map(String::from),
    }
}

#[test]
fn decisions_follow_the_strictest_check() {
    assert!(decide(&vec![]).is_pass());
    assert!(decide(&vec![check("a", true, None)]).is_pass());
    assert_eq!(
        decide(&vec![check("a", true, None), check("b", true, Some("careful")), check("c", true, Some("slow"))]),
        VerificationDecision::Warn { reasons: vec!["careful".into(), "slow".into()] }
    );
    let d = decide(&vec![
        check("a", true, Some("careful")),
        check("b", false, Some("no")),
        check("c", false, None),
    ]);
    assert_eq!(
        d,
        VerificationDecision::Fail {
            reasons: vec!["no".into()],
            suggestions: vec!["Fix: address b check".into(), "Fix: address c check".into()],
        }
    );
    assert!(d.is_fail() && !d.is_pass());
    assert_eq!(d.reasons().to_vec(), vec!["no".to_string()]);
    assert!(VerificationDecision::Pass.reasons().is_empty());
}

#[test]
fn documented_verdicts() {
    let v = CompositeVerifier::new(VerificationConfig::default());
    let outcome = v.verify(&action(ActionType::Execute, "rm -rf /"), &ctx(None, vec![]));
    assert_eq!(
        outcome.decision.reasons().to_vec(),
        vec!["Blocked command pattern detected: rm -rf /".to_string()]
    );
    assert!(outcome.decision.is_fail());

    let mut read = action(ActionType::Read, "Read source file");
    read.target_files = vec!["src/main.rs".into()];
    assert!(v.verify(&read, &ctx(None, vec![])).decision.is_pass());

    let outcome = v.verify(&action(ActionType::Execute, "git status"), &ctx(None, vec![]));
    assert_eq!(
        outcome.decision,
        VerificationDecision::Warn {
            reasons: vec!["Action type 'execute' requires confirmation".into()]
        }
    );
}

#[test]
fn layers_can_be_switched_off() {
    let mut config = VerificationConfig::default();
    let v = CompositeVerifier::new(config.clone());
    let a = action(ActionType::Read, "x");
    assert_eq!(v.verify(&a, &ctx(None, vec![])).checks_performed.len(), 8);
    config.rules_enabled = false;
    let v = CompositeVerifier::new(config.clone());
    assert_eq!(v.run_checks(&a, &ctx(None, vec![])).len(), 3);
    config.consistency_enabled = false;
    let v = CompositeVerifier::new(config);
    let outcome: VerificationOutcome = v.verify(&action(ActionType::Execute, "rm -rf /"), &ctx(None, vec![]));
    assert!(outcome.checks_performed.is_empty());
    assert!(outcome.decision.is_pass());
}

fn write_limit(name: &str) -> LearnedRule {
    LearnedRule {
        name: name.into(),
        source_pattern: "p".into(),
        description: "d".into(),
        confidence: Real { bits: 0.5f64.to_bits() },
        check: LearnedCheck::ConsecutiveWriteLimit { max: 1 },
    }
}

#[test]
fn learned_rules_warn_and_never_block() {
    let v = CompositeVerifier::new(VerificationConfig::default())
        .with_learned_rules(vec![write_limit("learned_a"), write_limit("learned_b")]);
    let steps = vec![step(1, ActionType::Write, "edit one")];
    let outcome = v.verify(&action(ActionType::Write, "edit two"), &ctx(None, steps));
    assert_eq!(outcome.checks_performed.len(), 10);
    assert_eq!(outcome.checks_performed[8].checker_name, "learned_a");
    assert_eq!(outcome.checks_performed[9].checker_name, "learned_b");
    assert_eq!(
        outcome.decision.reasons().to_vec(),
        vec!["1+ consecutive writes without a read (learned: d)".to_string(); 2]
    );
    assert!(!outcome.decision.is_fail());
}

#[test]
fn contradictions() {
    let checker = ConsistencyChecker::new();
    let steps = vec![step(4, ActionType::Delete, "Remove src/a.rs")];
    let r = checker.check(&action(ActionType::Write, "Rewrite src/a.rs"), &ctx(None, steps));
    assert_eq!(
        r[0].message.as_deref(),
        Some("Contradictory: writing to file that was deleted in step 4")
    );
    assert!(!r[0].passed);

    let steps = vec![step(1, ActionType::Write, "Edit a.rs"), step(2, ActionType::Write, "Edit a.rs too")];
    let r = checker.check(&action(ActionType::Delete, "Drop a.rs"), &ctx(None, steps));
    assert_eq!(
        r[0].message.as_deref(),
        Some("Suspicious: deleting file just written in step 2")
    );

    let steps = vec![step(1, ActionType::Delete, "Remove b.rs")];
    let r = checker.check(&action(ActionType::Write, "Rewrite a.rs"), &ctx(None, steps));
    assert!(r[0].passed && r[0].message.is_none());
    let steps = vec![step(1, ActionType::Delete, "Remove a.rs")];
    let r = checker.check(&action(ActionType::Read, "Look at a.rs"), &ctx(None, steps));
    assert!(r[0].passed);
}

#[test]
fn contradictions_are_forgotten_after_five_steps() {
    let checker = ConsistencyChecker::new();
    let mut steps = vec![step(1, ActionType::Delete, "Remove a.rs")];
    for i in 2..=5 {
        steps.push(step(i, ActionType::Read, "look"));
    }
    let a = action(ActionType::Write, "Rewrite a.rs");
    assert!(!checker.check(&a, &ctx(None, steps.clone()))[0].passed);
    steps.push(step(6, ActionType::Read, "look"));
    assert!(checker.check(&a, &ctx(None, steps))[0].passed);
}

#[test]
fn loops() {
    let checker = ConsistencyChecker::new();
    let a = action(ActionType::Write, "fix the same bug again");
    let mut steps: Vec<StepSummary> = (1..=2).map(|i| step(i, ActionType::Write, "fix the same bug again")).collect();
    assert!(checker.check(&a, &ctx(None, steps.clone()))[1].passed);
    steps.push(step(3, ActionType::Write, "fix the same bug once"));
    let r = checker.check(&a, &ctx(None, steps.clone()));
    assert_eq!(
        r[1].message.as_deref(),
        Some("Loop detected: similar action repeated 4 times in last 5 steps")
    );
    assert!(!r[1].passed);
    // The type counts too.
    let b = action(ActionType::Read, "fix the same bug again");
    assert!(checker.check(&b, &ctx(None, steps.clone()))[1].passed);
    // Old steps do not count.
    steps.extend((4..=7).map(|i| step(i, ActionType::Search, "look")));
    assert!(checker.check(&a, &ctx(None, steps))[1].passed);
}

#[test]
fn plan_deviation_only_warns() {
    let checker = ConsistencyChecker::new();
    let r = checker.check(&action(ActionType::Write, "delete database tables"), &ctx(Some("Refactor the parser, carefully."), vec![]));
    assert!(r[2].passed);
    assert_eq!(
        r[2].message.as_deref(),
        Some("Action description shares no keywords with the stated plan — possible drift")
    );
    let r = checker.check(&action(ActionType::Write, "split (parser) module"), &ctx(Some("Refactor the parser, carefully."), vec![]));
    assert!(r[2].message.is_none());
    // Short words are no keywords, and without keywords nothing can be said.
    let r = checker.check(&action(ActionType::Write, "do it now"), &ctx(Some("Refactor the parser"), vec![]));
    assert!(r[2].message.is_none());
    let r = checker.check(&action(ActionType::Write, "something else entirely"), &ctx(None, vec![]));
    assert!(r[2].message.is_none());
}

#[test]
fn keywords() {
    assert_eq!(keywords_of("Fix the (parser), and äöü x"), vec!["parser", "äöü"]);
    assert_eq!(keywords_of("--!! the"), vec![""]);
    assert!(deviation(&vec!["a"], &vec!["b"]).message.is_some());
    assert!(deviation(&vec!["a", "b"], &vec!["b"]).message.is_none());
    assert!(deviation(&vec![], &vec!["b"]).message.is_none());
    assert!(any_shared(&vec!["x", "y"], &vec!["z", "y"]));
}

#[test]
fn paths_in_descriptions() {
    assert_eq!(
        extract_paths("Move src/a.rs to README.md see http://x.y/z or https://q"),
        vec!["src/a.rs", "README.md"]
    );
    assert!(has_file_overlap_from_desc("edit a.rs now", "remove b.rs a.rs"));
    assert!(!has_file_overlap_from_desc("edit a.rs", "remove b.rs"));
    assert!(!has_file_overlap_from_desc("edit", "edit"));
}

#[test]
fn similarity_is_more_than_six_tenths() {
    assert!(similar_descriptions("a b c", "a b c"));
    assert!(similar_descriptions("a b c d", "a b c e"));
    // Three of five is not more than 60%.
    assert!(!similar_descriptions("a b c d e", "a b c x y"));
    assert!(similar_descriptions("a b c d e", "a b c d y"));
    assert!(!similar_descriptions("", ""));
    assert!(!similar_descriptions("a", ""));
    assert!(similar_descriptions("a a a b", "b a"));
    for total in 1..40usize {
        for common in 0..=total {
            let a: Vec<String> = (0..total).map(|i| format!("w{i}")).collect();
            let b: Vec<String> = (0..total).map(|i| if i < common { format!("w{i}") } else { format!("x{i}") }).collect();
            let expected = (common as f64 / total as f64) > 0.6;
            assert_eq!(similar_descriptions(&a.join(" "), &b.join(" ")), expected);
        }
    }
}

#[test]
fn learning_only_adds_checks() {
    let plain = CompositeVerifier::new(VerificationConfig::default());
    let taught = CompositeVerifier::new(VerificationConfig::default())
        .with_learned_rules(vec![write_limit("learned_a")]);
    let c = ctx(Some("edit everything"), vec![step(1, ActionType::Write, "edit one")]);
    let a = action(ActionType::Write, "edit two");
    let before = plain.run_checks(&a, &c);
    let after = taught.run_checks(&a, &c);
    assert_eq!(after.len(), before.len() + 1);
    for (x, y) in before.iter().zip(&after) {
        assert_eq!((&x.checker_name, x.passed, &x.message), (&y.checker_name, y.passed, &y.message));
    }
    let warnings = |v: &Vec<CheckResult>| v.iter().filter(|c| c.passed && c.message.is_some()).count();
    assert!(warnings(&after) > warnings(&before));
}

#[test]
fn every_rule_alone_decides() {
    let v = CompositeVerifier::new(VerificationConfig::default());
    let none = ctx(None, vec![]);
    assert!(v.verify(&action(ActionType::Read, "please MKFS it"), &none).decision.is_fail());
    assert!(v.verify(&action(ActionType::Read, "run xmrig"), &none).decision.is_fail());
    let mut wide = action(ActionType::Read, "look around");
    wide.target_files = (0..21).map(|i| format!("f{i}")).collect();
    assert!(v.verify(&wide, &none).decision.is_fail());
    wide.target_files.pop();
    assert!(v.verify(&wide, &none).decision.is_pass());
    let asked = v.verify(&action(ActionType::Delete, "tidy up"), &none).decision;
    assert!(!asked.is_pass() && !asked.is_fail());
}
