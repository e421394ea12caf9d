use carapace::config::TraceConfig;
use carapace::number::{Real, Timestamp};
use carapace::tracer::anomaly::{split_reads, AnomalyDetector, DriftReading, ReadSplit, TokenReading};
use carapace::tracer::export::{csv_field, export_csv, render_row};
use carapace::types::{
    ActionType, AnomalyType, Severity, StepAction, StepResult, TraceEntry, VerificationDecision,
    VerificationOutcome,
};

fn now() -> Timestamp {
    Timestamp::from_parts(1_700_000_000, 0).unwrap()
}

fn entry(number: u32, kind: ActionType, description: &str, tokens: u64) -> TraceEntry {
    TraceEntry {
        step_id: format!("step-{number}"),
        session_id: "s".into(),
        step_number: number,
        action: StepAction {
            action_type: kind,
            tool_name: None,
            arguments: "{}".into(),
            target_files: vec![],
            description: description.into(),
        },
        reason: None,
        verification: VerificationOutcome {
            decision: VerificationDecision::Pass,
            checks_performed: vec![],
            duration_ms: 0,
        },
        checkpoint_id: None,
        result: StepResult::Success,
        tokens_used: tokens,
        cost_usd: Real { bits: 0.5f64.to_bits() },
        duration_ms: 7,
        timestamp: now(),
    }
}

fn tokens(config: &TraceConfig, current: &TraceEntry, recent: &[TraceEntry]) -> TokenReading {
    let average = recent.iter().map(|s| s.tokens_used as f64).sum::<f64>() / recent.len() as f64;
    let used = current.tokens_used as f64;
    TokenReading {
        is_spike: average > 0.0 && used > average * f64::from_bits(config.token_spike_threshold.bits),
        factor: format!("{:.1}", used / average),
        average: format!("{:.0}", average),
    }
}

fn drift(split: ReadSplit) -> DriftReading {
    let first = split.first_reads as f64 / split.first_len.max(1) as f64;
    let second = split.second_reads as f64 / split.second_len.max(1) as f64;
    DriftReading {
        is_shift: (first - second).abs() > 0.6,
        first_percent: format!("{:.0}", first * 100.0),
        second_percent: format!("{:.0}", second * 100.0),
    }
}

fn details(config: TraceConfig, current: &TraceEntry, recent: &[TraceEntry]) -> Vec<(AnomalyType, Severity, String)> {
    let t = tokens(&config, current, recent);
    let d = drift(split_reads(current, recent));
    AnomalyDetector::new(config)
        .detect(current, recent, &t, &d, now())
        .into_iter()
        .map(|a| {
            assert_eq!(a.step_id.as_deref(), Some(current.step_id.as_str()));
            (a.anomaly_type, a.severity, a.detail)
        })
        .collect()
}

#[test]
fn token_spikes() {
    let recent: Vec<TraceEntry> = (1..=4).map(|i| entry(i, ActionType::Write, &format!("d{i}"), 100)).collect();
    let config = TraceConfig::default();
    assert!(details(config, &entry(5, ActionType::Write, "x", 300), &recent).is_empty());
    assert_eq!(
        details(config, &entry(5, ActionType::Write, "x", 301), &recent),
        vec![(
            AnomalyType::TokenSpike,
            Severity::Warning,
            "Token usage 301 is 3.0x the rolling average 100".to_string()
        )]
    );
    assert!(details(config, &entry(5, ActionType::Write, "x", 0), &recent).is_empty());
    assert!(details(config, &entry(1, ActionType::Write, "x", 900), &[]).is_empty());
}

#[test]
fn loop_traps() {
    let mut recent: Vec<TraceEntry> = (1..=3).map(|i| entry(i, ActionType::Write, "same", 1)).collect();
    let config = TraceConfig::default();
    assert_eq!(
        details(config, &entry(4, ActionType::Write, "same", 1), &recent),
        vec![(
            AnomalyType::LoopTrap,
            Severity::Critical,
            "Action 'same' repeated 4 times in last 5 steps — possible infinite loop".to_string()
        )]
    );
    assert!(details(config, &entry(4, ActionType::Execute, "same", 1), &recent).is_empty());
    assert!(details(config, &entry(4, ActionType::Write, "other", 1), &recent).is_empty());
    // What lies before the window does not count.
    recent.extend((4..=6).map(|i| entry(i, ActionType::Write, "else", 1)));
    assert!(details(config, &entry(7, ActionType::Write, "same", 1), &recent).is_empty());
}

#[test]
fn goal_drift() {
    let mut recent: Vec<TraceEntry> = (1..=3).map(|i| entry(i, ActionType::Read, &format!("r{i}"), 1)).collect();
    recent.push(entry(4, ActionType::Write, "a", 1));
    let config = TraceConfig::default();
    assert!(details(config, &entry(5, ActionType::Write, "b", 1), &recent).is_empty());
    recent.push(entry(5, ActionType::Write, "b", 1));
    assert_eq!(
        details(config, &entry(6, ActionType::Write, "c", 1), &recent),
        vec![(
            AnomalyType::GoalDrift,
            Severity::Info,
            "Action pattern shifted: read ratio changed from 100% to 0%".to_string()
        )]
    );
}

#[test]
fn detection_can_be_switched_off() {
    let recent: Vec<TraceEntry> = (1..=3).map(|i| entry(i, ActionType::Write, "same", 1)).collect();
    let mut config = TraceConfig::default();
    config.detect_anomalies = false;
    assert!(details(config, &entry(4, ActionType::Write, "same", 900), &recent).is_empty());
}

#[test]
fn the_halves_of_the_steps() {
    let recent = vec![
        entry(1, ActionType::Read, "a", 1),
        entry(2, ActionType::Write, "b", 1),
        entry(3, ActionType::Read, "c", 1),
        entry(4, ActionType::Read, "d", 1),
    ];
    assert_eq!(
        split_reads(&entry(5, ActionType::Read, "e", 1), &recent),
        ReadSplit { first_reads: 1, first_len: 2, second_reads: 3, second_len: 3 }
    );
    assert_eq!(
        split_reads(&entry(1, ActionType::Read, "e", 1), &[]),
        ReadSplit { first_reads: 0, first_len: 0, second_reads: 1, second_len: 1 }
    );
}

#[test]
fn fields_are_quoted() {
    assert_eq!(csv_field("plain"), "\"plain\"");
    assert_eq!(csv_field(""), "\"\"");
    assert_eq!(csv_field("say \"hi\", twice\n"), "\"say \"\"hi\"\", twice\n\"");
}

#[test]
fn fields_can_be_read_back() {
    for value in ["", "\"", "a\"\"b", "x,y\nz"] {
        let field = csv_field(value);
        let inner = &field[1..field.len() - 1];
        assert_eq!(inner.replace("\"\"", "\""), value);
    }
}

#[test]
fn traces_become_tables() {
    let mut bad = entry(2, ActionType::Other("deploy".into()), "say \"go\"", 5);
    bad.result = StepResult::Skipped { reason: "r".into() };
    bad.verification.decision = VerificationDecision::Fail { reasons: vec![], suggestions: vec![] };
    let steps = vec![entry(1, ActionType::Read, "look", 3), bad];
    let costs: Vec<String> = steps.iter().map(|s| format!("{:.4}", f64::from_bits(s.cost_usd.bits))).collect();
    assert_eq!(
        export_csv(&steps, &costs),
        "step_id,session_id,step_number,action_type,description,verification,result,tokens,cost_usd,duration_ms,timestamp\n\
         \"step-1\",\"s\",1,\"read\",\"look\",\"pass\",\"success\",3,0.5000,7,\"2023-11-14T22:13:20+00:00\"\n\
         \"step-2\",\"s\",2,\"deploy\",\"say \"\"go\"\"\",\"fail\",\"skipped\",5,0.5000,7,\"2023-11-14T22:13:20+00:00\"\n"
    );
    assert!(export_csv(&[], &vec![]).starts_with("step_id,"));
    assert_eq!(
        render_row(&steps[0], "1.0000", "then"),
        "\"step-1\",\"s\",1,\"read\",\"look\",\"pass\",\"success\",3,1.0000,7,\"then\"\n"
    );
}
