use carapace::config::{
    default_config_path, default_db_path, fallback_db_path, CarapaceConfig, CheckpointConfig,
    CheckpointStrategy,
};
use carapace::number::{low_half, low_u32, signed, unsigned, Real, Timestamp};
use carapace::text;
use carapace::types::{ActionType, RiskLevel};
use std::str::FromStr;

#[test]
fn white_space_is_that_of_the_standard_library() {
    for c in '\0'..=char::MAX {
        assert_eq!(text::is_white_space(c), c.is_whitespace());
    }
}

#[test]
fn words_and_trimming() {
    let samples = ["", " ", "a", "  a  b\tc\n", "\u{3000}x\u{a0}", "é è", "no-break"];
    for s in samples {
        assert_eq!(text::split_words(s), s.split_whitespace().collect::<Vec<_>>());
        assert_eq!(text::trim_spaces(s), s.trim());
        assert_eq!(text::to_ascii_lower(s), s.to_ascii_lowercase());
        assert_eq!(text::trim_to_alphanumeric(s), s.trim_matches(|c: char| !c.is_alphanumeric()));
        assert_eq!(text::tail_after(s, '-'), s.rsplit('-').next().unwrap());
    }
    assert_eq!(text::trim_to_alphanumeric("(«été»)!"), "été");
    assert_eq!(text::to_ascii_lower("ÄBC z"), "Äbc z");
}

#[test]
fn searching() {
    let samples = ["", "a", "ab", "abab", "xaby", "äb", "/a/b/", "a//b"];
    for s in samples {
        for t in samples {
            assert_eq!(text::str_eq(s, t), s == t);
            assert_eq!(text::has_prefix(s, t), s.starts_with(t));
            assert_eq!(text::has_suffix(s, t), s.ends_with(t));
            assert_eq!(text::has_substring(s, t), s.contains(t));
            assert_eq!(text::any_segment_is(s, '/', t), s.split('/').any(|x| x == t));
        }
        assert_eq!(text::has_char(s, 'b'), s.contains('b'));
        assert_eq!(text::replace_char(s, 'a', "<>"), s.replace('a', "<>"));
    }
    let list: Vec<String> = vec!["a".into(), "".into(), "c".into()];
    assert_eq!(text::join(&list, ", "), "a, , c");
    assert_eq!(text::join(&vec![], ", "), "");
    assert!(text::lists(&list, "c") && !text::lists(&list, "b"));
    assert_eq!(text::distinct(&vec!["b", "a", "b"]), vec!["b", "a"]);
    assert_eq!(text::common_count(&vec!["a", "b"], &vec!["c", "b"]), 1);
}

#[test]
fn numbers_in_words() {
    for n in [0u64, 9, 10, 42, 1000, u64::MAX] {
        assert_eq!(text::to_decimal(n), n.to_string());
    }
    assert_eq!(text::to_signed_decimal(-10), "-10");
}

#[test]
fn narrowing() {
    for x in [0i64, 1, -1, i64::MAX, i64::MIN, 4_294_967_296, 4_294_967_295] {
        assert_eq!(low_u32(x), x as u32);
        assert_eq!(unsigned(x), x as u64);
        assert_eq!(signed(x as u64), x);
        assert_eq!(low_half(x as u64), x as u32);
    }
}

#[test]
fn reals_compare_as_numbers() {
    let values = [
        0.0,
        -0.0,
        1.0,
        -1.0,
        0.1,
        0.3,
        f64::MIN_POSITIVE,
        5e-324,
        -5e-324,
        f64::INFINITY,
        f64::NEG_INFINITY,
        f64::NAN,
        -f64::NAN,
        f64::MAX,
    ];
    for a in values {
        for b in values {
            let x = Real { bits: a.to_bits() };
            let y = Real { bits: b.to_bits() };
            assert_eq!(x.at_least(&y), a >= b, "{a} >= {b}");
            assert_eq!(x.less_than(&y), a < b, "{a} < {b}");
        }
    }
}

#[test]
fn instants() {
    let t = Timestamp::from_parts(1_700_000_000, 0).unwrap();
    assert_eq!(t.to_rfc3339(), "2023-11-14T22:13:20+00:00");
    assert_eq!((t.seconds(), t.nanos()), (1_700_000_000, 0));
    let layout = "%Y-%m-%d %H:%M:%S";
    assert_eq!(Timestamp::read_or("2023-11-14 22:13:21", layout, t).seconds(), 1_700_000_001);
    assert_eq!(Timestamp::read_or("yesterday", layout, t).seconds(), 1_700_000_000);
    assert!(Timestamp::from_parts(0, 2_000_000_000).is_none());
    for (seconds, nanos) in [
        (i64::MAX, 0),
        (i64::MIN, 0),
        (8_210_266_876_799, 999_999_999),
        (8_210_266_876_800, 0),
        (-8_334_601_228_800, 0),
        (-8_334_601_228_801, 0),
        (59, 1_500_000_000),
        (60, 1_500_000_000),
        (-1, 1_500_000_000),
        (-61, 1_999_999_999),
        (-60, 1_000_000_000),
    ] {
        assert_eq!(
            Timestamp::from_parts(seconds, nanos).is_some(),
            chrono::DateTime::from_timestamp(seconds, nanos).is_some(),
            "{seconds} {nanos}"
        );
    }
    let first = Timestamp::from_parts(-8_334_601_228_800, 0).unwrap();
    assert!(first.to_rfc3339().starts_with("-262143"));
}

#[test]
fn action_types_are_read_from_their_names() {
    for name in ["read", "write", "delete", "execute", "api_call", "search"] {
        assert_eq!(ActionType::parse(name).unwrap().as_str(), name);
        assert_eq!(ActionType::from_str(&format!("  {}\n", name.to_uppercase())).unwrap().as_str(), name);
    }
    assert_eq!(ActionType::parse(" Deploy "), Ok(ActionType::Other("Deploy".into())));
    assert_eq!(ActionType::parse("  "), Err("action type must not be empty".to_string()));
    assert!(ActionType::parse("READ").unwrap() == ActionType::Read);
    assert!(ActionType::Other("a".into()) != ActionType::Other("b".into()));
    assert!(ActionType::Other("read".into()) != ActionType::Read);
}

#[test]
fn risks() {
    assert_eq!(ActionType::Read.risk_level(), RiskLevel::Low);
    assert_eq!(ActionType::Search.risk_level(), RiskLevel::Low);
    assert_eq!(ActionType::Write.risk_level(), RiskLevel::Medium);
    assert_eq!(ActionType::ApiCall.risk_level(), RiskLevel::Medium);
    assert_eq!(ActionType::Other("x".into()).risk_level(), RiskLevel::Medium);
    assert_eq!(ActionType::Execute.risk_level(), RiskLevel::High);
    assert_eq!(ActionType::Delete.risk_level(), RiskLevel::Critical);
}

#[test]
fn defaults() {
    let c = CarapaceConfig::default();
    assert!(c.verification.enabled && c.verification.rules_enabled && c.verification.consistency_enabled);
    assert_eq!(c.verification.blocked_commands.len(), 8);
    assert_eq!(c.verification.blocked_commands[6], r"curl\s.*\|\s*(ba)?sh");
    assert_eq!(c.verification.blocked_paths.len(), 9);
    assert!(c.verification.allowed_paths.is_empty());
    assert_eq!(c.verification.max_files_per_step, 20);
    assert_eq!(c.checkpoint.strategy, CheckpointStrategy::Git);
    assert_eq!(c.checkpoint.max_rollback_depth, 10);
    assert_eq!(c.trace.retention_days, 30);
    assert_eq!(c.trace.loop_detection_window, 5);
    assert_eq!(f64::from_bits(c.trace.token_spike_threshold.bits), 3.0);
    assert_eq!(f64::from_bits(c.cost.alert_threshold.bits), 0.8);
    assert!(c.cost.track_tokens && c.cost.daily_limit_usd.is_none() && c.cost.monthly_limit_usd.is_none());
}

#[test]
fn checkpoints_are_taken_before_changes_only() {
    let mut c = CarapaceConfig::default();
    for name in ["write", "delete", "execute"] {
        assert!(c.should_checkpoint_action(name));
    }
    for name in ["read", "search", "api_call", "Write", ""] {
        assert!(!c.should_checkpoint_action(name));
    }
    c.checkpoint.auto_save = false;
    assert!(!c.should_checkpoint_action("write"));
    c.checkpoint = CheckpointConfig::default();
    c.checkpoint.enabled = false;
    assert!(!c.should_checkpoint_action("write"));
    assert!(!c.checkpoint.auto_saves("write"));
}

#[test]
fn blocked_commands_without_repetitions() {
    let mut c = CarapaceConfig::default();
    c.verification.blocked_commands = vec!["b".into(), "a".into(), "b".into()];
    assert_eq!(c.blocked_commands_set(), vec!["b", "a"]);
}

#[test]
fn default_paths() {
    assert_eq!(default_config_path("/home/me/.config/carapace"), "/home/me/.config/carapace/config.yaml");
    assert_eq!(default_db_path("/data"), "/data/carapace.db");
    assert_eq!(fallback_db_path("/data/"), "/data/carapace.db");
}
