//! What holds of tools, settings and numbers.

use vstd::prelude::*;

use crate::config;
use crate::config::CarapaceConfig;
use crate::config::CheckpointStrategy;
use crate::number;
use crate::number::Real;
use crate::number::Timestamp;
use crate::tools;
use crate::tools::ToolKind;

verus! {

/// A tool goes by one name and by no other.
pub proof fn law_tool_names(name: Seq<char>)
    ensures
        tools::named_tool(name) == Some(ToolKind::BeginSession) <==> name
            == "carapace_begin_session"@,
        tools::named_tool(name) == Some(ToolKind::VerifyStep) <==> name == "carapace_verify_step"@,
        tools::named_tool(name) == Some(ToolKind::SaveCheckpoint) <==> name
            == "carapace_save_checkpoint"@,
        tools::named_tool(name) == Some(ToolKind::RecordStep) <==> name == "carapace_record_step"@,
        tools::named_tool(name) == Some(ToolKind::Rollback) <==> name == "carapace_rollback"@,
        tools::named_tool(name) == Some(ToolKind::SessionSummary) <==> name
            == "carapace_session_summary"@,
        tools::named_tool(name) == Some(ToolKind::Learn) <==> name == "carapace_learn"@,
{
    tools::law_listed_tools_are_callable(name);
    let t = tools::tool_table();
    assert(t[0].name == "carapace_begin_session"@ && t[0].kind == ToolKind::BeginSession);
    assert(t[1].name == "carapace_verify_step"@ && t[1].kind == ToolKind::VerifyStep);
    assert(t[2].name == "carapace_save_checkpoint"@ && t[2].kind == ToolKind::SaveCheckpoint);
    assert(t[3].name == "carapace_record_step"@ && t[3].kind == ToolKind::RecordStep);
    assert(t[4].name == "carapace_rollback"@ && t[4].kind == ToolKind::Rollback);
    assert(t[5].name == "carapace_session_summary"@ && t[5].kind == ToolKind::SessionSummary);
    assert(t[6].name == "carapace_learn"@ && t[6].kind == ToolKind::Learn);
}

/// What the arguments of each tool must hold.
pub proof fn law_required_arguments(i: int)
    requires
        0 <= i < tools::tool_table().len(),
    ensures
        ({
            let tool = tools::tool_table()[i];
            match tool.kind {
                ToolKind::BeginSession | ToolKind::Learn => tool.required.len() == 0,
                ToolKind::VerifyStep | ToolKind::SaveCheckpoint => tool.required == seq![
                    "session_id"@,
                    "action_type"@,
                    "description"@,
                ],
                ToolKind::RecordStep => tool.required == seq![
                    "session_id"@,
                    "action_type"@,
                    "description"@,
                    "result_status"@,
                ],
                ToolKind::Rollback | ToolKind::SessionSummary => tool.required == seq![
                    "session_id"@,
                ],
            }
        }),
{
}

/// The settings that hold where nothing else is configured.
pub proof fn law_default_settings(config: CarapaceConfig)
    requires
        call_ensures(CarapaceConfig::default, (), config),
    ensures
        config.verification@.enabled,
        config.verification@.rules_enabled,
        config.verification@.consistency_enabled,
        config.verification@.max_files_per_step == 20,
        config.verification@.allowed_paths.len() == 0,
        config.verification@.require_confirmation_for == seq!["delete"@, "execute"@],
        config.checkpoint.enabled,
        config.checkpoint.auto_save,
        config.checkpoint.strategy == CheckpointStrategy::Git,
        config.checkpoint.max_rollback_depth == 10,
        config.trace.enabled,
        config.trace.detect_anomalies,
        config.trace.retention_days == 30,
        config.trace.loop_detection_window == 5,
        config.trace.token_spike_threshold.bits == 0x4008_0000_0000_0000,
        config.cost.track_tokens,
        config.cost.daily_limit_usd is None,
        config.cost.monthly_limit_usd is None,
        config.cost.alert_threshold.bits == 0x3FE9_9999_9999_999A,
{
}

/// Comparing is total on numbers and says nothing of what is no number. Both zeros are
/// equal.
pub proof fn law_comparing(a: Real, b: Real)
    ensures
        !a.is_nan() && !b.is_nan() ==> (a.lt(b) <==> !a.ge(b)),
        a.is_nan() || b.is_nan() ==> !a.lt(b) && !a.ge(b),
        !a.is_nan() && !b.is_nan() ==> (a.ge(b) && b.ge(a) <==> a == b || (a.magnitude() == 0
            && b.magnitude() == 0)),
        a.bits <= b.bits && b.bits <= 0x7FF0_0000_0000_0000 ==> b.ge(a),
        0x8000_0000_0000_0000 <= a.bits && a.bits <= b.bits && b.bits <= 0xFFF0_0000_0000_0000
            ==> a.ge(b),
        a.bits <= 0x7FF0_0000_0000_0000 && 0x8000_0000_0000_0000 <= b.bits && b.bits
            <= 0xFFF0_0000_0000_0000 ==> a.ge(b),
        a.is_nan() <==> (0x7FF0_0000_0000_0000 < a.bits && a.bits < 0x8000_0000_0000_0000)
            || 0xFFF0_0000_0000_0000 < a.bits,
{
}

/// A pair of numbers is an instant where the calendar has a date for the second and the
/// nanoseconds make less than one second, or less than two behind the last second of a
/// minute.
pub proof fn law_instants(seconds: i64, nanos: u32, r: Option<Timestamp>)
    requires
        call_ensures(Timestamp::from_parts, (seconds, nanos), r),
    ensures
        r is Some <==> -8_334_601_228_800 <= seconds && seconds <= 8_210_266_876_799 && (nanos
            < 1_000_000_000 || (nanos < 2_000_000_000 && (seconds + 1) % 60 == 0)),
        r matches Some(t) ==> t.parts() == (seconds, nanos),
{
}

/// The bits of a count come back when they are read with a sign and then without one, and
/// a count that fits is read as it is.
pub proof fn law_signs(x: u64, s: i64, back: u64)
    requires
        call_ensures(number::signed, (x,), s),
        call_ensures(number::unsigned, (s,), back),
    ensures
        back == x,
        x <= i64::MAX ==> s == x,
{
}

/// The files of the configuration and of the data have their own names, in the directory.
pub proof fn law_default_files(dir: &str, settings: String, data: String, fallback: String)
    requires
        call_ensures(config::default_config_path, (dir,), settings),
        call_ensures(config::default_db_path, (dir,), data),
        call_ensures(config::fallback_db_path, (dir,), fallback),
        dir@.len() > 0,
        dir@.last() != '/',
    ensures
        settings@ == dir@ + "/config.yaml"@,
        data@ == dir@ + "/carapace.db"@,
        fallback@ == data@,
{
    reveal_strlit("config.yaml");
    reveal_strlit("/config.yaml");
    reveal_strlit("carapace.db");
    reveal_strlit("/carapace.db");
    assert(settings@ =~= dir@ + "/config.yaml"@);
    assert(data@ =~= dir@ + "/carapace.db"@);
}

}
