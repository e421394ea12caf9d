//! What holds of anomalies, said of steps and readings.

use vstd::prelude::*;

use crate::config::TraceConfig;
use crate::number::Timestamp;
use crate::text;
use crate::tracer::anomaly;
use crate::tracer::anomaly::DriftReading;
use crate::tracer::anomaly::ReadSplit;
use crate::tracer::anomaly::Sighting;
use crate::tracer::anomaly::TokenReading;
use crate::types::AnomalyType;
use crate::types::Severity;
use crate::types::TraceEntry;
use crate::verification::consistency_laws;

verus! {

/// An anomaly of this kind is in the list.
pub open spec fn reported(found: Seq<Sighting>, kind: AnomalyType) -> bool {
    exists|i: int| 0 <= i < found.len() && (#[trigger] found[i]).kind == kind
}

/// A token spike is reported exactly where anomalies are looked for, there is a step
/// to compare with, the current step used tokens, and these are far more than the
/// average. It warns, and tells the tokens, the factor and the average.
pub proof fn law_token_spikes(
    config: TraceConfig,
    current: TraceEntry,
    recent: Seq<TraceEntry>,
    tokens: TokenReading,
    drift: DriftReading,
    now: Timestamp,
)
    ensures
        reported(
            anomaly::anomalies_of(config, current, recent, tokens, drift, now),
            AnomalyType::TokenSpike,
        ) <==> config.detect_anomalies && recent.len() >= 1 && current.tokens_used >= 1
            && tokens.is_spike,
        forall|i: int|
            0 <= i < anomaly::anomalies_of(config, current, recent, tokens, drift, now).len() && (
            #[trigger] anomaly::anomalies_of(config, current, recent, tokens, drift, now)[i]).kind
                == AnomalyType::TokenSpike ==> {
                let a = anomaly::anomalies_of(config, current, recent, tokens, drift, now)[i];
                &&& i == 0
                &&& a.severity == Severity::Warning
                &&& a.step_id == Some(current.step_id@)
                &&& a.detected_at == now.parts()
                &&& a.detail == "Token usage "@ + text::decimal(current.tokens_used as nat)
                    + " is "@ + tokens.factor@ + "x the rolling average "@ + tokens.average@
            },
{
    let found = anomaly::anomalies_of(config, current, recent, tokens, drift, now);
    if config.detect_anomalies && recent.len() >= 1 && current.tokens_used >= 1
        && tokens.is_spike {
        assert(found[0].kind == AnomalyType::TokenSpike);
    }
}

/// Step `i` is one of the last `window` recent steps and does exactly what the current
/// one does.
pub open spec fn is_same(
    recent: Seq<TraceEntry>,
    window: nat,
    current: TraceEntry,
    i: int,
) -> bool {
    &&& 0 <= i < recent.len()
    &&& recent.len() - window <= i
    &&& recent[i].action.action_type@ == current.action.action_type@
    &&& recent[i].action.description@ == current.action.description@
}

/// A loop trap is reported exactly where anomalies are looked for and at least three
/// steps of the window do what the current one does. It is critical.
pub proof fn law_loop_traps(
    config: TraceConfig,
    current: TraceEntry,
    recent: Seq<TraceEntry>,
    tokens: TokenReading,
    drift: DriftReading,
    now: Timestamp,
)
    ensures
        reported(
            anomaly::anomalies_of(config, current, recent, tokens, drift, now),
            AnomalyType::LoopTrap,
        ) <==> config.detect_anomalies && exists|i: int, j: int, k: int|
            i < j < k && #[trigger] is_same(
                recent,
                config.loop_detection_window as nat,
                current,
                i,
            ) && #[trigger] is_same(recent, config.loop_detection_window as nat, current, j)
                && #[trigger] is_same(recent, config.loop_detection_window as nat, current, k),
        forall|i: int|
            0 <= i < anomaly::anomalies_of(config, current, recent, tokens, drift, now).len() && (
            #[trigger] anomaly::anomalies_of(config, current, recent, tokens, drift, now)[i]).kind
                == AnomalyType::LoopTrap ==> {
                let a = anomaly::anomalies_of(config, current, recent, tokens, drift, now)[i];
                &&& a.severity == Severity::Critical
                &&& a.step_id == Some(current.step_id@)
                &&& a.detected_at == now.parts()
            },
{
    let window = config.loop_detection_window as nat;
    let found = anomaly::anomalies_of(config, current, recent, tokens, drift, now);
    let last = anomaly::window_of(recent, window);
    let first = recent.len() - last.len();
    let keep = |s: TraceEntry| anomaly::same_action(s, current);
    if last.filter(keep).len() >= 3 {
        let (i, j, k) = consistency_laws::lemma_filter_places(last, keep);
        assert(is_same(recent, window, current, first + i));
        assert(is_same(recent, window, current, first + j));
        assert(is_same(recent, window, current, first + k));
    }
    if exists|i: int, j: int, k: int|
        i < j < k && #[trigger] is_same(recent, window, current, i) && #[trigger] is_same(
            recent,
            window,
            current,
            j,
        ) && #[trigger] is_same(recent, window, current, k) {
        let (i, j, k) = choose|i: int, j: int, k: int|
            i < j < k && #[trigger] is_same(recent, window, current, i) && #[trigger] is_same(
                recent,
                window,
                current,
                j,
            ) && #[trigger] is_same(recent, window, current, k);
        consistency_laws::lemma_filter_three(last, keep, i - first, j - first, k - first);
    }
    if config.detect_anomalies && anomaly::loop_trap(current, recent, window, now) is Some {
        let n = anomaly::listed(anomaly::token_spike(current, recent, tokens, now)).len() as int;
        assert(found[n].kind == AnomalyType::LoopTrap);
    }
}

/// What is said of a loop trap: the action, how often it was taken with the current
/// step, and the window.
pub proof fn law_loop_trap_words(
    config: TraceConfig,
    current: TraceEntry,
    older: Seq<TraceEntry>,
    last: Seq<TraceEntry>,
    tokens: TokenReading,
    drift: DriftReading,
    now: Timestamp,
    i: int,
)
    requires
        last.len() == config.loop_detection_window || (last.len() < config.loop_detection_window
            && older.len() == 0),
        0 <= i < anomaly::anomalies_of(config, current, older + last, tokens, drift, now).len(),
        anomaly::anomalies_of(config, current, older + last, tokens, drift, now)[i].kind
            == AnomalyType::LoopTrap,
    ensures
        anomaly::anomalies_of(config, current, older + last, tokens, drift, now)[i].detail
            == "Action '"@ + current.action.description@ + "' repeated "@ + text::decimal(
            last.filter(
                |s: TraceEntry|
                    s.action.action_type@ == current.action.action_type@ && s.action.description@
                        == current.action.description@,
            ).len() + 1,
        ) + " times in last "@ + text::decimal(config.loop_detection_window as nat)
            + " steps — possible infinite loop"@,
{
    let window = config.loop_detection_window as nat;
    assert(anomaly::window_of(older + last, window) =~= last);
    let keep = |s: TraceEntry| anomaly::same_action(s, current);
    let same = |s: TraceEntry|
        s.action.action_type@ == current.action.action_type@ && s.action.description@
            == current.action.description@;
    consistency_laws::lemma_filter_alike(last, last, keep, same);
}

/// A goal drift is reported exactly where anomalies are looked for, there are at least
/// five recent steps, and the share of reads shifted. It is for information only.
pub proof fn law_goal_drifts(
    config: TraceConfig,
    current: TraceEntry,
    recent: Seq<TraceEntry>,
    tokens: TokenReading,
    drift: DriftReading,
    now: Timestamp,
)
    ensures
        reported(
            anomaly::anomalies_of(config, current, recent, tokens, drift, now),
            AnomalyType::GoalDrift,
        ) <==> config.detect_anomalies && recent.len() >= 5 && drift.is_shift,
        forall|i: int|
            0 <= i < anomaly::anomalies_of(config, current, recent, tokens, drift, now).len() && (
            #[trigger] anomaly::anomalies_of(config, current, recent, tokens, drift, now)[i]).kind
                == AnomalyType::GoalDrift ==> {
                let a = anomaly::anomalies_of(config, current, recent, tokens, drift, now)[i];
                &&& a.severity == Severity::Info
                &&& a.step_id == Some(current.step_id@)
                &&& a.detected_at == now.parts()
                &&& a.detail == "Action pattern shifted: read ratio changed from "@
                    + drift.first_percent@ + "% to "@ + drift.second_percent@ + "%"@
            },
{
    let found = anomaly::anomalies_of(config, current, recent, tokens, drift, now);
    if config.detect_anomalies && recent.len() >= 5 && drift.is_shift {
        assert(found[found.len() - 1].kind == AnomalyType::GoalDrift);
    }
}

/// No kind of anomaly is reported twice for a step, no other kind is reported, and
/// spikes come before loops and loops before drifts.
pub proof fn law_anomalies_are_listed_once(
    config: TraceConfig,
    current: TraceEntry,
    recent: Seq<TraceEntry>,
    tokens: TokenReading,
    drift: DriftReading,
    now: Timestamp,
    i: int,
    j: int,
)
    requires
        0 <= i < j < anomaly::anomalies_of(config, current, recent, tokens, drift, now).len(),
    ensures
        ({
            let a = anomaly::anomalies_of(config, current, recent, tokens, drift, now)[i].kind;
            let b = anomaly::anomalies_of(config, current, recent, tokens, drift, now)[j].kind;
            ||| a == AnomalyType::TokenSpike && b == AnomalyType::LoopTrap
            ||| a == AnomalyType::TokenSpike && b == AnomalyType::GoalDrift
            ||| a == AnomalyType::LoopTrap && b == AnomalyType::GoalDrift
        }),
{
}

/// The shares of reads are taken of the first half of the steps and of the rest. Each
/// step is in one of them, and the middle one of an odd number is in the second.
pub proof fn law_halves(split: ReadSplit, first: Seq<TraceEntry>, second: Seq<TraceEntry>)
    requires
        anomaly::splits(split, first + second),
        second.len() == first.len() || second.len() == first.len() + 1,
    ensures
        split.first_len == first.len(),
        split.second_len == second.len(),
        split.first_reads == first.filter(
            |s: TraceEntry| s.action.action_type@ is Read,
        ).len(),
        split.second_reads == second.filter(
            |s: TraceEntry| s.action.action_type@ is Read,
        ).len(),
{
    let all = first + second;
    let mid = (all.len() / 2) as int;
    assert(all.take(mid) =~= first);
    assert(all.skip(mid) =~= second);
}

}
