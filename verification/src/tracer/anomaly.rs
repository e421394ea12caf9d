//! Anomalies of a step against the recent ones.

use vstd::prelude::*;

use crate::config::TraceConfig;
use crate::number::Timestamp;
use crate::text;
use crate::types::ActionType;
use crate::types::Anomaly;
use crate::types::AnomalyType;
use crate::types::Severity;
use crate::types::TraceEntry;

verus! {

/// An anomaly with its texts.
pub struct Sighting {
    pub kind: AnomalyType,
    pub severity: Severity,
    pub detail: Seq<char>,
    pub step_id: Option<Seq<char>>,
    pub detected_at: (i64, u32),
}

impl View for Anomaly {
    type V = Sighting;

    open spec fn view(&self) -> Sighting {
        Sighting {
            kind: self.anomaly_type,
            severity: self.severity,
            detail: self.detail@,
            step_id: text::opt_text(self.step_id),
            detected_at: self.detected_at.parts(),
        }
    }
}

/// The texts of anomalies.
pub open spec fn sightings(v: Seq<Anomaly>) -> Seq<Sighting> {
    v.map_values(|a: Anomaly| a@)
}

/// An anomaly of the step.
pub open spec fn sighting(
    kind: AnomalyType,
    severity: Severity,
    detail: Seq<char>,
    current: TraceEntry,
    now: Timestamp,
) -> Sighting {
    Sighting {
        kind,
        severity,
        detail,
        step_id: Some(current.step_id@),
        detected_at: now.parts(),
    }
}

// ── Readings ─────────────────────────────────────────────────

/// What binary64 arithmetic makes of the token counts of the recent steps and of
/// the current one.
#[derive(Debug)]
pub struct TokenReading {
    /// The current count exceeds the average by more than the configured factor,
    /// and the average is above zero.
    pub is_spike: bool,
    /// The current count in multiples of the average, with one decimal.
    pub factor: String,
    /// The average, without decimals.
    pub average: String,
}

/// What binary64 arithmetic makes of the shares of reads.
#[derive(Debug)]
pub struct DriftReading {
    /// The shares differ by more than six tenths.
    pub is_shift: bool,
    /// The share in the first half in percent, without decimals.
    pub first_percent: String,
    /// The share in the second half in percent, without decimals.
    pub second_percent: String,
}

/// The reads in the first and in the second half of some steps.
#[derive(Debug, Clone, Copy, PartialEq, Eq, Structural)]
pub struct ReadSplit {
    pub first_reads: usize,
    pub first_len: usize,
    pub second_reads: usize,
    pub second_len: usize,
}

/// How many of the steps are reads.
pub open spec fn reads_in(steps: Seq<TraceEntry>) -> nat {
    steps.filter(|s: TraceEntry| s.action.action_type@ is Read).len()
}

/// The split describes the steps: the first half is the shorter one where the
/// number of steps is odd.
pub open spec fn splits(split: ReadSplit, steps: Seq<TraceEntry>) -> bool {
    let mid = (steps.len() / 2) as int;
    &&& split.first_len == mid
    &&& split.first_reads == reads_in(steps.take(mid))
    &&& split.second_len == steps.len() - mid
    &&& split.second_reads == reads_in(steps.skip(mid))
}

/// The reads in both halves of the recent steps together with the current one.
pub fn split_reads(current: &TraceEntry, recent: &[TraceEntry]) -> (r: ReadSplit)
    requires
        recent@.len() < usize::MAX,
    ensures
        splits(r, recent@.push(*current)),
{
    let n = recent.len();
    let mid: usize = (n + 1) / 2;
    let ghost all = recent@.push(*current);
    let ghost keep = |s: TraceEntry| s.action.action_type@ is Read;
    let mut first_reads: usize = 0;
    let mut second_reads: usize = 0;
    let mut i: usize = 0;
    proof {
        reveal(Seq::filter);
        assert(all.take(0) =~= Seq::<TraceEntry>::empty());
        assert(all.subrange(mid as int, mid as int) =~= Seq::<TraceEntry>::empty());
    }
    while i < n + 1
        invariant
            i <= n + 1,
            n == recent@.len(),
            n < usize::MAX,
            mid == (n + 1) / 2,
            all == recent@.push(*current),
            keep == (|s: TraceEntry| s.action.action_type@ is Read),
            first_reads <= i,
            second_reads <= i,
            first_reads == all.take(if i < mid {
                i as int
            } else {
                mid as int
            }).filter(keep).len(),
            second_reads == all.subrange(
                mid as int,
                if i < mid {
                    mid as int
                } else {
                    i as int
                },
            ).filter(keep).len(),
        decreases n + 1 - i,
    {
        let step = if i < n {
            &recent[i]
        } else {
            current
        };
        let is_read = matches!(step.action.action_type, ActionType::Read);
        assert(*step == all[i as int]);
        if i < mid {
            proof {
                crate::verification::patterns::lemma_filter_next(all, keep, i as int);
            }
            if is_read {
                first_reads += 1;
            }
        } else {
            proof {
                let second = all.skip(mid as int);
                assert(second[i - mid] == all[i as int]);
                crate::verification::patterns::lemma_filter_next(second, keep, i - mid);
                assert(second.take(i - mid) =~= all.subrange(mid as int, i as int));
                assert(second.take(i + 1 - mid) =~= all.subrange(mid as int, i + 1));
            }
            if is_read {
                second_reads += 1;
            }
        }
        i += 1;
    }
    assert(all.subrange(mid as int, i as int) =~= all.skip(mid as int));
    ReadSplit { first_reads, first_len: mid, second_reads, second_len: n + 1 - mid }
}

// ── Detection ────────────────────────────────────────────────

/// Token spike: the step uses far more tokens than the recent ones on average.
pub open spec fn token_spike(
    current: TraceEntry,
    recent: Seq<TraceEntry>,
    reading: TokenReading,
    now: Timestamp,
) -> Option<Sighting> {
    if recent.len() == 0 || current.tokens_used == 0 || !reading.is_spike {
        None
    } else {
        Some(
            sighting(
                AnomalyType::TokenSpike,
                Severity::Warning,
                "Token usage "@ + text::decimal(current.tokens_used as nat) + " is "@
                    + reading.factor@ + "x the rolling average "@ + reading.average@,
                current,
                now,
            ),
        )
    }
}

/// The last `window` steps.
pub open spec fn window_of(recent: Seq<TraceEntry>, window: nat) -> Seq<TraceEntry> {
    if recent.len() > window {
        recent.skip(recent.len() - window)
    } else {
        recent
    }
}

/// The step does the same as the current one.
pub open spec fn same_action(step: TraceEntry, current: TraceEntry) -> bool {
    step.action.action_type@ == current.action.action_type@ && step.action.description@
        == current.action.description@
}

/// How many of the last `window` steps do the same as the current one.
pub open spec fn same_count(current: TraceEntry, recent: Seq<TraceEntry>, window: nat) -> nat {
    window_of(recent, window).filter(|s: TraceEntry| same_action(s, current)).len()
}

/// Loop trap: the same action again and again within the window.
pub open spec fn loop_trap(
    current: TraceEntry,
    recent: Seq<TraceEntry>,
    window: nat,
    now: Timestamp,
) -> Option<Sighting> {
    let count = same_count(current, recent, window);
    if count < 3 {
        None
    } else {
        Some(
            sighting(
                AnomalyType::LoopTrap,
                Severity::Critical,
                "Action '"@ + current.action.description@ + "' repeated "@ + text::decimal(
                    count + 1,
                ) + " times in last "@ + text::decimal(window)
                    + " steps — possible infinite loop"@,
                current,
                now,
            ),
        )
    }
}

/// Goal drift: the share of reads shifted between the first half of the steps and
/// the second.
pub open spec fn goal_drift(
    current: TraceEntry,
    recent: Seq<TraceEntry>,
    reading: DriftReading,
    now: Timestamp,
) -> Option<Sighting> {
    if recent.len() < 5 || !reading.is_shift {
        None
    } else {
        Some(
            sighting(
                AnomalyType::GoalDrift,
                Severity::Info,
                "Action pattern shifted: read ratio changed from "@ + reading.first_percent@
                    + "% to "@ + reading.second_percent@ + "%"@,
                current,
                now,
            ),
        )
    }
}

/// The anomaly as a list.
pub open spec fn listed(s: Option<Sighting>) -> Seq<Sighting> {
    match s {
        Some(x) => seq![x],
        None => Seq::empty(),
    }
}

/// The anomalies of the step, in their order.
pub open spec fn anomalies_of(
    config: TraceConfig,
    current: TraceEntry,
    recent: Seq<TraceEntry>,
    tokens: TokenReading,
    drift: DriftReading,
    now: Timestamp,
) -> Seq<Sighting> {
    if !config.detect_anomalies {
        Seq::empty()
    } else {
        listed(token_spike(current, recent, tokens, now)) + listed(
            loop_trap(current, recent, config.loop_detection_window as nat, now),
        ) + listed(goal_drift(current, recent, drift, now))
    }
}

/// Detects anomalies by holding the current step against the recent ones.
#[derive(Debug, Clone, Copy)]
pub struct AnomalyDetector {
    config: TraceConfig,
}

impl AnomalyDetector {
    /// The configuration in force.
    pub closed spec fn settings(self) -> TraceConfig {
        self.config
    }

    pub fn new(config: TraceConfig) -> (r: AnomalyDetector)
        ensures
            r.settings() == config,
    {
        AnomalyDetector { config }
    }

    /// Analyzes the current step in the context of the recent ones, oldest first.
    pub fn detect(
        &self,
        current: &TraceEntry,
        recent: &[TraceEntry],
        tokens: &TokenReading,
        drift: &DriftReading,
        now: Timestamp,
    ) -> (r: Vec<Anomaly>)
        ensures
            sightings(r@) == anomalies_of(
                self.settings(),
                *current,
                recent@,
                *tokens,
                *drift,
                now,
            ),
    {
        let mut out: Vec<Anomaly> = Vec::new();
        assert(sightings(out@) =~= Seq::<Sighting>::empty());
        if !self.config.detect_anomalies {
            return out;
        }
        push_found(&mut out, self.detect_token_spike(current, recent, tokens, now));
        push_found(&mut out, self.detect_loop_trap(current, recent, now));
        push_found(&mut out, self.detect_goal_drift(current, recent, drift, now));
        assert(sightings(out@) =~= anomalies_of(
            self.settings(),
            *current,
            recent@,
            *tokens,
            *drift,
            now,
        ));
        out
    }

    fn detect_token_spike(
        &self,
        current: &TraceEntry,
        recent: &[TraceEntry],
        reading: &TokenReading,
        now: Timestamp,
    ) -> (r: Option<Anomaly>)
        ensures
            token_spike(*current, recent@, *reading, now) == match r {
                Some(a) => Some(a@),
                None => None,
            },
    {
        if recent.len() == 0 || current.tokens_used == 0 || !reading.is_spike {
            return None;
        }
        let mut d = "Token usage ".to_string();
        d.append(text::to_decimal(current.tokens_used).as_str());
        d.append(" is ");
        d.append(reading.factor.as_str());
        d.append("x the rolling average ");
        d.append(reading.average.as_str());
        Some(
            Anomaly {
                anomaly_type: AnomalyType::TokenSpike,
                severity: Severity::Warning,
                detail: d,
                step_id: Some(current.step_id.clone()),
                detected_at: now,
            },
        )
    }

    fn detect_loop_trap(&self, current: &TraceEntry, recent: &[TraceEntry], now: Timestamp) -> (r:
        Option<Anomaly>)
        ensures
            loop_trap(
                *current,
                recent@,
                self.settings().loop_detection_window as nat,
                now,
            ) == match r {
                Some(a) => Some(a@),
                None => None,
            },
    {
        let window = self.config.loop_detection_window as usize;
        let n = recent.len();
        let first: usize = if n > window {
            n - window
        } else {
            0
        };
        let ghost recent_window = window_of(recent@, window as nat);
        let ghost keep = |s: TraceEntry| same_action(s, *current);
        let mut count: usize = 0;
        let mut i: usize = first;
        proof {
            reveal(Seq::filter);
            assert(recent_window =~= recent@.skip(first as int));
            assert(recent_window.take(0) =~= Seq::<TraceEntry>::empty());
        }
        while i < n
            invariant
                first <= i <= n,
                n == recent@.len(),
                n - first <= window,
                keep == (|s: TraceEntry| same_action(s, *current)),
                recent_window == recent@.skip(first as int),
                count <= i - first,
                count == recent_window.take(i - first).filter(keep).len(),
            decreases n - i,
        {
            let s = &recent[i];
            proof {
                assert(recent_window[i - first] == *s);
                crate::verification::patterns::lemma_filter_next(recent_window, keep, i - first);
            }
            if s.action.action_type == current.action.action_type && text::str_eq(
                s.action.description.as_str(),
                current.action.description.as_str(),
            ) {
                count += 1;
            }
            i += 1;
        }
        assert(recent_window.take(n - first) =~= recent_window);
        if count < 3 {
            return None;
        }
        let mut d = "Action '".to_string();
        d.append(current.action.description.as_str());
        d.append("' repeated ");
        d.append(text::to_decimal(count as u64 + 1).as_str());
        d.append(" times in last ");
        d.append(text::to_decimal(window as u64).as_str());
        d.append(" steps — possible infinite loop");
        Some(
            Anomaly {
                anomaly_type: AnomalyType::LoopTrap,
                severity: Severity::Critical,
                detail: d,
                step_id: Some(current.step_id.clone()),
                detected_at: now,
            },
        )
    }

    fn detect_goal_drift(
        &self,
        current: &TraceEntry,
        recent: &[TraceEntry],
        reading: &DriftReading,
        now: Timestamp,
    ) -> (r: Option<Anomaly>)
        ensures
            goal_drift(*current, recent@, *reading, now) == match r {
                Some(a) => Some(a@),
                None => None,
            },
    {
        if recent.len() < 5 || !reading.is_shift {
            return None;
        }
        let mut d = "Action pattern shifted: read ratio changed from ".to_string();
        d.append(reading.first_percent.as_str());
        d.append("% to ");
        d.append(reading.second_percent.as_str());
        d.append("%");
        Some(
            Anomaly {
                anomaly_type: AnomalyType::GoalDrift,
                severity: Severity::Info,
                detail: d,
                step_id: Some(current.step_id.clone()),
                detected_at: now,
            },
        )
    }
}

/// Appends an anomaly that was found, if one was.
fn push_found(list: &mut Vec<Anomaly>, found: Option<Anomaly>)
    ensures
        sightings(final(list)@) == sightings(old(list)@) + listed(
            match found {
                Some(a) => Some(a@),
                None => None,
            },
        ),
{
    let ghost before = sightings(list@);
    match found {
        Some(a) => {
            list.push(a);
            assert(sightings(list@) =~= before + seq![a@]);
        },
        None => {
            assert(sightings(list@) =~= before + Seq::<Sighting>::empty());
        },
    }
}

// ── Laws ─────────────────────────────────────────────────────

/// Where detection is switched off, nothing is an anomaly.
pub proof fn law_detection_can_be_disabled(
    config: TraceConfig,
    current: TraceEntry,
    recent: Seq<TraceEntry>,
    tokens: TokenReading,
    drift: DriftReading,
    now: Timestamp,
)
    requires
        !config.detect_anomalies,
    ensures
        anomalies_of(config, current, recent, tokens, drift, now) == Seq::<Sighting>::empty(),
{
}

/// A first step is never an anomaly, and every anomaly names the step it is about.
pub proof fn law_anomalies_name_the_step(
    config: TraceConfig,
    current: TraceEntry,
    recent: Seq<TraceEntry>,
    tokens: TokenReading,
    drift: DriftReading,
    now: Timestamp,
)
    ensures
        recent.len() == 0 ==> anomalies_of(config, current, recent, tokens, drift, now)
            == Seq::<Sighting>::empty(),
        forall|i: int|
            0 <= i < anomalies_of(config, current, recent, tokens, drift, now).len() ==> (
            #[trigger] anomalies_of(config, current, recent, tokens, drift, now)[i]).step_id
                == Some(current.step_id@),
{
    reveal(Seq::filter);
    if recent.len() == 0 {
        assert(window_of(recent, config.loop_detection_window as nat) =~= Seq::<
            TraceEntry,
        >::empty());
        assert(anomalies_of(config, current, recent, tokens, drift, now) =~= Seq::<
            Sighting,
        >::empty());
    }
}

}
