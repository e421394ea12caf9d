//! Failure patterns in recorded sessions.

use vstd::prelude::*;

use crate::learner::tally;
use crate::learner::tally::ActionTally;
use crate::learner::tally::Counts;
use crate::learner::tally::Tallies;
use crate::learner::tally::Tally;
use crate::number::Real;
use crate::text;
use crate::types::SessionId;
use crate::types::TraceEntry;

verus! {

/// A discovered pattern that goes along with failing steps.
#[derive(Debug, Clone)]
pub struct FailurePattern {
    pub name: String,
    pub description: String,
    pub occurrences: u32,
    pub failure_rate: Real,
    pub confidence: Real,
    pub suggestion: LearnedSuggestion,
}

/// What is recommended where a pattern was discovered.
#[derive(Debug, Clone)]
pub enum LearnedSuggestion {
    /// Take a checkpoint before these action types.
    CheckpointBefore { action_types: Vec<String> },
    /// Warn when so many consecutive writes happen without a read.
    WarnConsecutiveWrites { threshold: u32 },
    /// Warn when the same file is edited more than `threshold` times.
    WarnRepeatedFileEdits { threshold: u32 },
    /// Suggest running tests after source edits.
    SuggestTestAfterEdit,
    /// Suggest a checkpoint every so many steps.
    SuggestPeriodicCheckpoint { interval: u32 },
}

/// A suggestion with its texts.
pub enum Suggestion {
    CheckpointBefore { action_types: Seq<Seq<char>> },
    WarnConsecutiveWrites { threshold: u32 },
    WarnRepeatedFileEdits { threshold: u32 },
    SuggestTestAfterEdit,
    SuggestPeriodicCheckpoint { interval: u32 },
}

impl View for LearnedSuggestion {
    type V = Suggestion;

    open spec fn view(&self) -> Suggestion {
        match self {
            LearnedSuggestion::CheckpointBefore { action_types } => Suggestion::CheckpointBefore {
                action_types: text::strings(action_types@),
            },
            LearnedSuggestion::WarnConsecutiveWrites { threshold } => {
                Suggestion::WarnConsecutiveWrites { threshold: *threshold }
            },
            LearnedSuggestion::WarnRepeatedFileEdits { threshold } => {
                Suggestion::WarnRepeatedFileEdits { threshold: *threshold }
            },
            LearnedSuggestion::SuggestTestAfterEdit => Suggestion::SuggestTestAfterEdit,
            LearnedSuggestion::SuggestPeriodicCheckpoint { interval } => {
                Suggestion::SuggestPeriodicCheckpoint { interval: *interval }
            },
        }
    }
}

/// A pattern with its texts.
pub struct Finding {
    pub name: Seq<char>,
    pub description: Seq<char>,
    pub occurrences: nat,
    pub failure_rate: Real,
    pub confidence: Real,
    pub suggestion: Suggestion,
}

impl View for FailurePattern {
    type V = Finding;

    open spec fn view(&self) -> Finding {
        Finding {
            name: self.name@,
            description: self.description@,
            occurrences: self.occurrences as nat,
            failure_rate: self.failure_rate,
            confidence: self.confidence,
            suggestion: self.suggestion@,
        }
    }
}

/// The texts of patterns.
pub open spec fn findings(v: Seq<FailurePattern>) -> Seq<Finding> {
    v.map_values(|p: FailurePattern| p@)
}

/// A complete session for analysis.
#[derive(Debug, Clone)]
pub struct SessionTrace {
    pub session_id: SessionId,
    pub steps: Vec<TraceEntry>,
}

// ── Measures ─────────────────────────────────────────────────

/// What binary64 arithmetic makes of a tally.
#[derive(Debug)]
pub struct Measure {
    /// The failures among all.
    pub rate: Real,
    /// How much the rate can be relied on.
    pub confidence: Real,
    /// The rate in percent, without decimals.
    pub percent: String,
}

/// What binary64 arithmetic makes of all tallies.
#[derive(Debug)]
pub struct Measures {
    pub writes: Measure,
    pub repeats: Measure,
    pub untested: Measure,
    /// The rate of the tested edits in percent, without decimals.
    pub tested_percent: String,
    /// Untested edits fail more often than tested ones by more than a tenth.
    pub untested_is_worse: bool,
    pub unprotected: Measure,
    pub worst: Measure,
}

// ── Patterns ─────────────────────────────────────────────────

/// `failed/total`
pub open spec fn ratio_text(c: Counts) -> Seq<char> {
    text::decimal(c.failed) + "/"@ + text::decimal(c.total)
}

/// The pattern with the given texts and the measured numbers.
pub open spec fn finding(
    name: Seq<char>,
    description: Seq<char>,
    occurrences: nat,
    m: Measure,
    suggestion: Suggestion,
) -> Finding {
    Finding {
        name,
        description,
        occurrences,
        failure_rate: m.rate,
        confidence: m.confidence,
        suggestion,
    }
}

/// Consecutive writes without a read often mean that an agent edits blindly.
pub open spec fn writes_finding(c: Counts, m: Measure) -> Option<Finding> {
    if c.total < 2 {
        None
    } else {
        Some(
            finding(
                "consecutive_writes_without_read"@,
                "3+ consecutive writes without a read: "@ + ratio_text(c) + " failed ("@
                    + m.percent@ + "%)"@,
                c.total,
                m,
                Suggestion::WarnConsecutiveWrites { threshold: 3 },
            ),
        )
    }
}

/// Editing the same file again and again often means that an agent does not
/// converge.
pub open spec fn repeats_finding(c: Counts, m: Measure) -> Option<Finding> {
    if c.total < 2 {
        None
    } else {
        Some(
            finding(
                "repeated_file_edits"@,
                "Same file edited 3+ times: "@ + ratio_text(c) + " failed ("@ + m.percent@
                    + "%)"@,
                c.total,
                m,
                Suggestion::WarnRepeatedFileEdits { threshold: 3 },
            ),
        )
    }
}

/// Source edits without tests behind them go along with regressions. This is
/// reported only where not testing is clearly worse.
pub open spec fn untested_finding(
    untested: Counts,
    tested: Counts,
    m: Measure,
    tested_percent: Seq<char>,
    is_worse: bool,
) -> Option<Finding> {
    let total = untested.total + tested.total;
    if total < 3 || untested.total < 2 || !is_worse {
        None
    } else {
        Some(
            finding(
                "missing_test_after_edit"@,
                "Source edits without test: "@ + m.percent@ + "% failure vs "@ + tested_percent
                    + "% with test ("@ + text::decimal(total) + " edits observed)"@,
                untested.total,
                m,
                Suggestion::SuggestTestAfterEdit,
            ),
        )
    }
}

/// Long sessions without a checkpoint have no point to recover to.
pub open spec fn unprotected_finding(c: Counts, m: Measure) -> Option<Finding> {
    if c.total < 2 {
        None
    } else {
        Some(
            finding(
                "long_session_without_checkpoint"@,
                "Sessions with 5+ steps and no checkpoint: "@ + ratio_text(c)
                    + " had failures ("@ + m.percent@ + "%)"@,
                c.total,
                m,
                Suggestion::SuggestPeriodicCheckpoint { interval: 5 },
            ),
        )
    }
}

/// An action type that fails in at least 15% of its steps.
pub open spec fn worst_finding(worst: Option<ActionTally>, m: Measure) -> Option<Finding> {
    match worst {
        None => None,
        Some(w) => if 20 * w.tally.failed < 3 * w.tally.total {
            None
        } else {
            Some(
                finding(
                    "high_failure_action_type"@,
                    "Action type '"@ + w.name@ + "': "@ + ratio_text(w.tally@) + " failed ("@
                        + m.percent@ + "%)"@,
                    w.tally.total as nat,
                    m,
                    Suggestion::CheckpointBefore { action_types: seq![w.name@] },
                ),
            )
        },
    }
}

/// The finding as a list.
pub open spec fn listed(f: Option<Finding>) -> Seq<Finding> {
    match f {
        Some(p) => seq![p],
        None => Seq::empty(),
    }
}

/// The patterns that the counts show, in the order of the detectors.
pub open spec fn found(t: Tallies, m: Measures) -> Seq<Finding> {
    listed(writes_finding(t.writes@, m.writes)) + listed(repeats_finding(t.repeats@, m.repeats))
        + listed(
        untested_finding(
            t.untested@,
            t.tested@,
            m.untested,
            m.tested_percent@,
            m.untested_is_worse,
        ),
    ) + listed(unprotected_finding(t.unprotected@, m.unprotected)) + listed(
        worst_finding(t.worst, m.worst),
    )
}

fn ratio(t: Tally) -> (r: String)
    ensures
        r@ == ratio_text(t@),
{
    let mut m = text::to_decimal(t.failed as u64);
    m.append("/");
    m.append(text::to_decimal(t.total as u64).as_str());
    m
}

/// The pattern of consecutive writes without a read.
pub fn detect_consecutive_writes_without_read(t: Tally, m: &Measure) -> (r: Option<FailurePattern>)
    ensures
        writes_finding(t@, *m) == match r {
            Some(p) => Some(p@),
            None => None,
        },
{
    if t.total < 2 {
        return None;
    }
    let mut d = "3+ consecutive writes without a read: ".to_string();
    d.append(ratio(t).as_str());
    d.append(" failed (");
    d.append(m.percent.as_str());
    d.append("%)");
    Some(
        FailurePattern {
            name: "consecutive_writes_without_read".to_string(),
            description: d,
            occurrences: t.total,
            failure_rate: m.rate,
            confidence: m.confidence,
            suggestion: LearnedSuggestion::WarnConsecutiveWrites { threshold: 3 },
        },
    )
}

/// The pattern of repeated edits of the same file.
pub fn detect_repeated_file_edits(t: Tally, m: &Measure) -> (r: Option<FailurePattern>)
    ensures
        repeats_finding(t@, *m) == match r {
            Some(p) => Some(p@),
            None => None,
        },
{
    if t.total < 2 {
        return None;
    }
    let mut d = "Same file edited 3+ times: ".to_string();
    d.append(ratio(t).as_str());
    d.append(" failed (");
    d.append(m.percent.as_str());
    d.append("%)");
    Some(
        FailurePattern {
            name: "repeated_file_edits".to_string(),
            description: d,
            occurrences: t.total,
            failure_rate: m.rate,
            confidence: m.confidence,
            suggestion: LearnedSuggestion::WarnRepeatedFileEdits { threshold: 3 },
        },
    )
}

/// The pattern of source edits without tests behind them.
pub fn detect_missing_test_after_edit(
    untested: Tally,
    tested: Tally,
    m: &Measure,
    tested_percent: &str,
    is_worse: bool,
) -> (r: Option<FailurePattern>)
    ensures
        untested_finding(untested@, tested@, *m, tested_percent@, is_worse) == match r {
            Some(p) => Some(p@),
            None => None,
        },
{
    let total: u64 = untested.total as u64 + tested.total as u64;
    if total < 3 || untested.total < 2 || !is_worse {
        return None;
    }
    let mut d = "Source edits without test: ".to_string();
    d.append(m.percent.as_str());
    d.append("% failure vs ");
    d.append(tested_percent);
    d.append("% with test (");
    d.append(text::to_decimal(total).as_str());
    d.append(" edits observed)");
    Some(
        FailurePattern {
            name: "missing_test_after_edit".to_string(),
            description: d,
            occurrences: untested.total,
            failure_rate: m.rate,
            confidence: m.confidence,
            suggestion: LearnedSuggestion::SuggestTestAfterEdit,
        },
    )
}

/// The pattern of long sessions without a checkpoint.
pub fn detect_long_sessions_without_checkpoint(t: Tally, m: &Measure) -> (r: Option<FailurePattern>)
    ensures
        unprotected_finding(t@, *m) == match r {
            Some(p) => Some(p@),
            None => None,
        },
{
    if t.total < 2 {
        return None;
    }
    let mut d = "Sessions with 5+ steps and no checkpoint: ".to_string();
    d.append(ratio(t).as_str());
    d.append(" had failures (");
    d.append(m.percent.as_str());
    d.append("%)");
    Some(
        FailurePattern {
            name: "long_session_without_checkpoint".to_string(),
            description: d,
            occurrences: t.total,
            failure_rate: m.rate,
            confidence: m.confidence,
            suggestion: LearnedSuggestion::SuggestPeriodicCheckpoint { interval: 5 },
        },
    )
}

/// The pattern of an action type that fails often.
pub fn detect_failure_after_action_type(worst: &Option<ActionTally>, m: &Measure) -> (r: Option<
    FailurePattern,
>)
    ensures
        worst_finding(*worst, *m) == match r {
            Some(p) => Some(p@),
            None => None,
        },
{
    match worst {
        None => None,
        Some(w) => {
            if 20 * (w.tally.failed as u64) < 3 * (w.tally.total as u64) {
                return None;
            }
            let mut d = "Action type '".to_string();
            d.append(w.name.as_str());
            d.append("': ");
            d.append(ratio(w.tally).as_str());
            d.append(" failed (");
            d.append(m.percent.as_str());
            d.append("%)");
            let action_types = text::owned(vec![w.name.as_str()]);
            assert(text::strings(action_types@) =~= seq![w.name@]);
            Some(
                FailurePattern {
                    name: "high_failure_action_type".to_string(),
                    description: d,
                    occurrences: w.tally.total,
                    failure_rate: m.rate,
                    confidence: m.confidence,
                    suggestion: LearnedSuggestion::CheckpointBefore { action_types },
                },
            )
        },
    }
}

// ── Ranking ──────────────────────────────────────────────────

/// Where a pattern of this confidence goes: before the first one of less.
pub open spec fn rank_position(list: Seq<Finding>, confidence: Real) -> int
    decreases list.len(),
{
    if list.len() == 0 || list[0].confidence.lt(confidence) {
        0
    } else {
        1 + rank_position(list.skip(1), confidence)
    }
}

/// The patterns by descending confidence. Patterns of the same confidence keep
/// their order.
pub open spec fn ranked(list: Seq<Finding>) -> Seq<Finding>
    decreases list.len(),
{
    if list.len() == 0 {
        list
    } else {
        let rest = ranked(list.drop_last());
        rest.insert(rank_position(rest, list.last().confidence), list.last())
    }
}

pub proof fn lemma_rank_position_bounds(list: Seq<Finding>, confidence: Real)
    ensures
        0 <= rank_position(list, confidence) <= list.len(),
    decreases list.len(),
{
    if list.len() > 0 && !list[0].confidence.lt(confidence) {
        lemma_rank_position_bounds(list.skip(1), confidence);
    }
}

/// Adds a pattern to those that are ranked already.
fn rank_in(list: &mut Vec<FailurePattern>, pattern: FailurePattern)
    ensures
        findings(final(list)@) == findings(old(list)@).insert(
            rank_position(findings(old(list)@), pattern.confidence),
            pattern@,
        ),
{
    let ghost before = findings(list@);
    let ghost c = pattern.confidence;
    let mut i: usize = 0;
    assert(before.skip(0) =~= before);
    while i < list.len() && !list[i].confidence.less_than(&pattern.confidence)
        invariant
            i <= list@.len(),
            before == findings(list@),
            c == pattern.confidence,
            list@ == old(list)@,
            rank_position(before, c) == i + rank_position(before.skip(i as int), c),
        decreases list@.len() - i,
    {
        assert(before.skip(i as int)[0] == list@[i as int]@);
        assert(before.skip(i as int).skip(1) =~= before.skip(i + 1));
        i += 1;
    }
    proof {
        if i < list@.len() {
            assert(before.skip(i as int)[0] == list@[i as int]@);
        }
    }
    let ghost p = pattern@;
    list.insert(i, pattern);
    assert(findings(list@) =~= before.insert(i as int, p));
}

/// Adds a pattern that was found, if one was.
fn rank_found(list: &mut Vec<FailurePattern>, pattern: Option<FailurePattern>, Ghost(so_far): Ghost<
    Seq<Finding>,
>)
    requires
        findings(old(list)@) == ranked(so_far),
    ensures
        findings(final(list)@) == ranked(
            so_far + listed(
                match pattern {
                    Some(p) => Some(p@),
                    None => None,
                },
            ),
        ),
{
    match pattern {
        Some(p) => {
            proof {
                let longer = so_far + seq![p@];
                assert(longer.drop_last() =~= so_far);
                assert(longer.last() == p@);
            }
            rank_in(list, p);
        },
        None => {
            assert(so_far + Seq::<Finding>::empty() =~= so_far);
        },
    }
}

/// The patterns that the counts show, the most reliable first.
pub fn patterns_from(t: &Tallies, m: &Measures) -> (r: Vec<FailurePattern>)
    ensures
        findings(r@) == ranked(found(*t, *m)),
{
    let mut list: Vec<FailurePattern> = Vec::new();
    let ghost a: Seq<Finding> = Seq::empty();
    let ghost b = listed(writes_finding(t.writes@, m.writes));
    let ghost c = b + listed(repeats_finding(t.repeats@, m.repeats));
    let ghost d = c + listed(
        untested_finding(
            t.untested@,
            t.tested@,
            m.untested,
            m.tested_percent@,
            m.untested_is_worse,
        ),
    );
    let ghost e = d + listed(unprotected_finding(t.unprotected@, m.unprotected));
    proof {
        assert(findings(list@) =~= ranked(a));
        assert(a + b =~= b);
    }
    rank_found(&mut list, detect_consecutive_writes_without_read(t.writes, &m.writes), Ghost(a));
    rank_found(&mut list, detect_repeated_file_edits(t.repeats, &m.repeats), Ghost(b));
    rank_found(
        &mut list,
        detect_missing_test_after_edit(
            t.untested,
            t.tested,
            &m.untested,
            m.tested_percent.as_str(),
            m.untested_is_worse,
        ),
        Ghost(c),
    );
    rank_found(
        &mut list,
        detect_long_sessions_without_checkpoint(t.unprotected, &m.unprotected),
        Ghost(d),
    );
    rank_found(&mut list, detect_failure_after_action_type(&t.worst, &m.worst), Ghost(e));
    list
}

/// Extracts the failure patterns from recorded sessions. `m` is what binary64
/// arithmetic makes of the counts of the sessions.
pub fn analyze_sessions(sessions: &[SessionTrace], m: &Measures) -> (r: Vec<FailurePattern>)
    requires
        tally::countable(sessions@),
    ensures
        exists|t: Tallies| #[trigger]
            tally::tallied(t, sessions@) && findings(r@) == ranked(found(t, *m)),
{
    let t = tally::tally_sessions(sessions);
    patterns_from(&t, m)
}

}
