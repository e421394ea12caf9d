//! What holds of the patterns, said of the counts.

use vstd::prelude::*;

use crate::learner::patterns;
use crate::learner::patterns::Finding;
use crate::learner::patterns::Measure;
use crate::learner::patterns::Measures;
use crate::learner::patterns::Suggestion;
use crate::learner::tally::Counts;
use crate::learner::tally::Tallies;
use crate::number::Real;
use crate::text;

verus! {

/// The pattern has these texts, this suggestion and the measured numbers.
pub open spec fn tells(
    f: Finding,
    name: Seq<char>,
    description: Seq<char>,
    occurrences: nat,
    m: Measure,
    suggestion: Suggestion,
) -> bool {
    &&& f.name == name
    &&& f.description == description
    &&& f.occurrences == occurrences
    &&& f.failure_rate == m.rate
    &&& f.confidence == m.confidence
    &&& f.suggestion == suggestion
}

/// `failed/total failed (percent%)`
pub open spec fn share_words(c: Counts, words: Seq<char>, percent: Seq<char>) -> Seq<char> {
    text::decimal(c.failed) + "/"@ + text::decimal(c.total) + words + percent + "%)"@
}

/// Runs of writes are a pattern from two on, and suggest a warning at three writes.
pub proof fn law_writes_pattern(c: Counts, m: Measure)
    ensures
        patterns::writes_finding(c, m) is Some <==> c.total >= 2,
        patterns::writes_finding(c, m) matches Some(f) ==> tells(
            f,
            "consecutive_writes_without_read"@,
            "3+ consecutive writes without a read: "@ + share_words(c, " failed ("@, m.percent@),
            c.total,
            m,
            Suggestion::WarnConsecutiveWrites { threshold: 3 },
        ),
{
    if let Some(f) = patterns::writes_finding(c, m) {
        assert(f.description =~= "3+ consecutive writes without a read: "@ + share_words(
            c,
            " failed ("@,
            m.percent@,
        ));
    }
}

/// Repeated edits are a pattern from two on, and suggest a warning at three edits.
pub proof fn law_repeats_pattern(c: Counts, m: Measure)
    ensures
        patterns::repeats_finding(c, m) is Some <==> c.total >= 2,
        patterns::repeats_finding(c, m) matches Some(f) ==> tells(
            f,
            "repeated_file_edits"@,
            "Same file edited 3+ times: "@ + share_words(c, " failed ("@, m.percent@),
            c.total,
            m,
            Suggestion::WarnRepeatedFileEdits { threshold: 3 },
        ),
{
    if let Some(f) = patterns::repeats_finding(c, m) {
        assert(f.description =~= "Same file edited 3+ times: "@ + share_words(
            c,
            " failed ("@,
            m.percent@,
        ));
    }
}

/// Edits without tests are a pattern where there are two of them, three edits in all, and
/// not testing is clearly worse. They suggest to test.
pub proof fn law_untested_pattern(
    untested: Counts,
    tested: Counts,
    m: Measure,
    tested_percent: Seq<char>,
    is_worse: bool,
)
    ensures
        patterns::untested_finding(untested, tested, m, tested_percent, is_worse) is Some
            <==> is_worse && untested.total >= 2 && untested.total + tested.total >= 3,
        patterns::untested_finding(untested, tested, m, tested_percent, is_worse) matches Some(f)
            ==> tells(
            f,
            "missing_test_after_edit"@,
            "Source edits without test: "@ + m.percent@ + "% failure vs "@ + tested_percent
                + "% with test ("@ + text::decimal(untested.total + tested.total)
                + " edits observed)"@,
            untested.total,
            m,
            Suggestion::SuggestTestAfterEdit,
        ),
{
}

/// Long sessions without a checkpoint are a pattern from two on, and suggest a checkpoint
/// every five steps.
pub proof fn law_unprotected_pattern(c: Counts, m: Measure)
    ensures
        patterns::unprotected_finding(c, m) is Some <==> c.total >= 2,
        patterns::unprotected_finding(c, m) matches Some(f) ==> tells(
            f,
            "long_session_without_checkpoint"@,
            "Sessions with 5+ steps and no checkpoint: "@ + share_words(
                c,
                " had failures ("@,
                m.percent@,
            ),
            c.total,
            m,
            Suggestion::SuggestPeriodicCheckpoint { interval: 5 },
        ),
{
    if let Some(f) = patterns::unprotected_finding(c, m) {
        assert(f.description =~= "Sessions with 5+ steps and no checkpoint: "@ + share_words(
            c,
            " had failures ("@,
            m.percent@,
        ));
    }
}

/// The worst action type is a pattern where at least 15 of a hundred of its steps failed,
/// and suggests a checkpoint before it.
pub proof fn law_worst_pattern(t: Tallies, m: Measure)
    ensures
        patterns::worst_finding(t.worst, m) is Some <==> (t.worst matches Some(w) && 100
            * w.tally.failed >= 15 * w.tally.total),
        patterns::worst_finding(t.worst, m) matches Some(f) ==> tells(
            f,
            "high_failure_action_type"@,
            "Action type '"@ + t.worst->0.name@ + "': "@ + share_words(
                t.worst->0.tally@,
                " failed ("@,
                m.percent@,
            ),
            t.worst->0.tally.total as nat,
            m,
            Suggestion::CheckpointBefore { action_types: seq![t.worst->0.name@] },
        ),
{
    if let Some(f) = patterns::worst_finding(t.worst, m) {
        assert(f.description =~= "Action type '"@ + t.worst->0.name@ + "': "@ + share_words(
            t.worst->0.tally@,
            " failed ("@,
            m.percent@,
        ));
    }
}

/// What the counts show are the patterns of the single counts, no others: each of them
/// that is one is found, and each that is found is one of them.
pub proof fn law_patterns_found(t: Tallies, m: Measures, f: Finding)
    ensures
        patterns::found(t, m).contains(f) <==> {
            ||| patterns::writes_finding(t.writes@, m.writes) == Some(f)
            ||| patterns::repeats_finding(t.repeats@, m.repeats) == Some(f)
            ||| patterns::untested_finding(
                t.untested@,
                t.tested@,
                m.untested,
                m.tested_percent@,
                m.untested_is_worse,
            ) == Some(f)
            ||| patterns::unprotected_finding(t.unprotected@, m.unprotected) == Some(f)
            ||| patterns::worst_finding(t.worst, m.worst) == Some(f)
        },
{
    let a = patterns::listed(patterns::writes_finding(t.writes@, m.writes));
    let b = patterns::listed(patterns::repeats_finding(t.repeats@, m.repeats));
    let c = patterns::listed(
        patterns::untested_finding(
            t.untested@,
            t.tested@,
            m.untested,
            m.tested_percent@,
            m.untested_is_worse,
        ),
    );
    let d = patterns::listed(patterns::unprotected_finding(t.unprotected@, m.unprotected));
    let e = patterns::listed(patterns::worst_finding(t.worst, m.worst));
    lemma_in_either(a, b, f);
    lemma_in_either(a + b, c, f);
    lemma_in_either(a + b + c, d, f);
    lemma_in_either(a + b + c + d, e, f);
    lemma_listed(patterns::writes_finding(t.writes@, m.writes), f);
    lemma_listed(patterns::repeats_finding(t.repeats@, m.repeats), f);
    lemma_listed(
        patterns::untested_finding(
            t.untested@,
            t.tested@,
            m.untested,
            m.tested_percent@,
            m.untested_is_worse,
        ),
        f,
    );
    lemma_listed(patterns::unprotected_finding(t.unprotected@, m.unprotected), f);
    lemma_listed(patterns::worst_finding(t.worst, m.worst), f);
}

proof fn lemma_listed(o: Option<Finding>, f: Finding)
    ensures
        patterns::listed(o).contains(f) <==> o == Some(f),
{
    if let Some(p) = o {
        assert(patterns::listed(o)[0] == p);
    }
}

proof fn lemma_in_either(a: Seq<Finding>, b: Seq<Finding>, f: Finding)
    ensures
        (a + b).contains(f) <==> a.contains(f) || b.contains(f),
{
    if a.contains(f) {
        let i = choose|i: int| 0 <= i < a.len() && a[i] == f;
        assert((a + b)[i] == f);
    }
    if b.contains(f) {
        let i = choose|i: int| 0 <= i < b.len() && b[i] == f;
        assert((a + b)[a.len() + i] == f);
    }
    if (a + b).contains(f) {
        let i = choose|i: int| 0 <= i < (a + b).len() && (a + b)[i] == f;
        if i < a.len() {
            assert(a[i] == f);
        } else {
            assert(b[i - a.len()] == f);
        }
    }
}

/// Confidences are compared as numbers: of two that are numbers one is at least the
/// other, and exactly one of "at least" and "less" holds; what is no number is neither.
/// Among numbers without a sign the larger pattern of bits is the larger number, among
/// those with a sign the smaller one is, and no number with a sign exceeds one without.
pub proof fn law_numbers_are_ordered(a: Real, b: Real)
    ensures
        !a.is_nan() && !b.is_nan() ==> (a.ge(b) || b.ge(a)) && (a.ge(b) <==> !a.lt(b)),
        a.is_nan() || b.is_nan() ==> !a.ge(b) && !a.lt(b),
        !a.is_nan() && !b.is_nan() && a.bits < 0x8000_0000_0000_0000 && b.bits
            < 0x8000_0000_0000_0000 ==> (a.ge(b) <==> a.bits >= b.bits),
        !a.is_nan() && !b.is_nan() && a.bits >= 0x8000_0000_0000_0000 && b.bits
            >= 0x8000_0000_0000_0000 ==> (a.ge(b) <==> a.bits <= b.bits),
        !a.is_nan() && !b.is_nan() && a.bits < 0x8000_0000_0000_0000 && b.bits
            >= 0x8000_0000_0000_0000 ==> a.ge(b) && (b.ge(a) <==> a.bits == 0 && b.bits
            == 0x8000_0000_0000_0000),
        a.is_nan() <==> a.bits as int % 0x8000_0000_0000_0000 > 0x7FF0_0000_0000_0000,
{
}

}
