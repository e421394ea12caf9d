//! Learning from how past sessions failed.

use vstd::prelude::*;

use crate::learner::patterns::FailurePattern;
use crate::learner::patterns::Measures;
use crate::learner::patterns::SessionTrace;
use crate::learner::rules::LearnedRule;
use crate::number;
use crate::number::Real;
use crate::types::SessionId;
use crate::types::TraceEntry;

pub mod advice_laws;
pub mod laws;
pub mod pattern_laws;
pub mod patterns;
pub mod persist;
pub mod rules;
pub mod tally;
pub mod tally_laws;

verus! {

/// What was learned from the recorded sessions.
#[derive(Debug, Clone)]
pub struct LearningReport {
    pub sessions_analyzed: u32,
    pub total_steps: u32,
    pub total_failures: u32,
    pub patterns_found: Vec<FailurePattern>,
    pub rules_generated: Vec<LearnedRule>,
}

/// How many of the steps failed.
pub open spec fn failure_count(steps: Seq<TraceEntry>) -> nat {
    steps.filter(|s: TraceEntry| tally::failing(s)).len()
}

/// The steps of a session for analysis. A session without steps has nothing to
/// analyze.
pub fn trace_of(session_id: SessionId, steps: Vec<TraceEntry>) -> (r: Option<SessionTrace>)
    ensures
        r is Some <==> steps@.len() > 0,
        r matches Some(t) ==> t.session_id == session_id && t.steps == steps,
{
    if steps.len() == 0 {
        None
    } else {
        Some(SessionTrace { session_id, steps })
    }
}

/// Counts the steps that failed.
fn count_failures(sessions: &[SessionTrace]) -> (r: (u32, u32))
    requires
        tally::all_steps(sessions@).len() <= u32::MAX,
    ensures
        r.0 == tally::all_steps(sessions@).len(),
        r.1 == failure_count(tally::all_steps(sessions@)),
{
    let ghost bad = |s: TraceEntry| tally::failing(s);
    let mut total: u32 = 0;
    let mut failed: u32 = 0;
    let mut k: usize = 0;
    proof {
        reveal(Seq::filter);
        assert(sessions@.take(0) =~= Seq::<SessionTrace>::empty());
    }
    while k < sessions.len()
        invariant
            k <= sessions.len(),
            bad == (|s: TraceEntry| tally::failing(s)),
            tally::all_steps(sessions@).len() <= u32::MAX,
            total == tally::all_steps(sessions@.take(k as int)).len(),
            failed == tally::all_steps(sessions@.take(k as int)).filter(bad).len(),
        decreases sessions.len() - k,
    {
        let steps = &sessions[k].steps;
        let ghost base = tally::all_steps(sessions@.take(k as int));
        proof {
            assert(sessions@.take(k + 1).drop_last() =~= sessions@.take(k as int));
            assert(sessions@.take(k + 1).last() == sessions@[k as int]);
            assert(base + steps@.take(0) =~= base);
            tally::lemma_all_steps_split(sessions@, k + 1);
            let rest = choose|rest: Seq<TraceEntry>|
                #[trigger] (tally::all_steps(sessions@.take(k + 1)) + rest) == tally::all_steps(
                    sessions@,
                );
            assert(base.len() + steps@.len() <= u32::MAX);
        }
        let mut i: usize = 0;
        while i < steps.len()
            invariant
                i <= steps.len(),
                bad == (|s: TraceEntry| tally::failing(s)),
                base.len() + steps@.len() <= u32::MAX,
                total == base.len() + i,
                failed == (base + steps@.take(i as int)).filter(bad).len(),
                failed <= total,
            decreases steps.len() - i,
        {
            let ghost seen = base + steps@.take(i as int);
            proof {
                reveal(Seq::filter);
                let longer = base + steps@.take(i + 1);
                assert(longer.drop_last() =~= seen);
                assert(longer.last() == steps@[i as int]);
            }
            total += 1;
            if !steps[i].result.is_success() {
                failed += 1;
            }
            i += 1;
        }
        assert(base + steps@.take(i as int) =~= base + steps@);
        k += 1;
    }
    assert(sessions@.take(k as int) =~= sessions@);
    (total, failed)
}

/// Analyzes the sessions and generates the rules of at least this confidence. `m`
/// is what binary64 arithmetic makes of the counts of the sessions. The number of
/// sessions is given modulo 2³².
pub fn learn(sessions: &[SessionTrace], m: &Measures, min_confidence: Real) -> (r: LearningReport)
    requires
        tally::countable(sessions@),
        tally::all_steps(sessions@).len() <= u32::MAX,
    ensures
        r.sessions_analyzed == sessions@.len() % 0x1_0000_0000,
        r.total_steps == tally::all_steps(sessions@).len(),
        r.total_failures == failure_count(tally::all_steps(sessions@)),
        exists|t: tally::Tallies| #[trigger]
            tally::tallied(t, sessions@) && patterns::findings(r.patterns_found@)
                == patterns::ranked(patterns::found(t, *m)),
        rules::advices(r.rules_generated@) == rules::rules_from(
            patterns::findings(r.patterns_found@),
            min_confidence,
        ),
{
    let (total_steps, total_failures) = count_failures(sessions);
    let patterns_found = patterns::analyze_sessions(sessions, m);
    let rules_generated = rules::generate_rules(patterns_found.as_slice(), min_confidence);
    LearningReport {
        sessions_analyzed: number::low_u32_of(sessions.len()),
        total_steps,
        total_failures,
        patterns_found,
        rules_generated,
    }
}

}
