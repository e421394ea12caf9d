//! What holds of learning as a whole.

use vstd::prelude::*;

use crate::learner::patterns;
use crate::learner::patterns::Finding;
use crate::learner::patterns::SessionTrace;
use crate::learner::rules;
use crate::learner::rules::Advice;
use crate::learner::tally;
use crate::learner::tally::Counts;
use crate::number::Real;
use crate::types::ExecutionContext;
use crate::types::StepAction;
use crate::types::TraceEntry;

verus! {

// ── Counts ───────────────────────────────────────────────────

proof fn lemma_steps_within(
    steps: Seq<TraceEntry>,
    weight: spec_fn(Seq<TraceEntry>, int) -> nat,
    n: int,
)
    ensures
        tally::tally_steps(steps, weight, n).failed <= tally::tally_steps(steps, weight, n).total,
    decreases n,
{
    if n > 0 {
        lemma_steps_within(steps, weight, n - 1);
    }
}

proof fn lemma_sessions_within(
    sessions: Seq<SessionTrace>,
    weight: spec_fn(Seq<TraceEntry>, int) -> nat,
    n: int,
)
    ensures
        tally::tally_sessions_upto(sessions, weight, n).failed <= tally::tally_sessions_upto(
            sessions,
            weight,
            n,
        ).total,
    decreases n,
{
    if n > 0 {
        let steps = sessions[n - 1].steps@;
        lemma_steps_within(steps, weight, steps.len() as int);
        lemma_sessions_within(sessions, weight, n - 1);
    }
}

proof fn lemma_filter_within<A>(s: Seq<A>, few: spec_fn(A) -> bool, many: spec_fn(A) -> bool)
    requires
        forall|x: A| #[trigger] few(x) ==> many(x),
    ensures
        s.filter(few).len() <= s.filter(many).len(),
    decreases s.len(),
{
    reveal(Seq::filter);
    if s.len() > 0 {
        lemma_filter_within(s.drop_last(), few, many);
        assert(few(s.last()) ==> many(s.last()));
    }
}

/// No tally counts more failures than occurrences.
pub proof fn law_failures_within(sessions: Seq<SessionTrace>, name: Seq<char>)
    ensures
        tally::unprotected_sessions(sessions).failed <= tally::unprotected_sessions(sessions).total,
        tally::name_counts(tally::all_steps(sessions), name).failed <= tally::name_counts(
            tally::all_steps(sessions),
            name,
        ).total,
        tally::write_runs(sessions).failed <= tally::write_runs(sessions).total,
        tally::repeated_edits(sessions).failed <= tally::repeated_edits(sessions).total,
        tally::source_edits(sessions, true).failed <= tally::source_edits(sessions, true).total,
        tally::source_edits(sessions, false).failed <= tally::source_edits(sessions, false).total,
{
    lemma_filter_within(
        sessions,
        |s: SessionTrace| tally::is_unprotected(s) && tally::has_failing(s),
        |s: SessionTrace| tally::is_unprotected(s),
    );
    lemma_filter_within(
        tally::all_steps(sessions),
        |s: TraceEntry| tally::step_name(s) == name && tally::failing(s),
        |s: TraceEntry| tally::step_name(s) == name,
    );
    let n = sessions.len() as int;
    lemma_sessions_within(
        sessions,
        |s: Seq<TraceEntry>, i: int| tally::run_weight(s, i),
        n,
    );
    lemma_sessions_within(
        sessions,
        |s: Seq<TraceEntry>, i: int| tally::repeat_weight(s, i),
        n,
    );
    lemma_sessions_within(
        sessions,
        |s: Seq<TraceEntry>, i: int| tally::edit_weight(s, i, true),
        n,
    );
    lemma_sessions_within(
        sessions,
        |s: Seq<TraceEntry>, i: int| tally::edit_weight(s, i, false),
        n,
    );
}

/// How many of the steps are source edits.
pub open spec fn source_edit_count(steps: Seq<TraceEntry>) -> nat {
    steps.filter(|s: TraceEntry| tally::is_source_edit(s)).len()
}

proof fn lemma_edits_in_steps(steps: Seq<TraceEntry>, n: int)
    requires
        0 <= n <= steps.len(),
    ensures
        tally::tally_steps(
            steps,
            |s: Seq<TraceEntry>, i: int| tally::edit_weight(s, i, true),
            n,
        ).total + tally::tally_steps(
            steps,
            |s: Seq<TraceEntry>, i: int| tally::edit_weight(s, i, false),
            n,
        ).total == source_edit_count(steps.take(n)),
    decreases n,
{
    reveal(Seq::filter);
    if n > 0 {
        lemma_edits_in_steps(steps, n - 1);
        assert(steps.take(n).drop_last() =~= steps.take(n - 1));
        assert(steps.take(n).last() == steps[n - 1]);
    }
}

proof fn lemma_edits_in_sessions(sessions: Seq<SessionTrace>, n: int)
    requires
        0 <= n <= sessions.len(),
    ensures
        tally::tally_sessions_upto(
            sessions,
            |s: Seq<TraceEntry>, i: int| tally::edit_weight(s, i, true),
            n,
        ).total + tally::tally_sessions_upto(
            sessions,
            |s: Seq<TraceEntry>, i: int| tally::edit_weight(s, i, false),
            n,
        ).total == source_edit_count(tally::all_steps(sessions.take(n))),
    decreases n,
{
    reveal(Seq::filter);
    if n > 0 {
        lemma_edits_in_sessions(sessions, n - 1);
        let steps = sessions[n - 1].steps@;
        lemma_edits_in_steps(steps, steps.len() as int);
        assert(steps.take(steps.len() as int) =~= steps);
        assert(sessions.take(n).drop_last() =~= sessions.take(n - 1));
        assert(sessions.take(n).last() == sessions[n - 1]);
        Seq::filter_distributes_over_add(
            tally::all_steps(sessions.take(n - 1)),
            steps,
            |s: TraceEntry| tally::is_source_edit(s),
        );
    } else {
        assert(sessions.take(0) =~= Seq::<SessionTrace>::empty());
    }
}

/// Every source edit counts once: with a test run behind it, or without.
pub proof fn law_edits_are_tested_or_not(sessions: Seq<SessionTrace>)
    ensures
        tally::source_edits(sessions, true).total + tally::source_edits(sessions, false).total
            == source_edit_count(tally::all_steps(sessions)),
{
    lemma_edits_in_sessions(sessions, sessions.len() as int);
    assert(sessions.take(sessions.len() as int) =~= sessions);
}

/// At most one action type is the worst.
pub proof fn law_worst_is_unique(counts: Seq<Counts>, i: int, j: int)
    requires
        tally::is_worst(counts, i),
        tally::is_worst(counts, j),
    ensures
        i == j,
{
    if i < j {
        assert(tally::worse(counts[j], counts[i]));
    } else if j < i {
        assert(tally::worse(counts[i], counts[j]));
    }
}

// ── Patterns ─────────────────────────────────────────────────

/// Sessions without any step show no pattern.
pub proof fn law_no_steps_no_patterns(
    sessions: Seq<SessionTrace>,
    t: tally::Tallies,
    m: patterns::Measures,
)
    requires
        forall|i: int| 0 <= i < sessions.len() ==> (#[trigger] sessions[i]).steps@.len() == 0,
        tally::tallied(t, sessions),
    ensures
        patterns::found(t, m) == Seq::<Finding>::empty(),
{
    let n = sessions.len() as int;
    lemma_empty_tally(sessions, |s: Seq<TraceEntry>, i: int| tally::run_weight(s, i), n);
    lemma_empty_tally(sessions, |s: Seq<TraceEntry>, i: int| tally::repeat_weight(s, i), n);
    lemma_empty_tally(
        sessions,
        |s: Seq<TraceEntry>, i: int| tally::edit_weight(s, i, true),
        n,
    );
    lemma_empty_tally(
        sessions,
        |s: Seq<TraceEntry>, i: int| tally::edit_weight(s, i, false),
        n,
    );
    lemma_none_unprotected(sessions);
    lemma_no_steps(sessions);
    assert(tally::counts_by_name(tally::all_steps(sessions)).len() == 0);
    assert(patterns::found(t, m) =~= Seq::<Finding>::empty());
}

proof fn lemma_empty_tally(
    sessions: Seq<SessionTrace>,
    weight: spec_fn(Seq<TraceEntry>, int) -> nat,
    n: int,
)
    requires
        0 <= n <= sessions.len(),
        forall|i: int| 0 <= i < sessions.len() ==> (#[trigger] sessions[i]).steps@.len() == 0,
    ensures
        tally::tally_sessions_upto(sessions, weight, n).total == 0,
    decreases n,
{
    if n > 0 {
        assert(sessions[n - 1].steps@.len() == 0);
        lemma_empty_tally(sessions, weight, n - 1);
    }
}

proof fn lemma_none_unprotected(sessions: Seq<SessionTrace>)
    requires
        forall|i: int| 0 <= i < sessions.len() ==> (#[trigger] sessions[i]).steps@.len() == 0,
    ensures
        tally::unprotected_sessions(sessions).total == 0,
    decreases sessions.len(),
{
    reveal(Seq::filter);
    if sessions.len() > 0 {
        assert(sessions[sessions.len() - 1].steps@.len() == 0);
        lemma_none_unprotected(sessions.drop_last());
    }
}

proof fn lemma_no_steps(sessions: Seq<SessionTrace>)
    requires
        forall|i: int| 0 <= i < sessions.len() ==> (#[trigger] sessions[i]).steps@.len() == 0,
    ensures
        tally::all_steps(sessions).len() == 0,
    decreases sessions.len(),
{
    if sessions.len() > 0 {
        assert(sessions[sessions.len() - 1].steps@.len() == 0);
        lemma_no_steps(sessions.drop_last());
    }
}

// ── Sessions without failures ────────────────────────────────

/// No step of the sessions failed.
pub open spec fn is_clean(sessions: Seq<SessionTrace>) -> bool {
    forall|i: int| 0 <= i < sessions.len() ==> !tally::has_failing(#[trigger] sessions[i])
}

proof fn lemma_clean_steps(
    steps: Seq<TraceEntry>,
    weight: spec_fn(Seq<TraceEntry>, int) -> nat,
    n: int,
)
    requires
        n <= steps.len(),
        forall|i: int| 0 <= i < steps.len() ==> !tally::failing(#[trigger] steps[i]),
    ensures
        tally::tally_steps(steps, weight, n).failed == 0,
    decreases n,
{
    if n > 0 {
        lemma_clean_steps(steps, weight, n - 1);
        assert(!tally::failing(steps[n - 1]));
    }
}

proof fn lemma_clean_tally(
    sessions: Seq<SessionTrace>,
    weight: spec_fn(Seq<TraceEntry>, int) -> nat,
    n: int,
)
    requires
        n <= sessions.len(),
        is_clean(sessions),
    ensures
        tally::tally_sessions_upto(sessions, weight, n).failed == 0,
    decreases n,
{
    if n > 0 {
        let steps = sessions[n - 1].steps@;
        assert(!tally::has_failing(sessions[n - 1]));
        lemma_clean_steps(steps, weight, steps.len() as int);
        lemma_clean_tally(sessions, weight, n - 1);
    }
}

proof fn lemma_nothing_kept<A>(s: Seq<A>, keep: spec_fn(A) -> bool)
    requires
        forall|i: int| 0 <= i < s.len() ==> !keep(#[trigger] s[i]),
    ensures
        s.filter(keep).len() == 0,
    decreases s.len(),
{
    reveal(Seq::filter);
    if s.len() > 0 {
        assert(!keep(s[s.len() - 1]));
        assert forall|i: int| 0 <= i < s.drop_last().len() implies !keep(
            #[trigger] s.drop_last()[i],
        ) by {
            assert(s.drop_last()[i] == s[i]);
        }
        lemma_nothing_kept(s.drop_last(), keep);
    }
}

proof fn lemma_all_steps_clean(sessions: Seq<SessionTrace>)
    requires
        is_clean(sessions),
    ensures
        forall|i: int|
            0 <= i < tally::all_steps(sessions).len() ==> !tally::failing(
                #[trigger] tally::all_steps(sessions)[i],
            ),
    decreases sessions.len(),
{
    if sessions.len() > 0 {
        let before = sessions.drop_last();
        assert forall|i: int| 0 <= i < before.len() implies !tally::has_failing(
            #[trigger] before[i],
        ) by {
            assert(before[i] == sessions[i]);
        }
        lemma_all_steps_clean(before);
        let all = tally::all_steps(sessions);
        let front = tally::all_steps(before);
        assert(!tally::has_failing(sessions[sessions.len() - 1]));
        assert forall|i: int| 0 <= i < all.len() implies !tally::failing(#[trigger] all[i]) by {
            if i < front.len() {
                assert(all[i] == front[i]);
            } else {
                assert(all[i] == sessions.last().steps@[i - front.len()]);
            }
        }
    }
}

/// Where no step failed, no failure is counted, and no action type is worth a
/// warning.
pub proof fn law_clean_sessions_count_no_failure(
    sessions: Seq<SessionTrace>,
    t: tally::Tallies,
    m: patterns::Measure,
)
    requires
        is_clean(sessions),
        tally::tallied(t, sessions),
    ensures
        t.writes.failed == 0,
        t.repeats.failed == 0,
        t.untested.failed == 0,
        t.tested.failed == 0,
        t.unprotected.failed == 0,
        patterns::worst_finding(t.worst, m) is None,
{
    let n = sessions.len() as int;
    lemma_clean_tally(sessions, |s: Seq<TraceEntry>, i: int| tally::run_weight(s, i), n);
    lemma_clean_tally(sessions, |s: Seq<TraceEntry>, i: int| tally::repeat_weight(s, i), n);
    lemma_clean_tally(
        sessions,
        |s: Seq<TraceEntry>, i: int| tally::edit_weight(s, i, true),
        n,
    );
    lemma_clean_tally(
        sessions,
        |s: Seq<TraceEntry>, i: int| tally::edit_weight(s, i, false),
        n,
    );
    lemma_nothing_kept(
        sessions,
        |s: SessionTrace| tally::is_unprotected(s) && tally::has_failing(s),
    );
    let steps = tally::all_steps(sessions);
    lemma_all_steps_clean(sessions);
    if let Some(w) = t.worst {
        let counts = tally::counts_by_name(steps);
        let k = choose|k: int|
            #[trigger] tally::is_worst(counts, k) && w.name@ == tally::step_names(steps)[k]
                && w.tally@ == counts[k];
        let name = tally::step_names(steps)[k];
        assert(counts[k] == tally::name_counts(steps, name));
        lemma_nothing_kept(
            steps,
            |s: TraceEntry| tally::step_name(s) == name && tally::failing(s),
        );
    }
}

/// Nothing is learned from sessions without failures, at any positive threshold:
/// it is enough that there is no confidence in counts without failures.
pub proof fn law_clean_sessions_teach_nothing(
    sessions: Seq<SessionTrace>,
    t: tally::Tallies,
    m: patterns::Measures,
    min: Real,
)
    requires
        is_clean(sessions),
        tally::tallied(t, sessions),
        t.writes.failed == 0 ==> m.writes.confidence.rank() <= 0,
        t.repeats.failed == 0 ==> m.repeats.confidence.rank() <= 0,
        t.untested.failed == 0 ==> m.untested.confidence.rank() <= 0,
        t.unprotected.failed == 0 ==> m.unprotected.confidence.rank() <= 0,
        min.rank() > 0,
    ensures
        rules::rules_from(patterns::ranked(patterns::found(t, m)), min) == Seq::<Advice>::empty(),
{
    law_clean_sessions_count_no_failure(sessions, t, m.worst);
    lemma_ranked_low(patterns::found(t, m));
    let all = patterns::ranked(patterns::found(t, m));
    lemma_nothing_kept(all, |p: Finding| p.confidence.ge(min));
    assert(rules::rules_from(all, min) =~= Seq::<Advice>::empty());
}

proof fn lemma_ranked_low(list: Seq<Finding>)
    requires
        forall|i: int| 0 <= i < list.len() ==> (#[trigger] list[i]).confidence.rank() <= 0,
    ensures
        forall|i: int|
            0 <= i < patterns::ranked(list).len() ==> (#[trigger] patterns::ranked(
                list,
            )[i]).confidence.rank() <= 0,
    decreases list.len(),
{
    if list.len() > 0 {
        let shorter = list.drop_last();
        assert forall|i: int| 0 <= i < shorter.len() implies (
        #[trigger] shorter[i]).confidence.rank() <= 0 by {
            assert(shorter[i] == list[i]);
        }
        lemma_ranked_low(shorter);
        let rest = patterns::ranked(shorter);
        let p = list.last();
        assert(list[list.len() - 1] == p);
        let k = patterns::rank_position(rest, p.confidence);
        patterns::lemma_rank_position_bounds(rest, p.confidence);
        let all = rest.insert(k, p);
        assert forall|i: int| 0 <= i < all.len() implies (
        #[trigger] all[i]).confidence.rank() <= 0 by {
            if i < k {
                assert(all[i] == rest[i]);
            } else if i > k {
                assert(all[i] == rest[i - 1]);
            }
        }
    }
}

// ── Ranking ──────────────────────────────────────────────────

/// The confidences are numbers.
pub open spec fn all_numbers(list: Seq<Finding>) -> bool {
    forall|i: int| 0 <= i < list.len() ==> !(#[trigger] list[i]).confidence.is_nan()
}

/// The confidences descend.
pub open spec fn descends(list: Seq<Finding>) -> bool {
    forall|i: int, j: int|
        #![trigger list[i], list[j]]
        0 <= i < j < list.len() ==> list[i].confidence.ge(list[j].confidence)
}

/// The patterns of this confidence, in their order.
pub open spec fn of_rank(list: Seq<Finding>, rank: int) -> Seq<Finding> {
    list.filter(|p: Finding| p.confidence.rank() == rank)
}

proof fn lemma_rank_position(list: Seq<Finding>, c: Real)
    ensures
        0 <= patterns::rank_position(list, c) <= list.len(),
        forall|i: int|
            0 <= i < patterns::rank_position(list, c) ==> !(#[trigger] list[i]).confidence.lt(c),
        patterns::rank_position(list, c) < list.len() ==> list[patterns::rank_position(
            list,
            c,
        )].confidence.lt(c),
    decreases list.len(),
{
    if list.len() > 0 && !list[0].confidence.lt(c) {
        lemma_rank_position(list.skip(1), c);
        assert forall|i: int| 0 <= i < patterns::rank_position(list, c) implies !(
        #[trigger] list[i]).confidence.lt(c) by {
            if i > 0 {
                assert(list.skip(1)[i - 1] == list[i]);
            }
        }
    }
}

/// Ranking puts the patterns in descending order of confidence and neither loses
/// nor invents one. Patterns of the same confidence keep their order.
pub proof fn law_ranking(list: Seq<Finding>)
    requires
        all_numbers(list),
    ensures
        descends(patterns::ranked(list)),
        patterns::ranked(list).to_multiset() == list.to_multiset(),
        forall|rank: int| of_rank(patterns::ranked(list), rank) == #[trigger] of_rank(list, rank),
    decreases list.len(),
{
    lemma_ranked_numbers(list);
    if list.len() > 0 {
        let shorter = list.drop_last();
        let p = list.last();
        assert(all_numbers(shorter)) by {
            assert forall|i: int| 0 <= i < shorter.len() implies !(
            #[trigger] shorter[i]).confidence.is_nan() by {
                assert(shorter[i] == list[i]);
            }
        }
        law_ranking(shorter);
        lemma_ranked_numbers(shorter);
        let rest = patterns::ranked(shorter);
        let k = patterns::rank_position(rest, p.confidence);
        lemma_rank_position(rest, p.confidence);
        let all = rest.insert(k, p);
        assert(!p.confidence.is_nan()) by {
            assert(list[list.len() - 1] == p);
        }
        assert forall|i: int, j: int|
            #![trigger all[i], all[j]]
            0 <= i < j < all.len() implies all[i].confidence.ge(all[j].confidence) by {
            if i < k {
                assert(all[i] == rest[i]);
            } else if i > k {
                assert(all[i] == rest[i - 1]);
            }
            if j < k {
                assert(all[j] == rest[j]);
            } else if j > k {
                assert(all[j] == rest[j - 1]);
                if i == k {
                    assert(rest[k].confidence.lt(p.confidence));
                    if j - 1 > k {
                        assert(rest[k].confidence.ge(rest[j - 1].confidence));
                    }
                }
            }
        }
        vstd::seq_lib::to_multiset_insert(rest, k, p);
        vstd::seq_lib::to_multiset_build(shorter, p);
        assert(shorter.push(p) =~= list);
        assert(all.to_multiset() =~= list.to_multiset());
        assert forall|rank: int| of_rank(all, rank) == #[trigger] of_rank(list, rank) by {
            lemma_rank_insert(rest, k, p, rank);
            lemma_filter_last(list, |q: Finding| q.confidence.rank() == rank);
            assert(of_rank(rest, rank) == of_rank(shorter, rank));
        }
    }
}

/// Ranking keeps numbers numbers.
proof fn lemma_ranked_numbers(list: Seq<Finding>)
    requires
        all_numbers(list),
    ensures
        all_numbers(patterns::ranked(list)),
        patterns::ranked(list).len() == list.len(),
    decreases list.len(),
{
    if list.len() > 0 {
        let shorter = list.drop_last();
        assert(all_numbers(shorter)) by {
            assert forall|i: int| 0 <= i < shorter.len() implies !(
            #[trigger] shorter[i]).confidence.is_nan() by {
                assert(shorter[i] == list[i]);
            }
        }
        lemma_ranked_numbers(shorter);
        let rest = patterns::ranked(shorter);
        let p = list.last();
        assert(list[list.len() - 1] == p);
        lemma_rank_position(rest, p.confidence);
    }
}

proof fn lemma_filter_last(list: Seq<Finding>, keep: spec_fn(Finding) -> bool)
    requires
        list.len() > 0,
    ensures
        list.filter(keep) == (if keep(list.last()) {
            list.drop_last().filter(keep).push(list.last())
        } else {
            list.drop_last().filter(keep)
        }),
{
    reveal(Seq::filter);
}

/// Where only elements that are not kept stand behind, an inserted element comes
/// last among the kept ones.
proof fn lemma_rank_insert(rest: Seq<Finding>, k: int, p: Finding, rank: int)
    requires
        0 <= k <= rest.len(),
        descends(rest),
        all_numbers(rest),
        k < rest.len() ==> rest[k].confidence.lt(p.confidence),
    ensures
        of_rank(rest.insert(k, p), rank) == (if p.confidence.rank() == rank {
            of_rank(rest, rank).push(p)
        } else {
            of_rank(rest, rank)
        }),
{
    let keep = |q: Finding| q.confidence.rank() == rank;
    let head = rest.take(k);
    let tail = rest.skip(k);
    assert(rest =~= head + tail);
    assert(rest.insert(k, p) =~= (head + seq![p]) + tail);
    Seq::filter_distributes_over_add(head, tail, keep);
    Seq::filter_distributes_over_add(head + seq![p], tail, keep);
    Seq::filter_distributes_over_add(head, seq![p], keep);
    reveal(Seq::filter);
    assert(seq![p].drop_last() =~= Seq::<Finding>::empty());
    assert(seq![p].last() == p);
    if keep(p) {
        assert forall|i: int| 0 <= i < tail.len() implies !keep(#[trigger] tail[i]) by {
            assert(tail[i] == rest[k + i]);
            if i > 0 {
                assert(rest[k].confidence.ge(rest[k + i].confidence));
            }
        }
        lemma_filter_none(tail, keep);
        assert(seq![p].filter(keep) =~= seq![p]);
        assert(rest.insert(k, p).filter(keep) =~= rest.filter(keep).push(p));
    } else {
        lemma_filter_none(seq![p], keep);
        assert(rest.insert(k, p).filter(keep) =~= rest.filter(keep));
    }
}

proof fn lemma_filter_none(list: Seq<Finding>, keep: spec_fn(Finding) -> bool)
    requires
        forall|i: int| 0 <= i < list.len() ==> !keep(#[trigger] list[i]),
    ensures
        list.filter(keep) == Seq::<Finding>::empty(),
    decreases list.len(),
{
    reveal(Seq::filter);
    if list.len() > 0 {
        assert(!keep(list[list.len() - 1]));
        lemma_filter_none(list.drop_last(), keep);
    }
}

// ── Rules ────────────────────────────────────────────────────

/// A pattern becomes a rule exactly when it is reliable enough, and the rule
/// carries its confidence.
pub proof fn law_rules_are_confident(found: Seq<Finding>, min: Real)
    ensures
        forall|i: int|
            0 <= i < rules::rules_from(found, min).len() ==> (#[trigger] rules::rules_from(
                found,
                min,
            )[i]).confidence.ge(min),
        forall|i: int|
            0 <= i < found.len() && (#[trigger] found[i]).confidence.ge(min)
                ==> rules::rules_from(found, min).contains(rules::advice_for(found[i])),
{
    let keep = |p: Finding| p.confidence.ge(min);
    let make = |p: Finding| rules::advice_for(p);
    let kept = found.filter(keep);
    assert forall|i: int| 0 <= i < kept.len() implies (#[trigger] rules::rules_from(
        found,
        min,
    )[i]).confidence.ge(min) by {
        found.lemma_filter_pred(keep, i);
    }
    assert forall|i: int| 0 <= i < found.len() && (#[trigger] found[i]).confidence.ge(
        min,
    ) implies rules::rules_from(found, min).contains(rules::advice_for(found[i])) by {
        found.lemma_filter_contains(keep, i);
        let k = choose|k: int| 0 <= k < kept.len() && kept[k] == found[i];
        assert(rules::rules_from(found, min)[k] == rules::advice_for(found[i]));
    }
}

/// Asking for more confidence keeps exactly those rules that still reach it.
pub proof fn law_threshold_only_removes(found: Seq<Finding>, low: Real, high: Real)
    requires
        high.ge(low),
    ensures
        rules::rules_from(found, high) == rules::rules_from(found, low).filter(
            |a: Advice| a.confidence.ge(high),
        ),
    decreases found.len(),
{
    reveal(Seq::filter);
    let keep = |a: Advice| a.confidence.ge(high);
    let make = |p: Finding| rules::advice_for(p);
    if found.len() == 0 {
        assert(rules::rules_from(found, high) =~= Seq::<Advice>::empty());
        assert(rules::rules_from(found, low) =~= Seq::<Advice>::empty());
    } else {
        let shorter = found.drop_last();
        let p = found.last();
        law_threshold_only_removes(shorter, low, high);
        lemma_rules_last(found, low);
        lemma_rules_last(found, high);
        let before = rules::rules_from(shorter, low);
        if p.confidence.ge(low) {
            assert(before.push(rules::advice_for(p)).drop_last() =~= before);
        }
    }
}

proof fn lemma_rules_last(found: Seq<Finding>, min: Real)
    requires
        found.len() > 0,
    ensures
        rules::rules_from(found, min) == (if found.last().confidence.ge(min) {
            rules::rules_from(found.drop_last(), min).push(rules::advice_for(found.last()))
        } else {
            rules::rules_from(found.drop_last(), min)
        }),
{
    reveal(Seq::filter);
    let keep = |p: Finding| p.confidence.ge(min);
    let make = |p: Finding| rules::advice_for(p);
    let kept = found.drop_last().filter(keep);
    if keep(found.last()) {
        assert(kept.push(found.last()).map_values(make) =~= kept.map_values(make).push(
            rules::advice_for(found.last()),
        ));
    }
}

/// A learned rule never objects, it only warns.
pub proof fn law_advice_never_objects(rule: Advice, action: StepAction, ctx: ExecutionContext)
    ensures
        rules::advice_check(rule, action, ctx).passed,
        rules::advice_check(rule, action, ctx).checker == rule.name,
{
}

}
