//! What holds of the counts, said of steps, files and sessions.

use vstd::prelude::*;

use crate::learner;
use crate::learner::advice_laws;
use crate::learner::patterns::SessionTrace;
use crate::learner::rules;
use crate::learner::tally;
use crate::learner::tally::Counts;
use crate::outside;
use crate::text;
use crate::types::TraceEntry;
use crate::verification::consistency_laws;

verus! {

/// How many of the first `n` places satisfy the condition.
pub open spec fn places(n: nat, at: spec_fn(int) -> bool) -> nat {
    Seq::new(n, |i: int| i).filter(at).len()
}

proof fn lemma_places_next(n: nat, at: spec_fn(int) -> bool)
    ensures
        places(0, at) == 0,
        places(n + 1, at) == places(n, at) + (if at(n as int) {
            1nat
        } else {
            0
        }),
{
    reveal(Seq::filter);
    let longer = Seq::new(n + 1, |i: int| i);
    assert(longer.drop_last() =~= Seq::new(n, |i: int| i));
    assert(longer.last() == n);
    assert(Seq::new(0, |i: int| i) =~= Seq::<int>::empty());
}

// ── Sums ─────────────────────────────────────────────────────

proof fn lemma_tally_last(
    sessions: Seq<SessionTrace>,
    more: SessionTrace,
    weight: spec_fn(Seq<TraceEntry>, int) -> nat,
    n: int,
)
    requires
        n <= sessions.len(),
    ensures
        tally::tally_sessions_upto(sessions.push(more), weight, n)
            == tally::tally_sessions_upto(sessions, weight, n),
    decreases n,
{
    if n > 0 {
        lemma_tally_last(sessions, more, weight, n - 1);
        assert(sessions.push(more)[n - 1] == sessions[n - 1]);
    }
}

/// The counts of one more session are added to those of the others.
proof fn lemma_tally_push(
    sessions: Seq<SessionTrace>,
    more: SessionTrace,
    weight: spec_fn(Seq<TraceEntry>, int) -> nat,
)
    ensures
        tally::tally(sessions.push(more), weight).total == tally::tally(sessions, weight).total
            + tally::tally_steps(more.steps@, weight, more.steps@.len() as int).total,
        tally::tally(sessions.push(more), weight).failed == tally::tally(sessions, weight).failed
            + tally::tally_steps(more.steps@, weight, more.steps@.len() as int).failed,
        tally::tally(Seq::empty(), weight) == (Counts { total: 0, failed: 0 }),
{
    lemma_tally_last(sessions, more, weight, sessions.len() as int);
    assert(sessions.push(more)[sessions.len() as int] == more);
}

/// Where every step counts once or not at all, the steps that count are counted, and
/// those of them that did not succeed.
proof fn lemma_tally_places(
    steps: Seq<TraceEntry>,
    weight: spec_fn(Seq<TraceEntry>, int) -> nat,
    at: spec_fn(int) -> bool,
    bad: spec_fn(int) -> bool,
    n: nat,
)
    requires
        n <= steps.len(),
        forall|i: int|
            0 <= i < steps.len() ==> #[trigger] weight(steps, i) == (if at(i) {
                1nat
            } else {
                0
            }),
        forall|i: int|
            0 <= i < steps.len() ==> #[trigger] bad(i) == (at(i) && !(steps[i].result is Success)),
    ensures
        tally::tally_steps(steps, weight, n as int).total == places(n, at),
        tally::tally_steps(steps, weight, n as int).failed == places(n, bad),
    decreases n,
{
    lemma_places_next(0, at);
    lemma_places_next(0, bad);
    if n > 0 {
        lemma_tally_places(steps, weight, at, bad, (n - 1) as nat);
        lemma_places_next((n - 1) as nat, at);
        lemma_places_next((n - 1) as nat, bad);
        assert(weight(steps, n - 1) == (if at(n - 1) {
            1nat
        } else {
            0
        }));
        assert(bad(n - 1) == (at(n - 1) && !(steps[n - 1].result is Success)));
    }
}

// ── Consecutive writes ───────────────────────────────────────

/// The step writes.
pub open spec fn is_write(step: TraceEntry) -> bool {
    step.action.action_type@ is Write
}

/// Nothing was read or searched between step `a` and step `b`.
pub open spec fn nothing_read(steps: Seq<TraceEntry>, a: int, b: int) -> bool {
    forall|k: int|
        a < k < b ==> !((#[trigger] steps[k]).action.action_type@ is Read) && !(
        steps[k].action.action_type@ is Search)
}

/// Step `i` is a write, and there are two earlier writes with no read and no search
/// since the first of them.
pub open spec fn third_write(steps: Seq<TraceEntry>, i: int) -> bool {
    &&& is_write(steps[i])
    &&& exists|a: int, b: int|
        0 <= a < b < i && is_write(#[trigger] steps[a]) && is_write(#[trigger] steps[b])
            && nothing_read(steps, a, i)
}

proof fn lemma_one_write(steps: Seq<TraceEntry>, m: int) -> (a: int)
    requires
        0 <= m <= steps.len(),
        tally::writes_since_read(steps.take(m)) >= 1,
    ensures
        0 <= a < m,
        is_write(steps[a]),
        nothing_read(steps, a, m),
    decreases m,
{
    let t = steps.take(m);
    assert(m > 0);
    assert(t.drop_last() =~= steps.take(m - 1));
    assert(t.last() == steps[m - 1]);
    if is_write(steps[m - 1]) {
        m - 1
    } else {
        lemma_one_write(steps, m - 1)
    }
}

proof fn lemma_two_writes(steps: Seq<TraceEntry>, m: int) -> (r: (int, int))
    requires
        0 <= m <= steps.len(),
        tally::writes_since_read(steps.take(m)) >= 2,
    ensures
        0 <= r.0 < r.1 < m,
        is_write(steps[r.0]),
        is_write(steps[r.1]),
        nothing_read(steps, r.0, m),
    decreases m,
{
    let t = steps.take(m);
    assert(m > 0);
    assert(t.drop_last() =~= steps.take(m - 1));
    assert(t.last() == steps[m - 1]);
    if is_write(steps[m - 1]) {
        let a = lemma_one_write(steps, m - 1);
        (a, m - 1)
    } else {
        lemma_two_writes(steps, m - 1)
    }
}

proof fn lemma_writes_stay(steps: Seq<TraceEntry>, a: int, m: int)
    requires
        0 <= a < m <= steps.len(),
        is_write(steps[a]),
        nothing_read(steps, a, m),
    ensures
        tally::writes_since_read(steps.take(m)) >= 1,
        forall|b: int|
            a < b < m && is_write(#[trigger] steps[b]) ==> tally::writes_since_read(steps.take(m))
                >= 2,
    decreases m,
{
    let t = steps.take(m);
    assert(t.drop_last() =~= steps.take(m - 1));
    assert(t.last() == steps[m - 1]);
    if a < m - 1 {
        assert(nothing_read(steps, a, m - 1));
        lemma_writes_stay(steps, a, m - 1);
        assert(!(steps[m - 1].action.action_type@ is Read));
    }
}

proof fn lemma_run_weight(steps: Seq<TraceEntry>, i: int)
    requires
        0 <= i < steps.len(),
    ensures
        tally::run_weight(steps, i) == (if third_write(steps, i) {
            1nat
        } else {
            0
        }),
{
    let t = steps.take(i + 1);
    assert(t.drop_last() =~= steps.take(i));
    assert(t.last() == steps[i]);
    if is_write(steps[i]) {
        if tally::writes_since_read(steps.take(i)) >= 2 {
            let (a, b) = lemma_two_writes(steps, i);
            assert(third_write(steps, i));
        }
        if third_write(steps, i) {
            let (a, b) = choose|a: int, b: int|
                0 <= a < b < i && is_write(#[trigger] steps[a]) && is_write(#[trigger] steps[b])
                    && nothing_read(steps, a, i);
            lemma_writes_stay(steps, a, i);
        }
    }
}

/// A write counts as part of a run exactly where it and two earlier writes of the
/// session have no read and no search between them. It counts as failed where it did
/// not succeed. The counts of several sessions are added up.
pub proof fn law_write_runs(sessions: Seq<SessionTrace>, more: SessionTrace)
    ensures
        tally::write_runs(Seq::empty()) == (Counts { total: 0, failed: 0 }),
        tally::write_runs(sessions.push(more)).total == tally::write_runs(sessions).total
            + places(more.steps@.len(), |i: int| third_write(more.steps@, i)),
        tally::write_runs(sessions.push(more)).failed == tally::write_runs(sessions).failed
            + places(
            more.steps@.len(),
            |i: int| third_write(more.steps@, i) && !(more.steps@[i].result is Success),
        ),
{
    let steps = more.steps@;
    let weight = |s: Seq<TraceEntry>, i: int| tally::run_weight(s, i);
    let at = |i: int| third_write(steps, i);
    let bad = |i: int| third_write(steps, i) && !(steps[i].result is Success);
    assert forall|i: int| 0 <= i < steps.len() implies #[trigger] weight(steps, i) == (if at(i) {
        1nat
    } else {
        0
    }) by {
        lemma_run_weight(steps, i);
    }
    lemma_tally_places(steps, weight, at, bad, steps.len());
    lemma_tally_push(sessions, more, weight);
}

/// Directly after a read or a search no write counts as done since then, and one more
/// write is one more.
pub proof fn law_reading_ends_a_run(steps: Seq<TraceEntry>, step: TraceEntry)
    ensures
        step.action.action_type@ is Read || step.action.action_type@ is Search
            ==> tally::writes_since_read(steps.push(step)) == 0,
        step.action.action_type@ is Write ==> tally::writes_since_read(steps.push(step))
            == tally::writes_since_read(steps) + 1,
        !(step.action.action_type@ is Write || step.action.action_type@ is Read
            || step.action.action_type@ is Search) ==> tally::writes_since_read(steps.push(step))
            == tally::writes_since_read(steps),
        tally::writes_since_read(Seq::empty()) == 0,
{
    assert(steps.push(step).drop_last() =~= steps);
}

// ── Repeated edits ───────────────────────────────────────────

/// The files that the steps write, in their order, each as often as it is named.
pub open spec fn edited_files(steps: Seq<TraceEntry>) -> Seq<Seq<char>> {
    steps.filter(|s: TraceEntry| is_write(s)).map_values(
        |s: TraceEntry| text::strings(s.action.target_files@),
    ).flatten()
}

proof fn lemma_edited_files(steps: Seq<TraceEntry>, n: int)
    requires
        0 <= n <= steps.len(),
    ensures
        tally::written_files(steps, n) == edited_files(steps.take(n)),
    decreases n,
{
    reveal(Seq::filter);
    let keep = |s: TraceEntry| is_write(s);
    let files = |s: TraceEntry| text::strings(s.action.target_files@);
    if n == 0 {
        assert(steps.take(0).filter(keep).map_values(files) =~= Seq::<Seq<Seq<char>>>::empty());
    } else {
        lemma_edited_files(steps, n - 1);
        let t = steps.take(n);
        let kept = steps.take(n - 1).filter(keep);
        assert(t.drop_last() =~= steps.take(n - 1));
        assert(t.last() == steps[n - 1]);
        if keep(steps[n - 1]) {
            let lists = kept.map_values(files);
            assert(kept.push(steps[n - 1]).map_values(files) =~= lists.push(files(steps[n - 1])));
            lists.lemma_flatten_push(files(steps[n - 1]));
        }
    }
}

/// How often the file is in the list.
pub open spec fn mentions(list: Seq<Seq<char>>, file: Seq<char>) -> nat {
    list.filter(|x: Seq<char>| x == file).len()
}

proof fn lemma_mentions(list: Seq<Seq<char>>, file: Seq<char>)
    ensures
        tally::occurrences(list, file) == mentions(list, file),
{
    consistency_laws::lemma_filter_alike(
        list,
        list,
        |y: Seq<char>| y == file,
        |x: Seq<char>| x == file,
    );
}

/// How many of the files are named at least for the third time, when these were named
/// before.
pub open spec fn third_mentions(before: Seq<Seq<char>>, files: Seq<Seq<char>>) -> nat {
    places(files.len(), |j: int| mentions(before + files.take(j + 1), files[j]) >= 3)
}

proof fn lemma_repeats(before: Seq<Seq<char>>, files: Seq<Seq<char>>, n: nat)
    requires
        n <= files.len(),
    ensures
        tally::repeats(before, files, n as int) == places(
            n,
            |j: int| mentions(before + files.take(j + 1), files[j]) >= 3,
        ),
    decreases n,
{
    let at = |j: int| mentions(before + files.take(j + 1), files[j]) >= 3;
    lemma_places_next(0, at);
    if n > 0 {
        lemma_repeats(before, files, (n - 1) as nat);
        lemma_places_next((n - 1) as nat, at);
        lemma_mentions(before + files.take(n as int), files[n - 1]);
    }
}

proof fn lemma_written_files_prefix(steps: Seq<TraceEntry>, step: TraceEntry, n: int)
    requires
        n <= steps.len(),
    ensures
        tally::written_files(steps.push(step), n) == tally::written_files(steps, n),
    decreases n,
{
    if n > 0 {
        lemma_written_files_prefix(steps, step, n - 1);
        assert(steps.push(step)[n - 1] == steps[n - 1]);
    }
}

proof fn lemma_repeat_tally_prefix(steps: Seq<TraceEntry>, step: TraceEntry, n: int)
    requires
        n <= steps.len(),
    ensures
        tally::tally_steps(
            steps.push(step),
            |s: Seq<TraceEntry>, i: int| tally::repeat_weight(s, i),
            n,
        ) == tally::tally_steps(
            steps,
            |s: Seq<TraceEntry>, i: int| tally::repeat_weight(s, i),
            n,
        ),
    decreases n,
{
    if n > 0 {
        lemma_repeat_tally_prefix(steps, step, n - 1);
        lemma_written_files_prefix(steps, step, n - 1);
        assert(steps.push(step)[n - 1] == steps[n - 1]);
    }
}

/// One more step at the end of a session adds to the repeated edits exactly where it is
/// a write: once for each of its files that is then named at least for the third time
/// among all that the session wrote. Where the step did not succeed, they are failures.
pub proof fn law_repeated_edits(
    sessions: Seq<SessionTrace>,
    shorter: SessionTrace,
    longer: SessionTrace,
    step: TraceEntry,
)
    requires
        longer.steps@ == shorter.steps@.push(step),
    ensures
        tally::repeated_edits(Seq::empty()) == (Counts { total: 0, failed: 0 }),
        shorter.steps@.len() == 0 ==> tally::repeated_edits(sessions.push(shorter))
            == tally::repeated_edits(sessions),
        tally::repeated_edits(sessions.push(longer)).total == tally::repeated_edits(
            sessions.push(shorter),
        ).total + (if is_write(step) {
            third_mentions(
                edited_files(shorter.steps@),
                text::strings(step.action.target_files@),
            )
        } else {
            0
        }),
        tally::repeated_edits(sessions.push(longer)).failed == tally::repeated_edits(
            sessions.push(shorter),
        ).failed + (if is_write(step) && !(step.result is Success) {
            third_mentions(
                edited_files(shorter.steps@),
                text::strings(step.action.target_files@),
            )
        } else {
            0
        }),
{
    let weight = |s: Seq<TraceEntry>, i: int| tally::repeat_weight(s, i);
    let steps = shorter.steps@;
    let n = steps.len() as int;
    lemma_tally_push(sessions, shorter, weight);
    lemma_tally_push(sessions, longer, weight);
    lemma_repeat_tally_prefix(steps, step, n);
    lemma_written_files_prefix(steps, step, n);
    lemma_edited_files(steps, n);
    assert(steps.take(n) =~= steps);
    let files = text::strings(step.action.target_files@);
    lemma_repeats(edited_files(steps), files, files.len());
    assert(longer.steps@[n] == step);
}

// ── Tests after edits ────────────────────────────────────────

/// Step `i` writes a source file.
pub open spec fn writes_source(step: TraceEntry) -> bool {
    &&& is_write(step)
    &&& exists|k: int|
        0 <= k < step.action.target_files@.len() && advice_laws::is_source_file(
            (#[trigger] step.action.target_files@[k])@,
        )
}

/// The step executes something whose description speaks of tests.
pub open spec fn tests_something(step: TraceEntry) -> bool {
    step.action.action_type@ is Execute && text::contains(
        outside::lowercase(step.action.description@),
        "test"@,
    )
}

/// One of the three steps after step `i` runs tests.
pub open spec fn tested_soon(steps: Seq<TraceEntry>, i: int) -> bool {
    exists|k: int|
        i + 1 <= k <= i + 3 && k < steps.len() && tests_something(#[trigger] steps[k])
}

proof fn lemma_edit_weight(steps: Seq<TraceEntry>, i: int, tested: bool)
    requires
        0 <= i < steps.len(),
    ensures
        tally::edit_weight(steps, i, tested) == (if writes_source(steps[i]) && tested_soon(
            steps,
            i,
        ) == tested {
            1nat
        } else {
            0
        }),
{
    let owned = steps[i].action.target_files@;
    let files = text::strings(owned);
    assert(rules::edits_source(files) == exists|k: int|
        0 <= k < owned.len() && advice_laws::is_source_file((#[trigger] owned[k])@)) by {
        if rules::edits_source(files) {
            let k = choose|k: int|
                0 <= k < files.len() && rules::names_source(
                    outside::lowercase(#[trigger] files[k]),
                );
            assert(advice_laws::is_source_file(owned[k]@));
        }
        if exists|k: int|
            0 <= k < owned.len() && advice_laws::is_source_file((#[trigger] owned[k])@) {
            let k = choose|k: int|
                0 <= k < owned.len() && advice_laws::is_source_file((#[trigger] owned[k])@);
            assert(rules::names_source(outside::lowercase(files[k])));
        }
    }
    assert(tally::test_follows(steps, i) == tested_soon(steps, i)) by {
        if tally::test_follows(steps, i) {
            let k = choose|k: int|
                i < k < steps.len() && k <= i + 3 && rules::runs_test(
                    (#[trigger] steps[k]).action.action_type@,
                    steps[k].action.description@,
                );
            assert(tests_something(steps[k]));
        }
        if tested_soon(steps, i) {
            let k = choose|k: int|
                i + 1 <= k <= i + 3 && k < steps.len() && tests_something(#[trigger] steps[k]);
            assert(rules::runs_test(
                steps[k].action.action_type@,
                steps[k].action.description@,
            ));
        }
    }
}

/// A step counts as a tested edit where it writes a source file and one of the next
/// three steps runs tests, and as an untested one where it writes a source file and none
/// of them does. The counts of several sessions are added up.
pub proof fn law_source_edits(sessions: Seq<SessionTrace>, more: SessionTrace, tested: bool)
    ensures
        tally::source_edits(Seq::empty(), tested) == (Counts { total: 0, failed: 0 }),
        tally::source_edits(sessions.push(more), tested).total == tally::source_edits(
            sessions,
            tested,
        ).total + places(
            more.steps@.len(),
            |i: int| writes_source(more.steps@[i]) && tested_soon(more.steps@, i) == tested,
        ),
        tally::source_edits(sessions.push(more), tested).failed == tally::source_edits(
            sessions,
            tested,
        ).failed + places(
            more.steps@.len(),
            |i: int|
                writes_source(more.steps@[i]) && tested_soon(more.steps@, i) == tested && !(
                more.steps@[i].result is Success),
        ),
{
    let steps = more.steps@;
    let weight = |s: Seq<TraceEntry>, i: int| tally::edit_weight(s, i, tested);
    let at = |i: int| writes_source(more.steps@[i]) && tested_soon(more.steps@, i) == tested;
    let bad = |i: int|
        writes_source(more.steps@[i]) && tested_soon(more.steps@, i) == tested && !(
        more.steps@[i].result is Success);
    assert forall|i: int| 0 <= i < steps.len() implies #[trigger] weight(steps, i) == (if at(i) {
        1nat
    } else {
        0
    }) by {
        lemma_edit_weight(steps, i, tested);
    }
    lemma_tally_places(steps, weight, at, bad, steps.len());
    lemma_tally_push(sessions, more, weight);
}

// ── Long sessions ────────────────────────────────────────────

/// A session counts as unprotected where it has at least five steps and no step of it
/// has a checkpoint. It counts as failed where some step of it did not succeed.
pub proof fn law_unprotected_sessions(sessions: Seq<SessionTrace>)
    ensures
        tally::unprotected_sessions(sessions).total == sessions.filter(
            |s: SessionTrace|
                s.steps@.len() >= 5 && !exists|i: int|
                    0 <= i < s.steps@.len() && (#[trigger] s.steps@[i]).checkpoint_id is Some,
        ).len(),
        tally::unprotected_sessions(sessions).failed == sessions.filter(
            |s: SessionTrace|
                s.steps@.len() >= 5 && (!exists|i: int|
                    0 <= i < s.steps@.len() && (#[trigger] s.steps@[i]).checkpoint_id is Some) && (
                exists|i: int|
                    0 <= i < s.steps@.len() && !((#[trigger] s.steps@[i]).result is Success)),
        ).len(),
{
    let long = |s: SessionTrace|
        s.steps@.len() >= 5 && !exists|i: int|
            0 <= i < s.steps@.len() && (#[trigger] s.steps@[i]).checkpoint_id is Some;
    let bad = |s: SessionTrace|
        s.steps@.len() >= 5 && (!exists|i: int|
            0 <= i < s.steps@.len() && (#[trigger] s.steps@[i]).checkpoint_id is Some) && (exists|
            i: int,
        |
            0 <= i < s.steps@.len() && !((#[trigger] s.steps@[i]).result is Success));
    let a = |s: SessionTrace| tally::is_unprotected(s);
    let b = |s: SessionTrace| tally::is_unprotected(s) && tally::has_failing(s);
    assert forall|k: int| 0 <= k < sessions.len() implies a(#[trigger] sessions[k]) == long(
        sessions[k],
    ) && b(sessions[k]) == bad(sessions[k]) by {
        let s = sessions[k];
        if tally::has_failing(s) {
            let i = choose|i: int| 0 <= i < s.steps@.len() && tally::failing(#[trigger] s.steps@[i]);
            assert(!(s.steps@[i].result is Success));
        }
        if exists|i: int| 0 <= i < s.steps@.len() && !((#[trigger] s.steps@[i]).result is Success) {
            let i = choose|i: int|
                0 <= i < s.steps@.len() && !((#[trigger] s.steps@[i]).result is Success);
            assert(tally::failing(s.steps@[i]));
        }
    }
    consistency_laws::lemma_filter_alike(sessions, sessions, a, long);
    consistency_laws::lemma_filter_alike(sessions, sessions, b, bad);
}

// ── Action types ─────────────────────────────────────────────

/// All steps are those of the sessions, one behind the other. Those that did not
/// succeed are failures.
pub proof fn law_all_steps(sessions: Seq<SessionTrace>, more: SessionTrace)
    ensures
        tally::all_steps(Seq::empty()) == Seq::<TraceEntry>::empty(),
        tally::all_steps(sessions.push(more)) == tally::all_steps(sessions) + more.steps@,
        learner::failure_count(tally::all_steps(sessions.push(more))) == learner::failure_count(
            tally::all_steps(sessions),
        ) + more.steps@.filter(|s: TraceEntry| !(s.result is Success)).len(),
        learner::failure_count(Seq::empty()) == 0,
{
    reveal(Seq::filter);
    assert(sessions.push(more).drop_last() =~= sessions);
    let bad = |s: TraceEntry| tally::failing(s);
    Seq::filter_distributes_over_add(tally::all_steps(sessions), more.steps@, bad);
    consistency_laws::lemma_filter_alike(
        more.steps@,
        more.steps@,
        bad,
        |s: TraceEntry| !(s.result is Success),
    );
}

/// How many steps of this name there are.
pub open spec fn steps_named(steps: Seq<TraceEntry>, name: Seq<char>) -> nat {
    steps.filter(|s: TraceEntry| s.action.action_type@.name() == name).len()
}

/// How many steps of this name did not succeed.
pub open spec fn failures_named(steps: Seq<TraceEntry>, name: Seq<char>) -> nat {
    steps.filter(
        |s: TraceEntry| s.action.action_type@.name() == name && !(s.result is Success),
    ).len()
}

proof fn lemma_name_counts(steps: Seq<TraceEntry>, name: Seq<char>)
    ensures
        tally::name_counts(steps, name).total == steps_named(steps, name),
        tally::name_counts(steps, name).failed == failures_named(steps, name),
{
    consistency_laws::lemma_filter_alike(
        steps,
        steps,
        |s: TraceEntry| tally::step_name(s) == name,
        |s: TraceEntry| s.action.action_type@.name() == name,
    );
    consistency_laws::lemma_filter_alike(
        steps,
        steps,
        |s: TraceEntry| tally::step_name(s) == name && tally::failing(s),
        |s: TraceEntry| s.action.action_type@.name() == name && !(s.result is Success),
    );
}

proof fn lemma_step_names(steps: Seq<TraceEntry>, i: int)
    requires
        0 <= i < steps.len(),
    ensures
        tally::step_names(steps).contains(steps[i].action.action_type@.name()),
    decreases steps.len(),
{
    let before = tally::step_names(steps.drop_last());
    let after = tally::step_names(steps);
    let name = steps[i].action.action_type@.name();
    if i < steps.len() - 1 {
        lemma_step_names(steps.drop_last(), i);
        let k = choose|k: int| 0 <= k < before.len() && before[k] == name;
        assert(after[k] == name);
    } else if !before.contains(name) {
        assert(after[before.len() as int] == name);
    }
}

proof fn lemma_named_steps(steps: Seq<TraceEntry>, k: int)
    requires
        0 <= k < tally::step_names(steps).len(),
    ensures
        exists|i: int|
            0 <= i < steps.len() && (#[trigger] steps[i]).action.action_type@.name()
                == tally::step_names(steps)[k],
    decreases steps.len(),
{
    if steps.len() > 0 {
        let rest = steps.drop_last();
        let before = tally::step_names(rest);
        if k < before.len() {
            lemma_named_steps(rest, k);
            let i = choose|i: int|
                0 <= i < rest.len() && (#[trigger] rest[i]).action.action_type@.name() == before[k];
            assert(steps[i].action.action_type@.name() == tally::step_names(steps)[k]);
        } else {
            assert(steps[steps.len() - 1].action.action_type@.name() == tally::step_names(
                steps,
            )[k]);
        }
    }
}

/// The worst action type is that of some step, was taken at least three times, comes
/// with its own counts, and no type that was taken at least three times failed in a
/// larger share of its steps. There is none exactly where no type was taken three times.
pub proof fn law_worst_action_type(t: tally::Tallies, sessions: Seq<SessionTrace>, name: Seq<char>)
    requires
        tally::tallied(t, sessions),
    ensures
        t.worst matches Some(w) ==> {
            let steps = tally::all_steps(sessions);
            &&& exists|i: int|
                0 <= i < steps.len() && (#[trigger] steps[i]).action.action_type@.name() == w.name@
            &&& w.tally.total == steps_named(steps, w.name@)
            &&& w.tally.failed == failures_named(steps, w.name@)
            &&& w.tally.total >= 3
            &&& steps_named(steps, name) >= 3 ==> w.tally.failed * steps_named(steps, name)
                >= failures_named(steps, name) * w.tally.total
        },
        t.worst is None ==> steps_named(tally::all_steps(sessions), name) < 3,
{
    let steps = tally::all_steps(sessions);
    let counts = tally::counts_by_name(steps);
    let names = tally::step_names(steps);
    lemma_name_counts(steps, name);
    if steps_named(steps, name) >= 3 {
        let keep = |s: TraceEntry| s.action.action_type@.name() == name;
        let (a, b, c) = consistency_laws::lemma_filter_places(steps, keep);
        lemma_step_names(steps, c);
        let j = choose|j: int| 0 <= j < names.len() && names[j] == name;
        assert(counts[j] == tally::name_counts(steps, name));
        assert(counts[j].total >= 3);
    }
    if let Some(w) = t.worst {
        let k = choose|k: int|
            #[trigger] tally::is_worst(counts, k) && w.name@ == names[k] && w.tally@ == counts[k];
        lemma_name_counts(steps, w.name@);
        assert(counts[k] == tally::name_counts(steps, names[k]));
        lemma_named_steps(steps, k);
    }
}

/// What is counted under a name grows by one with every step of this name.
pub proof fn law_counts_by_name(steps: Seq<TraceEntry>, step: TraceEntry, name: Seq<char>)
    ensures
        tally::name_counts(steps.push(step), name).total == tally::name_counts(steps, name).total
            + (if step.action.action_type@.name() == name {
            1nat
        } else {
            0
        }),
        tally::name_counts(steps.push(step), name).failed == tally::name_counts(steps, name).failed
            + (if step.action.action_type@.name() == name && !(step.result is Success) {
            1nat
        } else {
            0
        }),
{
    reveal(Seq::filter);
    assert(steps.push(step).drop_last() =~= steps);
}

/// The counts of the sessions are those of the single detectors.
pub proof fn law_tallies(t: tally::Tallies, sessions: Seq<SessionTrace>)
    requires
        tally::tallied(t, sessions),
    ensures
        t.writes@ == tally::write_runs(sessions),
        t.repeats@ == tally::repeated_edits(sessions),
        t.untested@ == tally::source_edits(sessions, false),
        t.tested@ == tally::source_edits(sessions, true),
        t.unprotected@ == tally::unprotected_sessions(sessions),
{
}

}
