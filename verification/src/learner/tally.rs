//! Counting what happened in recorded sessions.

use vstd::prelude::*;

use crate::learner::patterns::SessionTrace;
use crate::learner::rules;
use crate::text;
use crate::types::ActionType;
use crate::types::TraceEntry;

verus! {

// ── Counting steps ───────────────────────────────────────────

/// How often something happened, and how often the step failed then.
#[derive(Debug, Clone, Copy, PartialEq, Eq, Structural)]
pub struct Tally {
    pub total: u32,
    pub failed: u32,
}

/// A tally in plain numbers.
pub struct Counts {
    pub total: nat,
    pub failed: nat,
}

impl View for Tally {
    type V = Counts;

    open spec fn view(&self) -> Counts {
        Counts { total: self.total as nat, failed: self.failed as nat }
    }
}

/// The step did not succeed.
pub open spec fn failing(step: TraceEntry) -> bool {
    !(step.result is Success)
}

/// The counts over the first `n` steps, where step `i` counts `weight(steps, i)`
/// times.
pub open spec fn tally_steps(
    steps: Seq<TraceEntry>,
    weight: spec_fn(Seq<TraceEntry>, int) -> nat,
    n: int,
) -> Counts
    decreases n,
{
    if n <= 0 {
        Counts { total: 0, failed: 0 }
    } else {
        let before = tally_steps(steps, weight, n - 1);
        let w = weight(steps, n - 1);
        Counts {
            total: before.total + w,
            failed: before.failed + (if failing(steps[n - 1]) {
                w
            } else {
                0
            }),
        }
    }
}

/// The counts over all steps of the first `n` sessions.
pub open spec fn tally_sessions_upto(
    sessions: Seq<SessionTrace>,
    weight: spec_fn(Seq<TraceEntry>, int) -> nat,
    n: int,
) -> Counts
    decreases n,
{
    if n <= 0 {
        Counts { total: 0, failed: 0 }
    } else {
        let before = tally_sessions_upto(sessions, weight, n - 1);
        let steps = sessions[n - 1].steps@;
        let here = tally_steps(steps, weight, steps.len() as int);
        Counts { total: before.total + here.total, failed: before.failed + here.failed }
    }
}

/// The counts over all steps of all sessions.
pub open spec fn tally(
    sessions: Seq<SessionTrace>,
    weight: spec_fn(Seq<TraceEntry>, int) -> nat,
) -> Counts {
    tally_sessions_upto(sessions, weight, sessions.len() as int)
}

proof fn lemma_steps_grow(
    steps: Seq<TraceEntry>,
    weight: spec_fn(Seq<TraceEntry>, int) -> nat,
    n: int,
    m: int,
)
    requires
        n <= m,
    ensures
        tally_steps(steps, weight, n).total <= tally_steps(steps, weight, m).total,
        tally_steps(steps, weight, n).failed <= tally_steps(steps, weight, m).failed,
        tally_steps(steps, weight, m).failed <= tally_steps(steps, weight, m).total,
    decreases m,
{
    if m > 0 {
        if n < m {
            lemma_steps_grow(steps, weight, n, m - 1);
        } else {
            lemma_steps_grow(steps, weight, n - 1, m - 1);
        }
    }
}

proof fn lemma_sessions_grow(
    sessions: Seq<SessionTrace>,
    weight: spec_fn(Seq<TraceEntry>, int) -> nat,
    n: int,
    m: int,
)
    requires
        n <= m,
    ensures
        tally_sessions_upto(sessions, weight, n).total <= tally_sessions_upto(
            sessions,
            weight,
            m,
        ).total,
        tally_sessions_upto(sessions, weight, m).failed <= tally_sessions_upto(
            sessions,
            weight,
            m,
        ).total,
    decreases m,
{
    if m > 0 {
        let steps = sessions[m - 1].steps@;
        lemma_steps_grow(steps, weight, 0, steps.len() as int);
        if n < m {
            lemma_sessions_grow(sessions, weight, n, m - 1);
        } else {
            lemma_sessions_grow(sessions, weight, n - 1, m - 1);
        }
    }
}

/// Decides how often a step counts.
trait Detector {
    spec fn weight(&self, steps: Seq<TraceEntry>, i: int) -> nat;

    fn weigh(&self, steps: &Vec<TraceEntry>, i: usize) -> (r: usize)
        requires
            i < steps@.len(),
        ensures
            r == self.weight(steps@, i as int),
    ;
}

/// Counts the steps of all sessions by the detector.
fn count<D: Detector>(sessions: &[SessionTrace], detector: &D) -> (r: Tally)
    requires
        tally(
            sessions@,
            |s: Seq<TraceEntry>, i: int| detector.weight(s, i),
        ).total <= u32::MAX,
    ensures
        r@ == tally(sessions@, |s: Seq<TraceEntry>, i: int| detector.weight(s, i)),
{
    let ghost w = |s: Seq<TraceEntry>, i: int| detector.weight(s, i);
    let mut total: u32 = 0;
    let mut failed: u32 = 0;
    let mut k: usize = 0;
    while k < sessions.len()
        invariant
            k <= sessions.len(),
            w == (|s: Seq<TraceEntry>, i: int| detector.weight(s, i)),
            tally(sessions@, w).total <= u32::MAX,
            total == tally_sessions_upto(sessions@, w, k as int).total,
            failed == tally_sessions_upto(sessions@, w, k as int).failed,
        decreases sessions.len() - k,
    {
        let steps = &sessions[k].steps;
        let ghost base = tally_sessions_upto(sessions@, w, k as int);
        let mut i: usize = 0;
        while i < steps.len()
            invariant
                i <= steps.len(),
                k < sessions@.len(),
                steps@ == sessions@[k as int].steps@,
                w == (|s: Seq<TraceEntry>, i: int| detector.weight(s, i)),
                tally(sessions@, w).total <= u32::MAX,
                base == tally_sessions_upto(sessions@, w, k as int),
                total == base.total + tally_steps(steps@, w, i as int).total,
                failed == base.failed + tally_steps(steps@, w, i as int).failed,
            decreases steps.len() - i,
        {
            proof {
                lemma_steps_grow(steps@, w, i + 1, steps@.len() as int);
                lemma_steps_grow(steps@, w, 0, i + 1);
                lemma_sessions_grow(sessions@, w, 0, k as int);
                lemma_sessions_grow(sessions@, w, k + 1, sessions@.len() as int);
            }
            let hits = detector.weigh(steps, i);
            assert(w(steps@, i as int) == hits);
            total += hits as u32;
            if !steps[i].result.is_success() {
                failed += hits as u32;
            }
            i += 1;
        }
        k += 1;
    }
    Tally { total, failed }
}

// ── Consecutive writes ───────────────────────────────────────

/// How many writes came since the last read or search.
pub open spec fn writes_since_read(steps: Seq<TraceEntry>) -> nat
    decreases steps.len(),
{
    if steps.len() == 0 {
        0
    } else {
        let kind = steps.last().action.action_type@;
        if kind is Write {
            writes_since_read(steps.drop_last()) + 1
        } else if kind is Read || kind is Search {
            0
        } else {
            writes_since_read(steps.drop_last())
        }
    }
}

/// A step counts when it is at least the third write without a read.
pub open spec fn run_weight(steps: Seq<TraceEntry>, i: int) -> nat {
    if steps[i].action.action_type@ is Write && writes_since_read(steps.take(i + 1)) >= 3 {
        1
    } else {
        0
    }
}

/// How often steps were at least the third write without a read.
pub open spec fn write_runs(sessions: Seq<SessionTrace>) -> Counts {
    tally(sessions, |s: Seq<TraceEntry>, i: int| run_weight(s, i))
}

struct WriteRuns;

impl Detector for WriteRuns {
    spec fn weight(&self, steps: Seq<TraceEntry>, i: int) -> nat {
        run_weight(steps, i)
    }

    fn weigh(&self, steps: &Vec<TraceEntry>, i: usize) -> (r: usize) {
        let total = steps.len();
        let mut n: usize = 0;
        let mut k: usize = 0;
        while k <= i
            invariant
                k <= i + 1,
                i < total,
                total == steps@.len(),
                n <= k,
                n == writes_since_read(steps@.take(k as int)),
            decreases i + 1 - k,
        {
            assert(steps@.take(k + 1).drop_last() =~= steps@.take(k as int));
            assert(steps@.take(k + 1).last() == steps@[k as int]);
            match steps[k].action.action_type {
                ActionType::Write => {
                    n += 1;
                },
                ActionType::Read | ActionType::Search => {
                    n = 0;
                },
                _ => {},
            }
            k += 1;
        }
        if matches!(steps[i].action.action_type, ActionType::Write) && n >= 3 {
            1
        } else {
            0
        }
    }
}

/// Counts the steps that were at least the third write without a read.
pub fn count_consecutive_writes(sessions: &[SessionTrace]) -> (r: Tally)
    requires
        write_runs(sessions@).total <= u32::MAX,
    ensures
        r@ == write_runs(sessions@),
{
    let d = WriteRuns;
    assert((|s: Seq<TraceEntry>, i: int| d.weight(s, i)) =~= (|s: Seq<TraceEntry>, i: int|
        run_weight(s, i)));
    count(sessions, &d)
}

// ── Repeated edits ───────────────────────────────────────────

/// The files that the first `n` steps write, each as often as it is named.
pub open spec fn written_files(steps: Seq<TraceEntry>, n: int) -> Seq<Seq<char>>
    decreases n,
{
    if n <= 0 {
        Seq::empty()
    } else if steps[n - 1].action.action_type@ is Write {
        written_files(steps, n - 1) + text::strings(steps[n - 1].action.target_files@)
    } else {
        written_files(steps, n - 1)
    }
}

/// How often `x` occurs in the list.
pub open spec fn occurrences(list: Seq<Seq<char>>, x: Seq<char>) -> nat {
    list.filter(|y: Seq<char>| y == x).len()
}

/// How many of the first `n` files are named at least for the third time, after
/// those in `before`.
pub open spec fn repeats(before: Seq<Seq<char>>, files: Seq<Seq<char>>, n: int) -> nat
    decreases n,
{
    if n <= 0 {
        0
    } else {
        repeats(before, files, n - 1) + (if occurrences(before + files.take(n), files[n - 1]) >= 3 {
            1nat
        } else {
            0
        })
    }
}

/// A write counts once for every file that it edits at least for the third time.
pub open spec fn repeat_weight(steps: Seq<TraceEntry>, i: int) -> nat {
    if steps[i].action.action_type@ is Write {
        let files = text::strings(steps[i].action.target_files@);
        repeats(written_files(steps, i), files, files.len() as int)
    } else {
        0
    }
}

/// How often a file was edited at least for the third time in a session.
pub open spec fn repeated_edits(sessions: Seq<SessionTrace>) -> Counts {
    tally(sessions, |s: Seq<TraceEntry>, i: int| repeat_weight(s, i))
}

/// How often `x` occurs in the list.
fn count_occurrences(list: &Vec<&str>, x: &str) -> (n: usize)
    ensures
        n == occurrences(text::texts(list@), x@),
{
    let ghost all = text::texts(list@);
    let ghost keep = |y: Seq<char>| y == x@;
    let mut n: usize = 0;
    let mut i: usize = 0;
    proof {
        reveal(Seq::filter);
        assert(all.take(0) =~= Seq::<Seq<char>>::empty());
    }
    while i < list.len()
        invariant
            i <= list.len(),
            n <= i,
            all == text::texts(list@),
            keep == (|y: Seq<char>| y == x@),
            n == all.take(i as int).filter(keep).len(),
        decreases list.len() - i,
    {
        proof {
            assert(all[i as int] == list@[i as int]@);
            crate::verification::patterns::lemma_filter_next(all, keep, i as int);
        }
        if text::str_eq(list[i], x) {
            n += 1;
        }
        i += 1;
    }
    assert(all.take(i as int) =~= all);
    n
}

struct RepeatedEdits;

impl Detector for RepeatedEdits {
    spec fn weight(&self, steps: Seq<TraceEntry>, i: int) -> nat {
        repeat_weight(steps, i)
    }

    fn weigh(&self, steps: &Vec<TraceEntry>, i: usize) -> (r: usize) {
        if !matches!(steps[i].action.action_type, ActionType::Write) {
            return 0;
        }
        let mut seen: Vec<&str> = Vec::new();
        let mut k: usize = 0;
        assert(text::texts(seen@) =~= written_files(steps@, 0));
        while k < i
            invariant
                k <= i < steps@.len(),
                text::texts(seen@) == written_files(steps@, k as int),
            decreases i - k,
        {
            if matches!(steps[k].action.action_type, ActionType::Write) {
                push_all(&mut seen, &steps[k].action.target_files);
            }
            k += 1;
        }
        let files = &steps[i].action.target_files;
        let ghost before = text::texts(seen@);
        let ghost all = text::strings(files@);
        let mut hits: usize = 0;
        let mut j: usize = 0;
        assert(before + all.take(0) =~= before);
        while j < files.len()
            invariant
                j <= files.len(),
                hits <= j,
                all == text::strings(files@),
                text::texts(seen@) == before + all.take(j as int),
                hits == repeats(before, all, j as int),
            decreases files.len() - j,
        {
            let file = files[j].as_str();
            let ghost old_seen = seen@;
            seen.push(file);
            proof {
                assert(text::texts(seen@) =~= text::texts(old_seen).push(file@));
                assert(all.take(j + 1) =~= all.take(j as int).push(file@));
                assert(before + all.take(j + 1) =~= (before + all.take(j as int)).push(file@));
            }
            if count_occurrences(&seen, file) >= 3 {
                hits += 1;
            }
            j += 1;
        }
        hits
    }
}

/// Appends slices of the strings to the list.
fn push_all<'a>(list: &mut Vec<&'a str>, more: &'a Vec<String>)
    ensures
        text::texts(final(list)@) == text::texts(old(list)@) + text::strings(more@),
{
    let ghost before = text::texts(list@);
    let ghost all = text::strings(more@);
    let mut j: usize = 0;
    assert(before + all.take(0) =~= before);
    while j < more.len()
        invariant
            j <= more.len(),
            all == text::strings(more@),
            text::texts(list@) == before + all.take(j as int),
        decreases more.len() - j,
    {
        let ghost old_list = list@;
        list.push(more[j].as_str());
        proof {
            assert(text::texts(list@) =~= text::texts(old_list).push(more@[j as int]@));
            assert(all.take(j + 1) =~= all.take(j as int).push(more@[j as int]@));
            assert(before + all.take(j + 1) =~= (before + all.take(j as int)).push(
                more@[j as int]@,
            ));
        }
        j += 1;
    }
    assert(all.take(j as int) =~= all);
}

/// Counts the edits that were at least the third one of a file.
pub fn count_repeated_edits(sessions: &[SessionTrace]) -> (r: Tally)
    requires
        repeated_edits(sessions@).total <= u32::MAX,
    ensures
        r@ == repeated_edits(sessions@),
{
    let d = RepeatedEdits;
    assert((|s: Seq<TraceEntry>, i: int| d.weight(s, i)) =~= (|s: Seq<TraceEntry>, i: int|
        repeat_weight(s, i)));
    count(sessions, &d)
}

// ── Tests after edits ────────────────────────────────────────

/// The step edits source.
pub open spec fn is_source_edit(step: TraceEntry) -> bool {
    step.action.action_type@ is Write && rules::edits_source(
        text::strings(step.action.target_files@),
    )
}

/// One of the three steps after step `i` runs tests.
pub open spec fn test_follows(steps: Seq<TraceEntry>, i: int) -> bool {
    exists|k: int|
        i < k < steps.len() && k <= i + 3 && rules::runs_test(
            (#[trigger] steps[k]).action.action_type@,
            steps[k].action.description@,
        )
}

/// A source edit counts when tests follow, or do not follow, as asked for.
pub open spec fn edit_weight(steps: Seq<TraceEntry>, i: int, tested: bool) -> nat {
    if is_source_edit(steps[i]) && test_follows(steps, i) == tested {
        1
    } else {
        0
    }
}

/// How often source was edited with, or without, a test run right after it.
pub open spec fn source_edits(sessions: Seq<SessionTrace>, tested: bool) -> Counts {
    tally(sessions, |s: Seq<TraceEntry>, i: int| edit_weight(s, i, tested))
}

struct SourceEdits {
    tested: bool,
}

impl Detector for SourceEdits {
    spec fn weight(&self, steps: Seq<TraceEntry>, i: int) -> nat {
        edit_weight(steps, i, self.tested)
    }

    fn weigh(&self, steps: &Vec<TraceEntry>, i: usize) -> (r: usize) {
        if !matches!(steps[i].action.action_type, ActionType::Write) {
            return 0;
        }
        if !rules::any_source(&steps[i].action.target_files) {
            return 0;
        }
        if has_test_after(steps, i) == self.tested {
            1
        } else {
            0
        }
    }
}

/// Whether one of the three steps after step `i` runs tests.
pub fn has_test_after(steps: &Vec<TraceEntry>, i: usize) -> (b: bool)
    requires
        i < steps@.len(),
    ensures
        b == test_follows(steps@, i as int),
{
    let n = steps.len();
    let last: usize = if n - i > 4 {
        i + 4
    } else {
        n
    };
    let mut k: usize = i + 1;
    while k < last
        invariant
            i < k <= last,
            n == steps@.len(),
            last <= n,
            last <= i + 4,
            last == n || last == i + 4,
            forall|j: int|
                i < j < k ==> !rules::runs_test(
                    (#[trigger] steps@[j]).action.action_type@,
                    steps@[j].action.description@,
                ),
        decreases last - k,
    {
        let a = &steps[k].action;
        if rules::is_test_run(&a.action_type, a.description.as_str()) {
            assert(rules::runs_test(
                steps@[k as int].action.action_type@,
                steps@[k as int].action.description@,
            ));
            return true;
        }
        k += 1;
    }
    false
}

/// Counts the source edits with, or without, a test run right after them.
pub fn count_source_edits(sessions: &[SessionTrace], tested: bool) -> (r: Tally)
    requires
        source_edits(sessions@, tested).total <= u32::MAX,
    ensures
        r@ == source_edits(sessions@, tested),
{
    let d = SourceEdits { tested };
    assert((|s: Seq<TraceEntry>, i: int| d.weight(s, i)) =~= (|s: Seq<TraceEntry>, i: int|
        edit_weight(s, i, tested)));
    count(sessions, &d)
}

// ── Long sessions ────────────────────────────────────────────

/// The session has at least five steps and none of them has a checkpoint.
pub open spec fn is_unprotected(session: SessionTrace) -> bool {
    session.steps@.len() >= 5 && forall|i: int|
        0 <= i < session.steps@.len() ==> (#[trigger] session.steps@[i]).checkpoint_id is None
}

/// A step of the session failed.
pub open spec fn has_failing(session: SessionTrace) -> bool {
    exists|i: int| 0 <= i < session.steps@.len() && failing(#[trigger] session.steps@[i])
}

/// How many long sessions had no checkpoint, and in how many of them a step failed.
pub open spec fn unprotected_sessions(sessions: Seq<SessionTrace>) -> Counts {
    Counts {
        total: sessions.filter(|s: SessionTrace| is_unprotected(s)).len(),
        failed: sessions.filter(|s: SessionTrace| is_unprotected(s) && has_failing(s)).len(),
    }
}

/// Whether the session is long and has no checkpoint.
fn unprotected(session: &SessionTrace) -> (b: bool)
    ensures
        b == is_unprotected(*session),
{
    let steps = &session.steps;
    if steps.len() < 5 {
        return false;
    }
    let mut i: usize = 0;
    while i < steps.len()
        invariant
            i <= steps.len(),
            steps == &session.steps,
            forall|j: int| 0 <= j < i ==> (#[trigger] steps@[j]).checkpoint_id is None,
        decreases steps.len() - i,
    {
        if steps[i].checkpoint_id.is_some() {
            assert(steps@[i as int].checkpoint_id is Some);
            return false;
        }
        i += 1;
    }
    true
}

/// Whether a step of the session failed.
fn any_failing(session: &SessionTrace) -> (b: bool)
    ensures
        b == has_failing(*session),
{
    let steps = &session.steps;
    let mut i: usize = 0;
    while i < steps.len()
        invariant
            i <= steps.len(),
            steps == &session.steps,
            forall|j: int| 0 <= j < i ==> !failing(#[trigger] steps@[j]),
        decreases steps.len() - i,
    {
        if !steps[i].result.is_success() {
            assert(failing(steps@[i as int]));
            return true;
        }
        i += 1;
    }
    false
}

/// A filtered prefix is no longer than the filtered list.
proof fn lemma_prefix_filter<A>(s: Seq<A>, keep: spec_fn(A) -> bool, n: int)
    requires
        0 <= n <= s.len(),
    ensures
        s.take(n).filter(keep).len() <= s.filter(keep).len(),
{
    assert(s =~= s.take(n) + s.skip(n));
    Seq::filter_distributes_over_add(s.take(n), s.skip(n), keep);
}

/// A stronger condition keeps no more elements.
proof fn lemma_stronger_filter<A>(s: Seq<A>, strong: spec_fn(A) -> bool, weak: spec_fn(A) -> bool)
    requires
        forall|a: A| #[trigger] strong(a) ==> weak(a),
    ensures
        s.filter(strong).len() <= s.filter(weak).len(),
    decreases s.len(),
{
    reveal(Seq::filter);
    if s.len() > 0 {
        lemma_stronger_filter(s.drop_last(), strong, weak);
    }
}

/// Counts the long sessions without a checkpoint.
pub fn count_unprotected_sessions(sessions: &[SessionTrace]) -> (r: Tally)
    requires
        unprotected_sessions(sessions@).total <= u32::MAX,
    ensures
        r@ == unprotected_sessions(sessions@),
{
    let ghost long = |s: SessionTrace| is_unprotected(s);
    let ghost bad = |s: SessionTrace| is_unprotected(s) && has_failing(s);
    let mut total: u32 = 0;
    let mut failed: u32 = 0;
    let mut k: usize = 0;
    proof {
        reveal(Seq::filter);
        assert(sessions@.take(0) =~= Seq::<SessionTrace>::empty());
    }
    while k < sessions.len()
        invariant
            k <= sessions.len(),
            long == (|s: SessionTrace| is_unprotected(s)),
            bad == (|s: SessionTrace| is_unprotected(s) && has_failing(s)),
            sessions@.filter(long).len() <= u32::MAX,
            total == sessions@.take(k as int).filter(long).len(),
            failed == sessions@.take(k as int).filter(bad).len(),
        decreases sessions.len() - k,
    {
        proof {
            crate::verification::patterns::lemma_filter_next(sessions@, long, k as int);
            crate::verification::patterns::lemma_filter_next(sessions@, bad, k as int);
            lemma_prefix_filter(sessions@, long, k + 1);
            lemma_stronger_filter(sessions@.take(k + 1), bad, long);
        }
        if unprotected(&sessions[k]) {
            total += 1;
            if any_failing(&sessions[k]) {
                failed += 1;
            }
        }
        k += 1;
    }
    assert(sessions@.take(k as int) =~= sessions@);
    Tally { total, failed }
}

// ── Action types ─────────────────────────────────────────────

/// All steps of the sessions, in order.
pub open spec fn all_steps(sessions: Seq<SessionTrace>) -> Seq<TraceEntry>
    decreases sessions.len(),
{
    if sessions.len() == 0 {
        Seq::empty()
    } else {
        all_steps(sessions.drop_last()) + sessions.last().steps@
    }
}

/// The name of the action type of a step.
pub open spec fn step_name(step: TraceEntry) -> Seq<char> {
    step.action.action_type@.name()
}

/// How often steps of this name were taken, and how often they failed.
pub open spec fn name_counts(steps: Seq<TraceEntry>, name: Seq<char>) -> Counts {
    Counts {
        total: steps.filter(|s: TraceEntry| step_name(s) == name).len(),
        failed: steps.filter(|s: TraceEntry| step_name(s) == name && failing(s)).len(),
    }
}

/// The names of the steps, each once, in the order of their first occurrence.
pub open spec fn step_names(steps: Seq<TraceEntry>) -> Seq<Seq<char>>
    decreases steps.len(),
{
    if steps.len() == 0 {
        Seq::empty()
    } else {
        let before = step_names(steps.drop_last());
        if before.contains(step_name(steps.last())) {
            before
        } else {
            before.push(step_name(steps.last()))
        }
    }
}

/// Counts for the steps of one name.
#[derive(Debug)]
pub struct ActionTally {
    pub name: String,
    pub tally: Tally,
}

impl Clone for ActionTally {
    fn clone(&self) -> (r: ActionTally)
        ensures
            r == *self,
    {
        ActionTally { name: self.name.clone(), tally: self.tally }
    }
}

/// The names in the list.
pub open spec fn tally_names(list: Seq<ActionTally>) -> Seq<Seq<char>> {
    list.map_values(|t: ActionTally| t.name@)
}

/// The list has the counts of each name in the steps, in the order of first
/// occurrence.
pub open spec fn tallies_names(list: Seq<ActionTally>, steps: Seq<TraceEntry>) -> bool {
    &&& tally_names(list) == step_names(steps)
    &&& forall|k: int|
        0 <= k < list.len() ==> (#[trigger] list[k]).tally@ == name_counts(steps, list[k].name@)
}

proof fn lemma_name_counts_push(steps: Seq<TraceEntry>, step: TraceEntry, name: Seq<char>)
    ensures
        name_counts(steps.push(step), name).total == name_counts(steps, name).total + (if step_name(
            step,
        ) == name {
            1nat
        } else {
            0
        }),
        name_counts(steps.push(step), name).failed == name_counts(steps, name).failed + (
        if step_name(step) == name && failing(step) {
            1nat
        } else {
            0
        }),
{
    reveal(Seq::filter);
    assert(steps.push(step).drop_last() =~= steps);
}

proof fn lemma_name_counts_prefix(steps: Seq<TraceEntry>, more: Seq<TraceEntry>, name: Seq<char>)
    ensures
        name_counts(steps, name).total <= name_counts(steps + more, name).total,
        name_counts(steps, name).failed <= name_counts(steps, name).total,
{
    Seq::filter_distributes_over_add(steps, more, |s: TraceEntry| step_name(s) == name);
    lemma_stronger_filter(
        steps,
        |s: TraceEntry| step_name(s) == name && failing(s),
        |s: TraceEntry| step_name(s) == name,
    );
}

/// A name that does not occur counts nothing.
proof fn lemma_unseen_name(steps: Seq<TraceEntry>, name: Seq<char>)
    requires
        !step_names(steps).contains(name),
    ensures
        name_counts(steps, name) == (Counts { total: 0, failed: 0 }),
    decreases steps.len(),
{
    reveal(Seq::filter);
    if steps.len() > 0 {
        let before = step_names(steps.drop_last());
        let last = step_name(steps.last());
        assert(!before.contains(name)) by {
            if before.contains(name) {
                let k = choose|k: int| 0 <= k < before.len() && before[k] == name;
                assert(step_names(steps)[k] == name);
            }
        }
        assert(last != name) by {
            if last == name {
                if !before.contains(last) {
                    assert(step_names(steps)[before.len() as int] == name);
                }
            }
        }
        lemma_unseen_name(steps.drop_last(), name);
    }
}

/// Every name is in the list once.
proof fn lemma_names_once(steps: Seq<TraceEntry>)
    ensures
        step_names(steps).no_duplicates(),
    decreases steps.len(),
{
    if steps.len() > 0 {
        lemma_names_once(steps.drop_last());
        let before = step_names(steps.drop_last());
        let after = step_names(steps);
        assert forall|i: int, j: int|
            0 <= i < after.len() && 0 <= j < after.len() && i != j implies after[i] != after[j] by {
            if i < before.len() {
                assert(before.contains(before[i]));
            }
            if j < before.len() {
                assert(before.contains(before[j]));
            }
        }
    }
}

/// Records one more step in the list.
fn record(list: &mut Vec<ActionTally>, step: &TraceEntry, Ghost(steps): Ghost<Seq<TraceEntry>>)
    requires
        tallies_names(old(list)@, steps),
        name_counts(steps.push(*step), step_name(*step)).total <= u32::MAX,
    ensures
        tallies_names(final(list)@, steps.push(*step)),
{
    let name = step.action.action_type.as_str();
    let failed = !step.result.is_success();
    let ghost longer = steps.push(*step);
    let ghost before = list@;
    proof {
        assert(longer.drop_last() =~= steps);
        assert(longer.last() == *step);
        lemma_names_once(steps);
        lemma_name_counts_push(steps, *step, name@);
        lemma_name_counts_prefix(longer, Seq::empty(), name@);
    }
    let n = list.len();
    let mut k: usize = 0;
    while k < n && !text::str_eq(list[k].name.as_str(), name)
        invariant
            k <= n,
            n == list@.len(),
            list@ == before,
            forall|j: int| 0 <= j < k ==> (#[trigger] list@[j]).name@ != name@,
        decreases n - k,
    {
        k += 1;
    }
    if k < n {
        let entry = list[k].clone();
        proof {
            assert(tally_names(before)[k as int] == name@);
            assert(step_names(steps).contains(name@));
        }
        let tally = Tally {
            total: entry.tally.total + 1,
            failed: if failed {
                entry.tally.failed + 1
            } else {
                entry.tally.failed
            },
        };
        list.set(k, ActionTally { name: entry.name, tally });
        proof {
            assert(tally_names(list@) =~= tally_names(before));
            assert forall|j: int| 0 <= j < list@.len() implies (#[trigger] list@[j]).tally@
                == name_counts(longer, list@[j].name@) by {
                lemma_name_counts_push(steps, *step, list@[j].name@);
                if j != k {
                    assert(before[j] == list@[j]);
                    assert(tally_names(before)[j] == before[j].name@);
                    assert(tally_names(before)[j] != tally_names(before)[k as int]);
                }
            }
        }
    } else {
        proof {
            assert(!step_names(steps).contains(name@)) by {
                if step_names(steps).contains(name@) {
                    let j = choose|j: int|
                        0 <= j < step_names(steps).len() && step_names(steps)[j] == name@;
                    assert(tally_names(before)[j] == before[j].name@);
                }
            }
            lemma_unseen_name(steps, name@);
        }
        let tally = Tally {
            total: 1,
            failed: if failed {
                1
            } else {
                0
            },
        };
        list.push(ActionTally { name: name.to_string(), tally });
        proof {
            assert(tally_names(list@) =~= tally_names(before).push(name@));
            assert forall|j: int| 0 <= j < list@.len() implies (#[trigger] list@[j]).tally@
                == name_counts(longer, list@[j].name@) by {
                lemma_name_counts_push(steps, *step, list@[j].name@);
                if j < before.len() {
                    assert(before[j] == list@[j]);
                    assert(tally_names(before)[j] == before[j].name@);
                    assert(step_names(steps).contains(before[j].name@));
                }
            }
        }
    }
}

/// The steps of the first sessions are the first steps.
pub proof fn lemma_all_steps_split(sessions: Seq<SessionTrace>, k: int)
    requires
        0 <= k <= sessions.len(),
    ensures
        exists|rest: Seq<TraceEntry>|
            #[trigger] (all_steps(sessions.take(k)) + rest) == all_steps(sessions),
    decreases sessions.len(),
{
    if k == sessions.len() {
        assert(sessions.take(k) =~= sessions);
        assert(all_steps(sessions.take(k)) + Seq::<TraceEntry>::empty() =~= all_steps(sessions));
    } else {
        let shorter = sessions.drop_last();
        lemma_all_steps_split(shorter, k);
        assert(shorter.take(k) =~= sessions.take(k));
        let rest = choose|rest: Seq<TraceEntry>|
            #[trigger] (all_steps(shorter.take(k)) + rest) == all_steps(shorter);
        let more = rest + sessions.last().steps@;
        assert(all_steps(sessions.take(k)) + more =~= all_steps(sessions));
    }
}

/// Counts the steps of the sessions by the name of their action type.
pub fn count_action_types(sessions: &[SessionTrace]) -> (r: Vec<ActionTally>)
    requires
        forall|name: Seq<char>|
            (#[trigger] name_counts(all_steps(sessions@), name)).total <= u32::MAX,
    ensures
        tallies_names(r@, all_steps(sessions@)),
{
    let mut list: Vec<ActionTally> = Vec::new();
    let mut k: usize = 0;
    proof {
        assert(sessions@.take(0) =~= Seq::<SessionTrace>::empty());
        assert(tally_names(list@) =~= step_names(all_steps(sessions@.take(0))));
    }
    while k < sessions.len()
        invariant
            k <= sessions.len(),
            forall|name: Seq<char>|
                (#[trigger] name_counts(all_steps(sessions@), name)).total <= u32::MAX,
            tallies_names(list@, all_steps(sessions@.take(k as int))),
        decreases sessions.len() - k,
    {
        let steps = &sessions[k].steps;
        let ghost base = all_steps(sessions@.take(k as int));
        proof {
            assert(sessions@.take(k + 1).drop_last() =~= sessions@.take(k as int));
            assert(sessions@.take(k + 1).last() == sessions@[k as int]);
            assert(base + steps@.take(0) =~= base);
        }
        let mut i: usize = 0;
        while i < steps.len()
            invariant
                i <= steps.len(),
                k < sessions@.len(),
                all_steps(sessions@.take(k + 1)) == base + steps@,
                forall|name: Seq<char>|
                    (#[trigger] name_counts(all_steps(sessions@), name)).total <= u32::MAX,
                tallies_names(list@, base + steps@.take(i as int)),
            decreases steps.len() - i,
        {
            let ghost seen = base + steps@.take(i as int);
            proof {
                let name = step_name(steps@[i as int]);
                let longer = seen.push(steps@[i as int]);
                assert(longer =~= base + steps@.take(i + 1));
                lemma_all_steps_split(sessions@, k + 1);
                let rest = choose|rest: Seq<TraceEntry>|
                    #[trigger] (all_steps(sessions@.take(k + 1)) + rest) == all_steps(sessions@);
                let more = steps@.skip(i + 1) + rest;
                assert(longer + more =~= all_steps(sessions@));
                lemma_name_counts_prefix(longer, more, name);
            }
            record(&mut list, &steps[i], Ghost(seen));
            i += 1;
        }
        assert(steps@.take(i as int) =~= steps@);
        k += 1;
    }
    assert(sessions@.take(k as int) =~= sessions@);
    list
}

/// `a` fails more often than `b`.
pub open spec fn worse(a: Counts, b: Counts) -> bool {
    a.failed * b.total > b.failed * a.total
}

/// The counts at `k` are those that fail most often among those of at least three
/// steps. Of equals they are the first.
pub open spec fn is_worst(counts: Seq<Counts>, k: int) -> bool {
    &&& 0 <= k < counts.len()
    &&& counts[k].total >= 3
    &&& forall|j: int|
        0 <= j < counts.len() && (#[trigger] counts[j]).total >= 3 ==> !worse(counts[j], counts[k])
    &&& forall|j: int|
        0 <= j < k && (#[trigger] counts[j]).total >= 3 ==> worse(counts[k], counts[j])
}

/// None of the counts is of at least three steps.
pub open spec fn all_rare(counts: Seq<Counts>) -> bool {
    forall|j: int| 0 <= j < counts.len() ==> (#[trigger] counts[j]).total < 3
}

/// The counts in the list.
pub open spec fn tally_counts(list: Seq<ActionTally>) -> Seq<Counts> {
    list.map_values(|t: ActionTally| t.tally@)
}

proof fn lemma_worse_chain(a: Counts, b: Counts, c: Counts)
    requires
        worse(a, b),
        !worse(c, b),
        b.total > 0,
        c.total > 0,
    ensures
        worse(a, c),
        !worse(c, a),
{
    // a/A > b/B and c/C <= b/B.
    assert(a.failed * c.total > c.failed * a.total) by (nonlinear_arith)
        requires
            a.failed * b.total > b.failed * a.total,
            c.failed * b.total <= b.failed * c.total,
            b.total > 0,
            c.total >= 0,
            a.total >= 0,
            a.failed >= 0,
            b.failed >= 0,
            c.failed >= 0,
            c.total > 0,
    ;
}

/// The index of the entry that fails most often among those with at least three
/// steps.
pub fn find_worst(list: &Vec<ActionTally>) -> (r: Option<usize>)
    ensures
        match r {
            Some(k) => is_worst(tally_counts(list@), k as int),
            None => all_rare(tally_counts(list@)),
        },
{
    let ghost all = tally_counts(list@);
    let mut best: Option<usize> = None;
    let mut i: usize = 0;
    while i < list.len()
        invariant
            i <= list.len(),
            all == tally_counts(list@),
            match best {
                Some(k) => k < i && is_worst(all.take(i as int), k as int),
                None => all_rare(all.take(i as int)),
            },
        decreases list.len() - i,
    {
        let t = list[i].tally;
        let ghost shorter = all.take(i as int);
        let ghost longer = all.take(i + 1);
        proof {
            assert(longer =~= shorter.push(t@));
            assert(!worse(t@, t@));
        }
        if t.total >= 3 {
            match best {
                None => {
                    best = Some(i);
                    assert(forall|j: int| 0 <= j < i ==> longer[j] == #[trigger] shorter[j]);
                    assert(is_worst(longer, i as int));
                },
                Some(k) => {
                    let b = list[k].tally;
                    assert(t.failed * b.total <= u64::MAX) by (nonlinear_arith)
                        requires
                            0 <= t.failed <= u32::MAX,
                            0 <= b.total <= u32::MAX,
                    ;
                    assert(b.failed * t.total <= u64::MAX) by (nonlinear_arith)
                        requires
                            0 <= b.failed <= u32::MAX,
                            0 <= t.total <= u32::MAX,
                    ;
                    let left: u64 = t.failed as u64 * b.total as u64;
                    let right: u64 = b.failed as u64 * t.total as u64;
                    assert(shorter[k as int] == b@);
                    if left > right {
                        proof {
                            assert forall|j: int|
                                0 <= j < i && (#[trigger] longer[j]).total >= 3 implies worse(
                                t@,
                                longer[j],
                            ) && !worse(longer[j], t@) by {
                                assert(shorter[j] == longer[j]);
                                lemma_worse_chain(t@, b@, longer[j]);
                            }
                            assert(is_worst(longer, i as int));
                        }
                        best = Some(i);
                    } else {
                        assert forall|j: int| 0 <= j < longer.len() && (#[trigger] longer[j]).total
                            >= 3 implies !worse(longer[j], longer[k as int]) by {
                            if j < i {
                                assert(shorter[j] == longer[j]);
                            }
                        }
                        assert(forall|j: int| 0 <= j < i ==> longer[j] == #[trigger] shorter[j]);
                        assert(is_worst(longer, k as int));
                    }
                },
            }
        } else {
            proof {
                assert(forall|j: int| 0 <= j < i ==> longer[j] == #[trigger] shorter[j]);
                match best {
                    Some(k) => {
                        assert(longer[k as int] == shorter[k as int]);
                        assert forall|j: int| 0 <= j < longer.len() && (#[trigger] longer[j]).total
                            >= 3 implies !worse(longer[j], longer[k as int]) by {
                            assert(shorter[j] == longer[j]);
                        }
                        assert(is_worst(longer, k as int));
                    },
                    None => {},
                }
            }
        }
        i += 1;
    }
    assert(all.take(i as int) =~= all);
    best
}

// ── Everything together ──────────────────────────────────────

/// The counts of each name, in the order of first occurrence.
pub open spec fn counts_by_name(steps: Seq<TraceEntry>) -> Seq<Counts> {
    step_names(steps).map_values(|name: Seq<char>| name_counts(steps, name))
}

/// All counts of the sessions fit into 32 bits.
pub open spec fn countable(sessions: Seq<SessionTrace>) -> bool {
    &&& write_runs(sessions).total <= u32::MAX
    &&& repeated_edits(sessions).total <= u32::MAX
    &&& source_edits(sessions, false).total <= u32::MAX
    &&& source_edits(sessions, true).total <= u32::MAX
    &&& unprotected_sessions(sessions).total <= u32::MAX
    &&& forall|name: Seq<char>|
        (#[trigger] name_counts(all_steps(sessions), name)).total <= u32::MAX
}

/// What was counted in the sessions.
#[derive(Debug)]
pub struct Tallies {
    /// Steps that were at least the third write without a read.
    pub writes: Tally,
    /// Edits that were at least the third one of a file in a session.
    pub repeats: Tally,
    /// Source edits without a test run right after them.
    pub untested: Tally,
    /// Source edits with a test run right after them.
    pub tested: Tally,
    /// Long sessions without a checkpoint.
    pub unprotected: Tally,
    /// The action type that fails most often.
    pub worst: Option<ActionTally>,
}

/// These are the counts of the sessions.
pub open spec fn tallied(t: Tallies, sessions: Seq<SessionTrace>) -> bool {
    &&& t.writes@ == write_runs(sessions)
    &&& t.repeats@ == repeated_edits(sessions)
    &&& t.untested@ == source_edits(sessions, false)
    &&& t.tested@ == source_edits(sessions, true)
    &&& t.unprotected@ == unprotected_sessions(sessions)
    &&& match t.worst {
        Some(w) => exists|k: int|
            #[trigger] is_worst(counts_by_name(all_steps(sessions)), k) && w.name@ == step_names(
                all_steps(sessions),
            )[k] && w.tally@ == counts_by_name(all_steps(sessions))[k],
        None => all_rare(counts_by_name(all_steps(sessions))),
    }
}

/// Counts everything in the sessions.
pub fn tally_sessions(sessions: &[SessionTrace]) -> (r: Tallies)
    requires
        countable(sessions@),
    ensures
        tallied(r, sessions@),
{
    let list = count_action_types(sessions);
    proof {
        let steps = all_steps(sessions@);
        assert(tally_counts(list@) =~= counts_by_name(steps)) by {
            assert forall|k: int| 0 <= k < list@.len() implies #[trigger] tally_counts(list@)[k]
                == counts_by_name(steps)[k] by {
                assert(tally_names(list@)[k] == list@[k].name@);
                assert(list@[k].tally@ == name_counts(steps, list@[k].name@));
            }
        }
    }
    let worst = match find_worst(&list) {
        Some(k) => {
            proof {
                assert(tally_names(list@)[k as int] == list@[k as int].name@);
                assert(tally_counts(list@)[k as int] == list@[k as int].tally@);
            }
            Some(list[k].clone())
        },
        None => None,
    };
    Tallies {
        writes: count_consecutive_writes(sessions),
        repeats: count_repeated_edits(sessions),
        untested: count_source_edits(sessions, false),
        tested: count_source_edits(sessions, true),
        unprotected: count_unprotected_sessions(sessions),
        worst,
    }
}

// ── Bounds ───────────────────────────────────────────────────

/// How many steps and file names there are in the first `n` steps.
pub open spec fn steps_size(steps: Seq<TraceEntry>, n: int) -> nat
    decreases n,
{
    if n <= 0 {
        0
    } else {
        steps_size(steps, n - 1) + 1 + steps[n - 1].action.target_files@.len()
    }
}

/// How many steps and file names there are in the first `n` sessions.
pub open spec fn sessions_size(sessions: Seq<SessionTrace>, n: int) -> nat
    decreases n,
{
    if n <= 0 {
        0
    } else {
        sessions_size(sessions, n - 1) + steps_size(
            sessions[n - 1].steps@,
            sessions[n - 1].steps@.len() as int,
        )
    }
}

proof fn lemma_steps_bounded(
    steps: Seq<TraceEntry>,
    weight: spec_fn(Seq<TraceEntry>, int) -> nat,
    n: int,
)
    requires
        0 <= n <= steps.len(),
        forall|i: int|
            0 <= i < steps.len() ==> #[trigger] weight(steps, i) <= 1
                + steps[i].action.target_files@.len(),
    ensures
        tally_steps(steps, weight, n).total <= steps_size(steps, n),
        n <= steps_size(steps, n),
    decreases n,
{
    if n > 0 {
        lemma_steps_bounded(steps, weight, n - 1);
        assert(weight(steps, n - 1) <= 1 + steps[n - 1].action.target_files@.len());
    }
}

proof fn lemma_sessions_bounded(
    sessions: Seq<SessionTrace>,
    weight: spec_fn(Seq<TraceEntry>, int) -> nat,
    n: int,
)
    requires
        0 <= n <= sessions.len(),
        forall|s: Seq<TraceEntry>, i: int|
            0 <= i < s.len() ==> #[trigger] weight(s, i) <= 1 + s[i].action.target_files@.len(),
    ensures
        tally_sessions_upto(sessions, weight, n).total <= sessions_size(sessions, n),
        all_steps(sessions.take(n)).len() <= sessions_size(sessions, n),
        sessions.take(n).filter(|s: SessionTrace| is_unprotected(s)).len() <= sessions_size(
            sessions,
            n,
        ),
    decreases n,
{
    reveal(Seq::filter);
    if n > 0 {
        lemma_sessions_bounded(sessions, weight, n - 1);
        let steps = sessions[n - 1].steps@;
        lemma_steps_bounded(steps, weight, steps.len() as int);
        assert(sessions.take(n).drop_last() =~= sessions.take(n - 1));
        assert(sessions.take(n).last() == sessions[n - 1]);
    } else {
        assert(sessions.take(0) =~= Seq::<SessionTrace>::empty());
    }
}

proof fn lemma_repeats_bounded(before: Seq<Seq<char>>, files: Seq<Seq<char>>, n: int)
    requires
        0 <= n,
    ensures
        repeats(before, files, n) <= n,
    decreases n,
{
    if n > 0 {
        lemma_repeats_bounded(before, files, n - 1);
    }
}

/// Where there are not more than 2³² − 1 steps and file names, everything can be
/// counted.
pub proof fn law_small_is_countable(sessions: Seq<SessionTrace>)
    requires
        sessions_size(sessions, sessions.len() as int) <= u32::MAX,
    ensures
        countable(sessions),
        all_steps(sessions).len() <= u32::MAX,
{
    let n = sessions.len() as int;
    let runs = |s: Seq<TraceEntry>, i: int| run_weight(s, i);
    let again = |s: Seq<TraceEntry>, i: int| repeat_weight(s, i);
    let untested = |s: Seq<TraceEntry>, i: int| edit_weight(s, i, false);
    let tested = |s: Seq<TraceEntry>, i: int| edit_weight(s, i, true);
    assert forall|s: Seq<TraceEntry>, i: int| 0 <= i < s.len() implies #[trigger] again(s, i) <= 1
        + s[i].action.target_files@.len() by {
        let files = text::strings(s[i].action.target_files@);
        lemma_repeats_bounded(written_files(s, i), files, files.len() as int);
    }
    lemma_sessions_bounded(sessions, runs, n);
    lemma_sessions_bounded(sessions, again, n);
    lemma_sessions_bounded(sessions, untested, n);
    lemma_sessions_bounded(sessions, tested, n);
    assert(sessions.take(n) =~= sessions);
    assert forall|name: Seq<char>|
        (#[trigger] name_counts(all_steps(sessions), name)).total <= u32::MAX by {
        all_steps(sessions).lemma_filter_len(|s: TraceEntry| step_name(s) == name);
    }
}

/// Whether there are not more than 2³² − 1 steps and file names in the sessions.
pub fn is_small(sessions: &[SessionTrace]) -> (b: bool)
    ensures
        b <==> sessions_size(sessions@, sessions@.len() as int) <= u32::MAX,
{
    let max: u64 = 0xFFFF_FFFF;
    let mut size: u64 = 0;
    let mut k: usize = 0;
    while k < sessions.len()
        invariant
            k <= sessions.len(),
            max == u32::MAX,
            size <= max,
            size == sessions_size(sessions@, k as int),
        decreases sessions.len() - k,
    {
        let steps = &sessions[k].steps;
        let ghost base = sessions_size(sessions@, k as int);
        let mut i: usize = 0;
        while i < steps.len()
            invariant
                i <= steps.len(),
                k < sessions@.len(),
                steps@ == sessions@[k as int].steps@,
                max == u32::MAX,
                size <= max,
                base == sessions_size(sessions@, k as int),
                size == base + steps_size(steps@, i as int),
            decreases steps.len() - i,
        {
            let files = steps[i].action.target_files.len();
            if files as u64 >= max - size {
                proof {
                    lemma_size_grows(steps@, i + 1, steps@.len() as int);
                    lemma_sessions_size_grows(sessions@, k + 1, sessions@.len() as int);
                }
                return false;
            }
            size += 1 + files as u64;
            i += 1;
        }
        k += 1;
    }
    true
}

proof fn lemma_size_grows(steps: Seq<TraceEntry>, n: int, m: int)
    requires
        n <= m,
    ensures
        steps_size(steps, n) <= steps_size(steps, m),
    decreases m,
{
    if n < m && m > 0 {
        lemma_size_grows(steps, n, m - 1);
    }
}

proof fn lemma_sessions_size_grows(sessions: Seq<SessionTrace>, n: int, m: int)
    requires
        n <= m,
    ensures
        sessions_size(sessions, n) <= sessions_size(sessions, m),
    decreases m,
{
    if n < m && m > 0 {
        lemma_sessions_size_grows(sessions, n, m - 1);
    }
}

}
