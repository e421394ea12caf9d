//! What holds of the consistency checks, said of steps and words.

use vstd::prelude::*;

use crate::config;
use crate::learner::rules as learned;
use crate::text;
use crate::types::Check;
use crate::types::ExecutionContext;
use crate::types::StepAction;
use crate::types::StepSummary;
use crate::verification;
use crate::verification::consistency;
use crate::verification::laws;
use crate::verification::patterns;

verus! {

// ── Lists ────────────────────────────────────────────────────

/// What is kept of a list is what is in it and satisfies the condition.
pub proof fn lemma_filter_member<A>(s: Seq<A>, keep: spec_fn(A) -> bool, x: A)
    ensures
        s.filter(keep).contains(x) <==> s.contains(x) && keep(x),
    decreases s.len(),
{
    reveal(Seq::filter);
    if s.len() > 0 {
        let rest = s.drop_last();
        lemma_filter_member(rest, keep, x);
        if s.contains(x) {
            let i = choose|i: int| 0 <= i < s.len() && s[i] == x;
            if i < rest.len() {
                assert(rest[i] == x);
            }
        }
        if rest.contains(x) {
            let i = choose|i: int| 0 <= i < rest.len() && rest[i] == x;
            assert(s[i] == x);
        }
        if keep(s.last()) {
            let all = rest.filter(keep).push(s.last());
            assert(all[all.len() - 1] == s.last());
            assert(s[s.len() - 1] == s.last());
            if all.contains(x) {
                let i = choose|i: int| 0 <= i < all.len() && all[i] == x;
                if i < rest.filter(keep).len() {
                    assert(rest.filter(keep)[i] == x);
                }
            }
            if rest.filter(keep).contains(x) {
                let i = choose|i: int|
                    0 <= i < rest.filter(keep).len() && rest.filter(keep)[i] == x;
                assert(all[i] == x);
            }
        }
    }
}

/// The places of two or three elements that are kept.
pub proof fn lemma_filter_places<A>(s: Seq<A>, keep: spec_fn(A) -> bool) -> (r: (int, int, int))
    ensures
        s.filter(keep).len() >= 1 ==> 0 <= r.2 < s.len() && keep(s[r.2]),
        s.filter(keep).len() >= 2 ==> 0 <= r.1 < r.2 && keep(s[r.1]),
        s.filter(keep).len() >= 3 ==> 0 <= r.0 < r.1 && keep(s[r.0]),
    decreases s.len(),
{
    reveal(Seq::filter);
    if s.len() == 0 {
        (0, 0, 0)
    } else {
        let t = s.drop_last();
        let r = lemma_filter_places(t, keep);
        if keep(s.last()) {
            (r.1, r.2, s.len() - 1)
        } else {
            r
        }
    }
}

/// Three places that are kept make three elements.
pub proof fn lemma_filter_three<A>(s: Seq<A>, keep: spec_fn(A) -> bool, i: int, j: int, k: int)
    requires
        0 <= i < j < k < s.len(),
        keep(s[i]),
        keep(s[j]),
        keep(s[k]),
    ensures
        s.filter(keep).len() >= 3,
{
    lemma_filter_split(s, keep, k);
    lemma_filter_split(s.take(k), keep, j);
    lemma_filter_split(s.take(k).take(j), keep, i);
}

proof fn lemma_filter_split<A>(s: Seq<A>, keep: spec_fn(A) -> bool, k: int)
    requires
        0 <= k < s.len(),
        keep(s[k]),
    ensures
        s.filter(keep).len() >= s.take(k).filter(keep).len() + 1,
{
    patterns::lemma_filter_next(s, keep, k);
    assert(s =~= s.take(k + 1) + s.skip(k + 1));
    Seq::filter_distributes_over_add(s.take(k + 1), s.skip(k + 1), keep);
}

/// Conditions that agree on the elements keep the same number of two lists.
pub proof fn lemma_filter_alike<A>(
    s: Seq<A>,
    t: Seq<A>,
    keep: spec_fn(A) -> bool,
    other: spec_fn(A) -> bool,
)
    requires
        s.len() == t.len(),
        forall|i: int| 0 <= i < s.len() ==> keep(#[trigger] s[i]) == other(t[i]),
    ensures
        s.filter(keep).len() == t.filter(other).len(),
    decreases s.len(),
{
    reveal(Seq::filter);
    if s.len() > 0 {
        let (a, b) = (s.drop_last(), t.drop_last());
        assert forall|i: int| 0 <= i < a.len() implies keep(#[trigger] a[i]) == other(b[i]) by {
            assert(keep(s[i]) == other(t[i]));
        }
        lemma_filter_alike(a, b, keep, other);
        assert(keep(s[s.len() - 1]) == other(t[t.len() - 1]));
    }
}

// ── Words ────────────────────────────────────────────────────

proof fn lemma_first_word(s: Seq<char>, i: int)
    requires
        0 <= i < s.len(),
        !text::is_space(s[i]),
    ensures
        text::words(s).len() > 0,
    decreases s.len(),
{
    if text::is_space(s[0]) {
        assert(s.skip(1)[i - 1] == s[i]);
        lemma_first_word(s.skip(1), i - 1);
    }
}

/// The text has a character that is no white space.
pub open spec fn says_something(s: Seq<char>) -> bool {
    exists|i: int| 0 <= i < s.len() && !text::is_space(#[trigger] s[i])
}

/// Texts are similar where more than three fifths of the different words of either one
/// occur in the other as well. It does not matter which of the texts comes first.
pub proof fn law_similar_texts(a: Seq<char>, b: Seq<char>)
    ensures
        consistency::similar(a, b) <==> ({
            let of_a = text::words(a).to_set();
            let of_b = text::words(b).to_set();
            &&& of_a.intersect(of_b).len() * 5 > of_a.len() * 3
            &&& of_b.intersect(of_a).len() * 5 > of_b.len() * 3
        }),
        consistency::similar(a, b) == consistency::similar(b, a),
        text::words(a).to_set() == text::words(b).to_set() && says_something(a)
            ==> consistency::similar(a, b),
        (forall|w: Seq<char>| #[trigger]
            text::words(a).contains(w) ==> !text::words(b).contains(w)) ==> !consistency::similar(
            a,
            b,
        ),
{
    let of_a = text::words(a).to_set();
    let of_b = text::words(b).to_set();
    assert(of_a.intersect(of_b) =~= of_b.intersect(of_a));
    vstd::seq_lib::seq_to_set_is_finite(text::words(a));
    vstd::seq_lib::seq_to_set_is_finite(text::words(b));
    if of_a == of_b && says_something(a) {
        let i = choose|i: int| 0 <= i < a.len() && !text::is_space(#[trigger] a[i]);
        lemma_first_word(a, i);
        assert(of_a.intersect(of_b) =~= of_a);
        assert(of_a.contains(text::words(a)[0]));
        assert(of_a.len() > 0) by {
            if of_a.len() == 0 {
                of_a.lemma_len0_is_empty();
            }
        }
    }
    if forall|w: Seq<char>| #[trigger]
        text::words(a).contains(w) ==> !text::words(b).contains(w) {
        assert(of_a.intersect(of_b) =~= Set::empty());
    }
}

// ── Loops ────────────────────────────────────────────────────

/// Step `i` is one of the last five, and does what the action does in similar words.
pub open spec fn is_alike(steps: Seq<StepSummary>, action: StepAction, i: int) -> bool {
    &&& 0 <= i < steps.len()
    &&& steps.len() - 5 <= i
    &&& steps[i].action_type@ == action.action_type@
    &&& consistency::similar(steps[i].description@, action.description@)
}

/// The loop check objects exactly where at least three of the last five steps are of
/// the type of the action and described in similar words. What became of these steps
/// does not matter.
pub proof fn law_loop_check(ctx: ExecutionContext, action: StepAction)
    ensures
        consistency::consistency_checks(ctx, action)[1].checker == "loop_trap"@,
        !consistency::consistency_checks(ctx, action)[1].passed <==> exists|
            i: int,
            j: int,
            k: int,
        |
            i < j < k && #[trigger] is_alike(ctx.previous_steps@, action, i) && #[trigger] is_alike(
                ctx.previous_steps@,
                action,
                j,
            ) && #[trigger] is_alike(ctx.previous_steps@, action, k),
        consistency::consistency_checks(ctx, action)[1].passed ==> consistency::consistency_checks(
            ctx,
            action,
        )[1].message is None,
{
    let steps = ctx.previous_steps@;
    let window = consistency::recent(steps, 5);
    let keep = |s: StepSummary| consistency::repeats(s, action);
    let first = steps.len() - window.len();
    if window.filter(keep).len() >= 3 {
        let (i, j, k) = lemma_filter_places(window, keep);
        assert(is_alike(steps, action, first + i));
        assert(is_alike(steps, action, first + j));
        assert(is_alike(steps, action, first + k));
    }
    if exists|i: int, j: int, k: int|
        i < j < k && #[trigger] is_alike(steps, action, i) && #[trigger] is_alike(steps, action, j)
            && #[trigger] is_alike(steps, action, k) {
        let (i, j, k) = choose|i: int, j: int, k: int|
            i < j < k && #[trigger] is_alike(steps, action, i) && #[trigger] is_alike(
                steps,
                action,
                j,
            ) && #[trigger] is_alike(steps, action, k);
        lemma_filter_three(window, keep, i - first, j - first, k - first);
    }
}

/// What the loop check says counts the steps that are alike and the action itself.
pub proof fn law_loop_message(ctx: ExecutionContext, action: StepAction, older: Seq<StepSummary>, last: Seq<
    StepSummary,
>)
    requires
        ctx.previous_steps@ == older + last,
        last.len() == 5 || (last.len() < 5 && older.len() == 0),
        !consistency::consistency_checks(ctx, action)[1].passed,
    ensures
        consistency::consistency_checks(ctx, action)[1].message == Some(
            "Loop detected: similar action repeated "@ + text::decimal(
                last.filter(
                    |s: StepSummary|
                        s.action_type@ == action.action_type@ && consistency::similar(
                            s.description@,
                            action.description@,
                        ),
                ).len() + 1,
            ) + " times in last 5 steps"@,
        ),
{
    let steps = ctx.previous_steps@;
    assert(consistency::recent(steps, 5) =~= last);
    let keep = |s: StepSummary| consistency::repeats(s, action);
    let same = |s: StepSummary|
        s.action_type@ == action.action_type@ && consistency::similar(
            s.description@,
            action.description@,
        );
    lemma_filter_alike(last, last, keep, same);
}

/// Where consistency is checked, an action that three of the last five steps tried
/// already, with the very same description, fails, whatever became of these steps.
pub proof fn law_retrying_fails(
    policy: config::Policy,
    threats: Seq<patterns::Threat>,
    lessons: Seq<learned::Advice>,
    action: StepAction,
    ctx: ExecutionContext,
    i: int,
    j: int,
    k: int,
)
    requires
        policy.consistency_enabled,
        says_something(action.description@),
        0 <= i < j < k < ctx.previous_steps@.len(),
        ctx.previous_steps@.len() - 5 <= i,
        ctx.previous_steps@[i].action_type@ == action.action_type@,
        ctx.previous_steps@[j].action_type@ == action.action_type@,
        ctx.previous_steps@[k].action_type@ == action.action_type@,
        ctx.previous_steps@[i].description@ == action.description@,
        ctx.previous_steps@[j].description@ == action.description@,
        ctx.previous_steps@[k].description@ == action.description@,
    ensures
        verification::verdict(
            verification::all_checks(policy, threats, lessons, action, ctx),
        ) is Fail,
{
    let steps = ctx.previous_steps@;
    law_similar_texts(action.description@, action.description@);
    assert(is_alike(steps, action, i) && is_alike(steps, action, j) && is_alike(steps, action, k));
    law_loop_check(ctx, action);
    lemma_consistency_fails(policy, threats, lessons, action, ctx, 1);
}

/// An objection of a consistency check fails the step.
proof fn lemma_consistency_fails(
    policy: config::Policy,
    threats: Seq<patterns::Threat>,
    lessons: Seq<learned::Advice>,
    action: StepAction,
    ctx: ExecutionContext,
    k: int,
)
    requires
        policy.consistency_enabled,
        0 <= k < 3,
        !consistency::consistency_checks(ctx, action)[k].passed,
    ensures
        verification::verdict(
            verification::all_checks(policy, threats, lessons, action, ctx),
        ) is Fail,
{
    let checks = verification::all_checks(policy, threats, lessons, action, ctx);
    let at = if policy.rules_enabled {
        5int
    } else {
        0
    };
    assert(checks[at + k] == consistency::consistency_checks(ctx, action)[k]);
    laws::law_decision(checks);
}

// ── Contradictions ───────────────────────────────────────────

/// The description names the path: a word with a slash or a dot that is no web
/// address.
pub open spec fn speaks_of(description: Seq<char>, path: Seq<char>) -> bool {
    &&& text::words(description).contains(path)
    &&& path.contains('/') || path.contains('.')
    &&& !"http"@.is_prefix_of(path)
}

/// Step `i` is one of the last five and names a path that the action names too, where
/// one of them writes and the other one deletes.
pub open spec fn clashes(steps: Seq<StepSummary>, action: StepAction, i: int) -> bool {
    &&& 0 <= i < steps.len()
    &&& steps.len() - 5 <= i
    &&& (steps[i].action_type@ is Delete && action.action_type@ is Write) || (
    steps[i].action_type@ is Write && action.action_type@ is Delete)
    &&& exists|path: Seq<char>| #[trigger]
        speaks_of(steps[i].description@, path) && speaks_of(action.description@, path)
}

proof fn lemma_paths_in(s: Seq<char>, path: Seq<char>)
    ensures
        consistency::paths_in(s).contains(path) <==> speaks_of(s, path),
{
    lemma_filter_member(text::words(s), |w: Seq<char>| consistency::is_path_like(w), path);
}

proof fn lemma_shared_path(a: Seq<char>, b: Seq<char>)
    ensures
        consistency::share(consistency::paths_in(a), consistency::paths_in(b)) <==> exists|
            path: Seq<char>,
        | #[trigger] speaks_of(a, path) && speaks_of(b, path),
{
    let (x, y) = (consistency::paths_in(a), consistency::paths_in(b));
    if consistency::share(x, y) {
        let i = choose|i: int| 0 <= i < x.len() && y.contains(#[trigger] x[i]);
        assert(x.contains(x[i]));
        lemma_paths_in(a, x[i]);
        lemma_paths_in(b, x[i]);
        assert(speaks_of(a, x[i]) && speaks_of(b, x[i]));
    }
    if exists|path: Seq<char>| #[trigger] speaks_of(a, path) && speaks_of(b, path) {
        let path = choose|path: Seq<char>| #[trigger] speaks_of(a, path) && speaks_of(b, path);
        lemma_paths_in(a, path);
        lemma_paths_in(b, path);
        let i = choose|i: int| 0 <= i < x.len() && x[i] == path;
        assert(y.contains(x[i]));
    }
}

proof fn lemma_no_contradiction(steps: Seq<StepSummary>, action: StepAction)
    requires
        forall|i: int|
            0 <= i < steps.len() ==> consistency::step_contradiction(
                #[trigger] steps[i],
                action,
            ) is None,
    ensures
        consistency::newest_contradiction(steps, action) is None,
    decreases steps.len(),
{
    if steps.len() > 0 {
        assert(consistency::step_contradiction(steps[steps.len() - 1], action) is None);
        assert forall|i: int| 0 <= i < steps.drop_last().len() implies consistency::step_contradiction(
            #[trigger] steps.drop_last()[i],
            action,
        ) is None by {
            assert(steps.drop_last()[i] == steps[i]);
        }
        lemma_no_contradiction(steps.drop_last(), action);
    }
}

proof fn lemma_newest_contradiction(steps: Seq<StepSummary>, action: StepAction, i: int)
    requires
        0 <= i < steps.len(),
        consistency::step_contradiction(steps[i], action) is Some,
        forall|j: int|
            i < j < steps.len() ==> consistency::step_contradiction(
                #[trigger] steps[j],
                action,
            ) is None,
    ensures
        consistency::newest_contradiction(steps, action) == consistency::step_contradiction(
            steps[i],
            action,
        ),
    decreases steps.len(),
{
    let n = steps.len() - 1;
    if i < n {
        assert(consistency::step_contradiction(steps[n], action) is None);
        assert forall|j: int| i < j < steps.drop_last().len() implies consistency::step_contradiction(
            #[trigger] steps.drop_last()[j],
            action,
        ) is None by {
            assert(steps.drop_last()[j] == steps[j]);
        }
        lemma_newest_contradiction(steps.drop_last(), action, i);
    }
}

/// Where anything contradicts the action, something does last.
proof fn lemma_some_is_newest(steps: Seq<StepSummary>, action: StepAction, i: int) -> (k: int)
    requires
        0 <= i < steps.len(),
        consistency::step_contradiction(steps[i], action) is Some,
    ensures
        i <= k < steps.len(),
        consistency::step_contradiction(steps[k], action) is Some,
        forall|j: int|
            k < j < steps.len() ==> consistency::step_contradiction(
                #[trigger] steps[j],
                action,
            ) is None,
    decreases steps.len() - i,
{
    if exists|j: int|
        i < j < steps.len() && consistency::step_contradiction(#[trigger] steps[j], action) is Some {
        let j = choose|j: int|
            i < j < steps.len() && consistency::step_contradiction(
                #[trigger] steps[j],
                action,
            ) is Some;
        lemma_some_is_newest(steps, action, j)
    } else {
        i
    }
}

/// The contradiction check objects exactly where the action writes a path that one of
/// the last five steps deleted, or deletes one that such a step wrote. It names the
/// newest of these steps.
pub proof fn law_contradiction_check(ctx: ExecutionContext, action: StepAction)
    ensures
        consistency::consistency_checks(ctx, action)[0].checker == "contradictions"@,
        !consistency::consistency_checks(ctx, action)[0].passed <==> exists|i: int| #[trigger]
            clashes(ctx.previous_steps@, action, i),
        consistency::consistency_checks(ctx, action)[0].passed ==> consistency::consistency_checks(
            ctx,
            action,
        )[0].message is None,
        forall|i: int|
            #[trigger] clashes(ctx.previous_steps@, action, i) && (forall|j: int|
                i < j ==> !#[trigger] clashes(ctx.previous_steps@, action, j))
                ==> consistency::consistency_checks(ctx, action)[0].message == Some(
                if action.action_type@ is Write {
                    "Contradictory: writing to file that was deleted in step "@
                } else {
                    "Suspicious: deleting file just written in step "@
                } + text::decimal(ctx.previous_steps@[i].step_number as nat),
            ),
{
    let steps = ctx.previous_steps@;
    let window = consistency::recent(steps, 5);
    let first = steps.len() - window.len();
    assert(forall|j: int| 0 <= j < window.len() ==> #[trigger] window[j] == steps[first + j]);
    assert forall|i: int| first <= i < steps.len() implies #[trigger] clashes(steps, action, i)
        == consistency::step_contradiction(window[i - first], action) is Some by {
        assert(window[i - first] == steps[i]);
        lemma_shared_path(steps[i].description@, action.description@);
    }
    if exists|i: int| #[trigger] clashes(steps, action, i) {
        let i = choose|i: int| #[trigger] clashes(steps, action, i);
        let k = lemma_some_is_newest(window, action, i - first);
        lemma_newest_contradiction(window, action, k);
    } else {
        assert forall|j: int| 0 <= j < window.len() implies consistency::step_contradiction(
            #[trigger] window[j],
            action,
        ) is None by {
            assert(!clashes(steps, action, first + j));
        }
        lemma_no_contradiction(window, action);
    }
    assert forall|i: int|
        #[trigger] clashes(steps, action, i) && (forall|j: int|
            i < j ==> !#[trigger] clashes(steps, action, j)) implies consistency::newest_contradiction(
        window,
        action,
    ) == consistency::step_contradiction(steps[i], action) by {
        assert(window[i - first] == steps[i]);
        assert forall|j: int| i - first < j < window.len() implies consistency::step_contradiction(
            #[trigger] window[j],
            action,
        ) is None by {
            assert(!clashes(steps, action, first + j));
        }
        lemma_newest_contradiction(window, action, i - first);
    }
}

/// Where consistency is checked, a step that contradicts one of the last five fails.
pub proof fn law_contradiction_fails(
    policy: config::Policy,
    threats: Seq<patterns::Threat>,
    lessons: Seq<learned::Advice>,
    action: StepAction,
    ctx: ExecutionContext,
    i: int,
)
    requires
        policy.consistency_enabled,
        clashes(ctx.previous_steps@, action, i),
    ensures
        verification::verdict(
            verification::all_checks(policy, threats, lessons, action, ctx),
        ) is Fail,
{
    law_contradiction_check(ctx, action);
    lemma_consistency_fails(policy, threats, lessons, action, ctx, 0);
}

// ── Plan ─────────────────────────────────────────────────────

/// The keyword stands in the text: it is a word of more than three bytes without the
/// punctuation around it.
pub open spec fn has_keyword(s: Seq<char>, keyword: Seq<char>) -> bool {
    exists|word: Seq<char>| #[trigger]
        text::words(s).contains(word) && vstd::utf8::encode_utf8(word).len() > 3 && keyword
            == text::trim_punctuation(word)
}

proof fn lemma_keywords(s: Seq<char>, keyword: Seq<char>)
    ensures
        consistency::keywords(s).contains(keyword) <==> has_keyword(s, keyword),
{
    let keep = |w: Seq<char>| consistency::is_long(w);
    let strip = |w: Seq<char>| text::trim_punctuation(w);
    let long = text::words(s).filter(keep);
    let all = long.map_values(strip);
    if all.contains(keyword) {
        let i = choose|i: int| 0 <= i < all.len() && all[i] == keyword;
        assert(long.contains(long[i]));
        lemma_filter_member(text::words(s), keep, long[i]);
        assert(text::words(s).contains(long[i]));
    }
    if has_keyword(s, keyword) {
        let word = choose|word: Seq<char>| #[trigger]
            text::words(s).contains(word) && vstd::utf8::encode_utf8(word).len() > 3 && keyword
                == text::trim_punctuation(word);
        lemma_filter_member(text::words(s), keep, word);
        let i = choose|i: int| 0 <= i < long.len() && long[i] == word;
        assert(all[i] == keyword);
    }
}

/// The plan check warns exactly where there is a plan, the plan and the description
/// both have keywords, and none of them is the same. It never objects.
pub proof fn law_plan_check(ctx: ExecutionContext, action: StepAction)
    ensures
        consistency::consistency_checks(ctx, action).len() == 3,
        consistency::consistency_checks(ctx, action)[2].checker == "plan_deviation"@,
        consistency::consistency_checks(ctx, action)[2].passed,
        consistency::consistency_checks(ctx, action)[2].message is Some <==> (
        ctx.plan matches Some(plan) && (exists|k: Seq<char>| #[trigger] has_keyword(plan@, k))
            && (exists|k: Seq<char>| #[trigger] has_keyword(action.description@, k)) && (forall|
            k: Seq<char>,
        | #[trigger]
            has_keyword(plan@, k) ==> !has_keyword(action.description@, k))),
        consistency::consistency_checks(ctx, action)[2].message matches Some(m) ==> m
            == "Action description shares no keywords with the stated plan — possible drift"@,
{
    if let Some(plan) = ctx.plan {
        let x = consistency::keywords(plan@);
        let y = consistency::keywords(action.description@);
        assert forall|k: Seq<char>| #[trigger] has_keyword(plan@, k) == x.contains(k) by {
            lemma_keywords(plan@, k);
        }
        assert forall|k: Seq<char>| #[trigger] has_keyword(action.description@, k) == y.contains(
            k,
        ) by {
            lemma_keywords(action.description@, k);
        }
        if x.len() > 0 {
            assert(x.contains(x[0]));
            assert(has_keyword(plan@, x[0]));
        }
        if y.len() > 0 {
            assert(y.contains(y[0]));
            assert(has_keyword(action.description@, y[0]));
        }
        if consistency::share(x, y) {
            let i = choose|i: int| 0 <= i < x.len() && y.contains(#[trigger] x[i]);
            assert(x.contains(x[i]));
            assert(has_keyword(plan@, x[i]) && has_keyword(action.description@, x[i]));
        } else {
            assert forall|k: Seq<char>| #[trigger] has_keyword(plan@, k) implies !has_keyword(
                action.description@,
                k,
            ) by {
                if x.contains(k) && y.contains(k) {
                    let i = choose|i: int| 0 <= i < x.len() && x[i] == k;
                    assert(y.contains(x[i]));
                }
            }
        }
    }
}

// ── What the checks depend on ────────────────────────────────

/// Steps before the last five do not matter to the consistency checks.
pub proof fn law_older_steps_do_not_matter(
    ctx: ExecutionContext,
    longer: ExecutionContext,
    older: Seq<StepSummary>,
    action: StepAction,
)
    requires
        ctx.previous_steps@.len() >= 5,
        longer.previous_steps@ == older + ctx.previous_steps@,
        longer.plan == ctx.plan,
    ensures
        consistency::consistency_checks(longer, action) == consistency::consistency_checks(
            ctx,
            action,
        ),
{
    assert(consistency::recent(longer.previous_steps@, 5) =~= consistency::recent(
        ctx.previous_steps@,
        5,
    ));
}

/// The histories tell of the same steps, but for what became of them.
pub open spec fn same_but_results(a: Seq<StepSummary>, b: Seq<StepSummary>) -> bool {
    &&& a.len() == b.len()
    &&& forall|i: int|
        0 <= i < a.len() ==> (#[trigger] a[i]).step_number == b[i].step_number && a[i].action_type@
            == b[i].action_type@ && a[i].description@ == b[i].description@
}

proof fn lemma_contradictions_alike(a: Seq<StepSummary>, b: Seq<StepSummary>, action: StepAction)
    requires
        same_but_results(a, b),
    ensures
        consistency::newest_contradiction(a, action) == consistency::newest_contradiction(
            b,
            action,
        ),
    decreases a.len(),
{
    if a.len() > 0 {
        let n = a.len() - 1;
        assert(a[n].description@ == b[n].description@);
        assert forall|i: int| 0 <= i < n implies (#[trigger] a.drop_last()[i]).step_number
            == b.drop_last()[i].step_number && a.drop_last()[i].action_type@
            == b.drop_last()[i].action_type@ && a.drop_last()[i].description@
            == b.drop_last()[i].description@ by {
            assert(a[i].description@ == b[i].description@);
        }
        lemma_contradictions_alike(a.drop_last(), b.drop_last(), action);
    }
}

proof fn lemma_trailing_alike(
    a: Seq<StepSummary>,
    b: Seq<StepSummary>,
    pred: spec_fn(StepSummary) -> bool,
)
    requires
        a.len() == b.len(),
        forall|i: int| 0 <= i < a.len() ==> pred(#[trigger] a[i]) == pred(b[i]),
    ensures
        learned::trailing(a, pred) == learned::trailing(b, pred),
    decreases a.len(),
{
    if a.len() > 0 {
        let n = a.len() - 1;
        assert(pred(a[n]) == pred(b[n]));
        assert forall|i: int| 0 <= i < n implies pred(#[trigger] a.drop_last()[i]) == pred(
            b.drop_last()[i],
        ) by {
            assert(pred(a[i]) == pred(b[i]));
        }
        lemma_trailing_alike(a.drop_last(), b.drop_last(), pred);
    }
}

proof fn lemma_edit_advice_alike(
    description: Seq<char>,
    a: Seq<StepSummary>,
    b: Seq<StepSummary>,
    files: Seq<Seq<char>>,
    max: u32,
)
    requires
        same_but_results(a, b),
    ensures
        learned::edit_advice(description, a, files, max) == learned::edit_advice(
            description,
            b,
            files,
            max,
        ),
    decreases files.len(),
{
    if files.len() > 0 {
        let file = files[0];
        let keep = |s: StepSummary|
            s.action_type@ is Write && text::contains(s.description@, file);
        lemma_filter_alike(a, b, keep, keep);
        lemma_edit_advice_alike(description, a, b, files.skip(1), max);
    }
}

proof fn lemma_advice_alike(
    rule: learned::Advice,
    action: StepAction,
    ctx: ExecutionContext,
    other: ExecutionContext,
)
    requires
        same_but_results(ctx.previous_steps@, other.previous_steps@),
    ensures
        learned::advice_check(rule, action, ctx) == learned::advice_check(rule, action, other),
{
    let (a, b) = (ctx.previous_steps@, other.previous_steps@);
    lemma_trailing_alike(a, b, |s: StepSummary| s.action_type@ is Write);
    lemma_trailing_alike(
        a,
        b,
        |s: StepSummary| !text::contains(s.description@, "checkpoint"@),
    );
    if let learned::AdviceCheck::RepeatedFileEditLimit { max } = rule.check {
        lemma_edit_advice_alike(
            rule.description,
            a,
            b,
            text::strings(action.target_files@),
            max,
        );
    }
    assert(learned::tested_recently(a) == learned::tested_recently(b)) by {
        if learned::tested_recently(a) {
            let i = choose|i: int|
                0 <= i < a.len() && a.len() - 3 <= i && learned::runs_test(
                    (#[trigger] a[i]).action_type@,
                    a[i].description@,
                );
            assert(learned::runs_test(b[i].action_type@, b[i].description@));
        }
        if learned::tested_recently(b) {
            let i = choose|i: int|
                0 <= i < b.len() && b.len() - 3 <= i && learned::runs_test(
                    (#[trigger] b[i]).action_type@,
                    b[i].description@,
                );
            assert(a[i].description@ == b[i].description@);
            assert(learned::runs_test(a[i].action_type@, a[i].description@));
        }
    }
}

/// Verification does not ask what became of the previous steps: two histories that
/// differ only in the results get the same checks.
pub proof fn law_results_do_not_matter(
    policy: config::Policy,
    threats: Seq<patterns::Threat>,
    lessons: Seq<learned::Advice>,
    action: StepAction,
    ctx: ExecutionContext,
    other: ExecutionContext,
)
    requires
        same_but_results(ctx.previous_steps@, other.previous_steps@),
        ctx.plan == other.plan,
    ensures
        verification::all_checks(policy, threats, lessons, action, ctx)
            == verification::all_checks(policy, threats, lessons, action, other),
{
    let (a, b) = (ctx.previous_steps@, other.previous_steps@);
    let (x, y) = (consistency::recent(a, 5), consistency::recent(b, 5));
    let first = a.len() - x.len();
    assert forall|i: int| 0 <= i < x.len() implies (#[trigger] x[i]).step_number
        == y[i].step_number && x[i].action_type@ == y[i].action_type@ && x[i].description@
        == y[i].description@ by {
        assert(x[i] == a[first + i]);
        assert(y[i] == b[first + i]);
    }
    lemma_contradictions_alike(x, y, action);
    let keep = |s: StepSummary| consistency::repeats(s, action);
    lemma_filter_alike(x, y, keep, keep);
    assert forall|i: int| 0 <= i < lessons.len() implies learned::advice_check(
        #[trigger] lessons[i],
        action,
        ctx,
    ) == learned::advice_check(lessons[i], action, other) by {
        lemma_advice_alike(lessons[i], action, ctx, other);
    }
    assert(lessons.map_values(|l: learned::Advice| learned::advice_check(l, action, ctx))
        =~= lessons.map_values(|l: learned::Advice| learned::advice_check(l, action, other)));
    assert(consistency::consistency_checks(ctx, action) =~= consistency::consistency_checks(
        other,
        action,
    ));
}

/// The consistency checks come in this order, under these names.
pub proof fn law_consistency_check_names(ctx: ExecutionContext, action: StepAction)
    ensures
        consistency::consistency_checks(ctx, action).map_values(|c: Check| c.checker) == seq![
            "contradictions"@,
            "loop_trap"@,
            "plan_deviation"@,
        ],
{
    law_contradiction_check(ctx, action);
    law_loop_check(ctx, action);
    law_plan_check(ctx, action);
    assert(consistency::consistency_checks(ctx, action).map_values(|c: Check| c.checker) =~= seq![
        "contradictions"@,
        "loop_trap"@,
        "plan_deviation"@,
    ]);
}

}
