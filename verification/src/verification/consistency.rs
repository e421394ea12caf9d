//! Consistency of a step with the steps before it and with the plan.

use vstd::prelude::*;

use crate::text;
use crate::types::ActionType;
use crate::types::Check;
use crate::types::CheckResult;
use crate::types::ExecutionContext;
use crate::types::StepAction;
use crate::types::StepSummary;
use crate::verification::patterns;
use crate::verification::rules;

verus! {

// ── Descriptions ─────────────────────────────────────────────

/// The word looks like a path: it has a slash or a dot and is no web address.
pub open spec fn is_path_like(word: Seq<char>) -> bool {
    (word.contains('/') || word.contains('.')) && !"http"@.is_prefix_of(word)
}

/// The words of a text that look like paths.
pub open spec fn paths_in(s: Seq<char>) -> Seq<Seq<char>> {
    text::words(s).filter(|w: Seq<char>| is_path_like(w))
}

/// The lists have an element in common.
pub open spec fn share(a: Seq<Seq<char>>, b: Seq<Seq<char>>) -> bool {
    exists|i: int| 0 <= i < a.len() && b.contains(#[trigger] a[i])
}

/// More than 60% of the words of the text that has more of them occur in both
/// texts. Repeated words count once.
pub open spec fn similar(a: Seq<char>, b: Seq<char>) -> bool {
    let words_a = text::words(a).to_set();
    let words_b = text::words(b).to_set();
    let total = if words_a.len() >= words_b.len() {
        words_a.len()
    } else {
        words_b.len()
    };
    5 * words_a.intersect(words_b).len() > 3 * total
}

/// The word counts as a keyword: it takes more than three bytes.
pub open spec fn is_long(word: Seq<char>) -> bool {
    vstd::utf8::encode_utf8(word).len() > 3
}

/// The long words of a text without punctuation around them.
pub open spec fn keywords(s: Seq<char>) -> Seq<Seq<char>> {
    text::words(s).filter(|w: Seq<char>| is_long(w)).map_values(
        |w: Seq<char>| text::trim_punctuation(w),
    )
}

/// Whether the lists have an element in common.
pub fn any_shared(a: &Vec<&str>, b: &Vec<&str>) -> (r: bool)
    ensures
        r == share(text::texts(a@), text::texts(b@)),
{
    let mut i: usize = 0;
    while i < a.len()
        invariant
            i <= a.len(),
            forall|j: int|
                0 <= j < i ==> !text::texts(b@).contains(#[trigger] text::texts(a@)[j]),
        decreases a.len() - i,
    {
        assert(text::texts(a@)[i as int] == a@[i as int]@);
        if text::any_is(b, a[i]) {
            return true;
        }
        i += 1;
    }
    false
}

/// The words of a description that look like paths.
pub fn extract_paths<'a>(text: &'a str) -> (r: Vec<&'a str>)
    ensures
        text::texts(r@) == paths_in(text@),
{
    let words = text::split_words(text);
    let ghost all = text::words(text@);
    let ghost keep = |w: Seq<char>| is_path_like(w);
    let mut out: Vec<&'a str> = Vec::new();
    let mut i: usize = 0;
    proof {
        reveal(Seq::filter);
        assert(all.take(0) =~= Seq::<Seq<char>>::empty());
        assert(text::texts(out@) =~= Seq::<Seq<char>>::empty());
    }
    while i < words.len()
        invariant
            i <= words.len(),
            text::texts(words@) == all,
            keep == (|w: Seq<char>| is_path_like(w)),
            text::texts(out@) == all.take(i as int).filter(keep),
        decreases words.len() - i,
    {
        let w = words[i];
        proof {
            assert(all[i as int] == w@);
            patterns::lemma_filter_next(all, keep, i as int);
        }
        let ghost before = out@;
        if (text::has_char(w, '/') || text::has_char(w, '.')) && !text::has_prefix(w, "http") {
            out.push(w);
            assert(text::texts(out@) =~= text::texts(before) + seq![w@]);
        } else {
            assert(text::texts(out@) =~= text::texts(out@) + Seq::<Seq<char>>::empty());
        }
        i += 1;
    }
    assert(all.take(i as int) =~= all);
    out
}

/// Whether two descriptions name a common path.
pub fn has_file_overlap_from_desc(desc_a: &str, desc_b: &str) -> (r: bool)
    ensures
        r == share(paths_in(desc_a@), paths_in(desc_b@)),
{
    let files_a = extract_paths(desc_a);
    let files_b = extract_paths(desc_b);
    any_shared(&files_a, &files_b)
}

/// Whether two descriptions are similar by the words they have in common.
pub fn similar_descriptions(a: &str, b: &str) -> (r: bool)
    ensures
        r == similar(a@, b@),
{
    let words_a = text::distinct(&text::split_words(a));
    let words_b = text::distinct(&text::split_words(b));
    proof {
        text::texts(words_a@).unique_seq_to_set();
        text::texts(words_b@).unique_seq_to_set();
    }
    let total: usize = if words_a.len() >= words_b.len() {
        words_a.len()
    } else {
        words_b.len()
    };
    let overlap: usize = text::common_count(&words_a, &words_b);
    overlap as u128 * 5 > total as u128 * 3
}

/// The long words of a description without punctuation around them.
pub fn keywords_of<'a>(text: &'a str) -> (r: Vec<&'a str>)
    ensures
        text::texts(r@) == keywords(text@),
{
    let words = text::split_words(text);
    let ghost all = text::words(text@);
    let ghost keep = |w: Seq<char>| is_long(w);
    let ghost strip = |w: Seq<char>| text::trim_punctuation(w);
    let mut out: Vec<&'a str> = Vec::new();
    let mut i: usize = 0;
    proof {
        reveal(Seq::filter);
        assert(all.take(0) =~= Seq::<Seq<char>>::empty());
        assert(text::texts(out@) =~= Seq::<Seq<char>>::empty().map_values(strip));
    }
    while i < words.len()
        invariant
            i <= words.len(),
            text::texts(words@) == all,
            keep == (|w: Seq<char>| is_long(w)),
            strip == (|w: Seq<char>| text::trim_punctuation(w)),
            text::texts(out@) == all.take(i as int).filter(keep).map_values(strip),
        decreases words.len() - i,
    {
        let w = words[i];
        let ghost kept = all.take(i as int).filter(keep);
        proof {
            assert(all[i as int] == w@);
            patterns::lemma_filter_next(all, keep, i as int);
        }
        let ghost before = out@;
        if w.as_bytes().len() > 3 {
            let trimmed = text::trim_to_alphanumeric(w);
            out.push(trimmed);
            assert(text::texts(out@) =~= text::texts(before).push(trimmed@));
            assert((kept + seq![w@]).map_values(strip) =~= kept.map_values(strip).push(trimmed@));
        } else {
            assert(kept + Seq::<Seq<char>>::empty() =~= kept);
        }
        i += 1;
    }
    assert(all.take(i as int) =~= all);
    out
}

// ── Checks ───────────────────────────────────────────────────

/// The last `n` steps.
pub open spec fn recent(steps: Seq<StepSummary>, n: int) -> Seq<StepSummary> {
    if steps.len() > n {
        steps.skip(steps.len() - n)
    } else {
        steps
    }
}

/// What the step `prev` says against the action: it deleted a file that is written
/// now, or wrote one that is deleted now.
pub open spec fn step_contradiction(prev: StepSummary, action: StepAction) -> Option<Seq<char>> {
    if !share(paths_in(prev.description@), paths_in(action.description@)) {
        None
    } else if prev.action_type@ is Delete && action.action_type@ is Write {
        Some(
            "Contradictory: writing to file that was deleted in step "@ + text::decimal(
                prev.step_number as nat,
            ),
        )
    } else if prev.action_type@ is Write && action.action_type@ is Delete {
        Some(
            "Suspicious: deleting file just written in step "@ + text::decimal(
                prev.step_number as nat,
            ),
        )
    } else {
        None
    }
}

/// What the steps say against the action: the objection of the newest step that
/// has one.
pub open spec fn newest_contradiction(steps: Seq<StepSummary>, action: StepAction) -> Option<
    Seq<char>,
>
    decreases steps.len(),
{
    if steps.len() == 0 {
        None
    } else {
        match step_contradiction(steps.last(), action) {
            Some(message) => Some(message),
            None => newest_contradiction(steps.drop_last(), action),
        }
    }
}

/// The step is of the type of the action and described in similar words.
pub open spec fn repeats(step: StepSummary, action: StepAction) -> bool {
    step.action_type@ == action.action_type@ && similar(step.description@, action.description@)
}

/// How many of the last five steps the action repeats.
pub open spec fn repetitions(steps: Seq<StepSummary>, action: StepAction) -> nat {
    recent(steps, 5).filter(|s: StepSummary| repeats(s, action)).len()
}

/// What `loop_trap` says of an action that repeats so many of the last five steps.
pub open spec fn loop_objection(count: nat) -> Option<Seq<char>> {
    if count >= 3 {
        Some(
            "Loop detected: similar action repeated "@ + text::decimal(count + 1)
                + " times in last 5 steps"@,
        )
    } else {
        None
    }
}

/// What `plan_deviation` says when the plan and the action have these keywords.
pub open spec fn deviation_check(plan: Seq<Seq<char>>, action: Seq<Seq<char>>) -> Check {
    if plan.len() > 0 && action.len() > 0 && !share(plan, action) {
        Check::warned(
            "plan_deviation"@,
            "Action description shares no keywords with the stated plan — possible drift"@,
        )
    } else {
        Check::silent("plan_deviation"@)
    }
}

/// What `plan_deviation` says of a description under a plan.
pub open spec fn plan_check(plan: Option<Seq<char>>, description: Seq<char>) -> Check {
    match plan {
        Some(p) => deviation_check(keywords(p), keywords(description)),
        None => Check::silent("plan_deviation"@),
    }
}

/// The consistency checks of an action, in their order.
pub open spec fn consistency_checks(ctx: ExecutionContext, action: StepAction) -> Seq<Check> {
    seq![
        rules::failing_check(
            "contradictions"@,
            newest_contradiction(recent(ctx.previous_steps@, 5), action),
        ),
        rules::failing_check(
            "loop_trap"@,
            loop_objection(repetitions(ctx.previous_steps@, action)),
        ),
        plan_check(text::opt_text(ctx.plan), action.description@),
    ]
}

/// The `plan_deviation` check when the plan and the action have these keywords.
pub fn deviation(plan: &Vec<&str>, action: &Vec<&str>) -> (r: CheckResult)
    ensures
        r@ == deviation_check(text::texts(plan@), text::texts(action@)),
{
    if plan.len() > 0 && action.len() > 0 && !any_shared(plan, action) {
        return CheckResult::warned(
            "plan_deviation",
            "Action description shares no keywords with the stated plan — possible drift".to_string(),
        );
    }
    CheckResult::silent("plan_deviation")
}

/// Checks a step for logical consistency with the steps before it.
#[derive(Debug, Clone, Copy)]
pub struct ConsistencyChecker;

impl ConsistencyChecker {
    pub fn new() -> (r: ConsistencyChecker)
        ensures
            r == ConsistencyChecker,
    {
        ConsistencyChecker
    }

    /// Runs all consistency checks against a step action.
    pub fn check(&self, action: &StepAction, ctx: &ExecutionContext) -> (r: Vec<CheckResult>)
        ensures
            crate::types::checks(r@) == consistency_checks(*ctx, *action),
    {
        let mut results: Vec<CheckResult> = Vec::new();
        results.push(self.check_contradictions(action, ctx));
        results.push(self.check_loop_trap(action, ctx));
        results.push(self.check_plan_deviation(action, ctx));
        assert(crate::types::checks(results@) =~= consistency_checks(*ctx, *action));
        results
    }

    /// Finds contradictory actions, such as writing a file that was just deleted.
    fn check_contradictions(&self, action: &StepAction, ctx: &ExecutionContext) -> (r: CheckResult)
        ensures
            r@ == rules::failing_check(
                "contradictions"@,
                newest_contradiction(recent(ctx.previous_steps@, 5), *action),
            ),
    {
        let steps = &ctx.previous_steps;
        let n = steps.len();
        let first: usize = if n > 5 {
            n - 5
        } else {
            0
        };
        let ghost window = recent(steps@, 5);
        let mut i: usize = n;
        assert(window.take(n - first) =~= window);
        while i > first
            invariant
                first <= i <= n,
                steps == &ctx.previous_steps,
                n == steps@.len(),
                window == recent(ctx.previous_steps@, 5),
                window == steps@.skip(first as int),
                newest_contradiction(window, *action) == newest_contradiction(
                    window.take(i - first),
                    *action,
                ),
            decreases i,
        {
            i -= 1;
            let prev = &steps[i];
            assert(window.take(i + 1 - first).last() == *prev);
            assert(window.take(i + 1 - first).drop_last() =~= window.take(i - first));
            let undoes = matches!(prev.action_type, ActionType::Delete) && matches!(
                action.action_type,
                ActionType::Write
            );
            let discards = matches!(prev.action_type, ActionType::Write) && matches!(
                action.action_type,
                ActionType::Delete
            );
            if undoes || discards {
                if has_file_overlap_from_desc(
                    prev.description.as_str(),
                    action.description.as_str(),
                ) {
                    let mut m = if undoes {
                        "Contradictory: writing to file that was deleted in step ".to_string()
                    } else {
                        "Suspicious: deleting file just written in step ".to_string()
                    };
                    m.append(text::to_decimal(prev.step_number as u64).as_str());
                    return CheckResult::failed("contradictions", m);
                }
            }
        }
        CheckResult::silent("contradictions")
    }

    /// Finds loops: similar actions again and again.
    fn check_loop_trap(&self, action: &StepAction, ctx: &ExecutionContext) -> (r: CheckResult)
        ensures
            r@ == rules::failing_check(
                "loop_trap"@,
                loop_objection(repetitions(ctx.previous_steps@, *action)),
            ),
    {
        let steps = &ctx.previous_steps;
        let n = steps.len();
        let first: usize = if n > 5 {
            n - 5
        } else {
            0
        };
        let ghost window = recent(steps@, 5);
        let ghost keep = |s: StepSummary| repeats(s, *action);
        let mut recent_same: usize = 0;
        let mut i: usize = first;
        proof {
            reveal(Seq::filter);
            assert(window.take(0) =~= Seq::<StepSummary>::empty());
            assert(window =~= steps@.skip(first as int));
        }
        while i < n
            invariant
                first <= i <= n,
                n == steps@.len(),
                n - first <= 5,
                steps == &ctx.previous_steps,
                keep == (|s: StepSummary| repeats(s, *action)),
                window == steps@.skip(first as int),
                recent_same == window.take(i - first).filter(keep).len(),
                recent_same <= i - first,
            decreases n - i,
        {
            let prev = &steps[i];
            proof {
                assert(window[i - first] == *prev);
                patterns::lemma_filter_next(window, keep, i - first);
            }
            if prev.action_type == action.action_type && similar_descriptions(
                prev.description.as_str(),
                action.description.as_str(),
            ) {
                recent_same += 1;
            }
            i += 1;
        }
        assert(window.take(n - first) =~= window);
        if recent_same >= 3 {
            let mut m = "Loop detected: similar action repeated ".to_string();
            m.append(text::to_decimal(recent_same as u64 + 1).as_str());
            m.append(" times in last 5 steps");
            return CheckResult::failed("loop_trap", m);
        }
        CheckResult::silent("loop_trap")
    }

    /// Checks whether the action has anything to do with the stated plan.
    fn check_plan_deviation(&self, action: &StepAction, ctx: &ExecutionContext) -> (r: CheckResult)
        ensures
            r@ == plan_check(text::opt_text(ctx.plan), action.description@),
    {
        match &ctx.plan {
            Some(plan) => {
                let plan_words = keywords_of(plan.as_str());
                let action_words = keywords_of(action.description.as_str());
                deviation(&plan_words, &action_words)
            },
            None => CheckResult::silent("plan_deviation"),
        }
    }
}

}
