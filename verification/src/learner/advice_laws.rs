//! What holds of learned rules, said of steps and files.

use vstd::prelude::*;

use crate::learner::patterns::Finding;
use crate::learner::patterns::Suggestion;
use crate::learner::rules;
use crate::learner::rules::Advice;
use crate::learner::rules::AdviceCheck;
use crate::number::Real;
use crate::outside;
use crate::text;
use crate::types::ExecutionContext;
use crate::types::StepAction;
use crate::types::StepSummary;
use crate::verification::patterns;

verus! {

/// ` (learned: …)`
pub open spec fn with_reason(message: Seq<char>, description: Seq<char>) -> Seq<char> {
    message + " (learned: "@ + description + ")"@
}

proof fn lemma_note(message: Seq<char>, description: Seq<char>)
    ensures
        message + rules::learned_note(description) == with_reason(message, description),
{
    assert(message + rules::learned_note(description) =~= with_reason(message, description));
}

// ── Source files ─────────────────────────────────────────────

/// A name in lower case is that of a source file where it is a stem with one of four
/// endings and does not speak of tests.
pub proof fn law_source_names(stem: Seq<char>, ending: Seq<char>)
    requires
        ending == ".py"@ || ending == ".rs"@ || ending == ".ts"@ || ending == ".js"@,
    ensures
        rules::names_source(stem + ending) <==> !text::contains(stem + ending, "test"@),
{
    let name = stem + ending;
    assert(name.subrange(name.len() - ending.len(), name.len() as int) =~= ending);
}

/// A name that ends otherwise is not that of a source file.
pub proof fn law_other_names(lowered: Seq<char>)
    requires
        rules::names_source(lowered),
    ensures
        exists|stem: Seq<char>|
            lowered == #[trigger] (stem + ".py"@) || lowered == stem + ".rs"@ || lowered == stem
                + ".ts"@ || lowered == stem + ".js"@,
{
    reveal_strlit(".py");
    reveal_strlit(".rs");
    reveal_strlit(".ts");
    reveal_strlit(".js");
    let stem = lowered.take(lowered.len() - 3);
    let end = lowered.subrange(lowered.len() - 3, lowered.len() as int);
    assert(lowered =~= stem + end);
    assert((stem + ".py"@).len() == lowered.len());
}

/// The file, whatever its case, ends like a source file and does not speak of tests.
pub open spec fn is_source_file(file: Seq<char>) -> bool {
    let name = outside::lowercase(file);
    &&& !text::contains(name, "test"@)
    &&& ".py"@.is_suffix_of(name) || ".rs"@.is_suffix_of(name) || ".ts"@.is_suffix_of(name)
        || ".js"@.is_suffix_of(name)
}

/// The step executes something whose description speaks of tests.
pub open spec fn is_test(step: StepSummary) -> bool {
    step.action_type@ is Execute && text::contains(
        outside::lowercase(step.description@),
        "test"@,
    )
}

/// The rule that reminds of tests speaks up exactly where a source file is written,
/// there are at least three steps before, and none of the last three ran tests.
pub proof fn law_test_reminder(rule: Advice, action: StepAction, ctx: ExecutionContext)
    requires
        rule.check is TestAfterSourceEdit,
    ensures
        rules::advice_check(rule, action, ctx).message is Some <==> {
            &&& action.action_type@ is Write
            &&& exists|i: int|
                0 <= i < action.target_files@.len() && is_source_file(
                    (#[trigger] action.target_files@[i])@,
                )
            &&& ctx.previous_steps@.len() >= 3
            &&& forall|i: int|
                ctx.previous_steps@.len() - 3 <= i < ctx.previous_steps@.len() ==> !is_test(
                    #[trigger] ctx.previous_steps@[i],
                )
        },
        rules::advice_check(rule, action, ctx).message matches Some(m) ==> m == with_reason(
            "Source file edit without recent test run"@,
            rule.description,
        ),
{
    lemma_note("Source file edit without recent test run"@, rule.description);
    let files = text::strings(action.target_files@);
    let steps = ctx.previous_steps@;
    assert(forall|i: int|
        0 <= i < files.len() ==> rules::names_source(outside::lowercase(#[trigger] files[i]))
            == is_source_file(action.target_files@[i]@));
    if rules::edits_source(files) {
        let i = choose|i: int|
            0 <= i < files.len() && rules::names_source(outside::lowercase(#[trigger] files[i]));
        assert(is_source_file(action.target_files@[i]@));
    }
    if exists|i: int|
        0 <= i < action.target_files@.len() && is_source_file(
            (#[trigger] action.target_files@[i])@,
        ) {
        let i = choose|i: int|
            0 <= i < action.target_files@.len() && is_source_file(
                (#[trigger] action.target_files@[i])@,
            );
        assert(rules::names_source(outside::lowercase(files[i])));
    }
    if rules::tested_recently(steps) {
        let i = choose|i: int|
            0 <= i < steps.len() && steps.len() - 3 <= i && rules::runs_test(
                (#[trigger] steps[i]).action_type@,
                steps[i].description@,
            );
        assert(is_test(steps[i]));
    } else {
        assert forall|i: int| 0 <= i < steps.len() && steps.len() - 3 <= i implies !is_test(
            #[trigger] steps[i],
        ) by {
            assert(!rules::runs_test(steps[i].action_type@, steps[i].description@));
        }
    }
}

// ── Consecutive writes ───────────────────────────────────────

proof fn lemma_trailing(steps: Seq<StepSummary>, pred: spec_fn(StepSummary) -> bool, k: nat)
    requires
        k <= steps.len(),
        forall|i: int| steps.len() - k <= i < steps.len() ==> pred(#[trigger] steps[i]),
        k == steps.len() || !pred(steps[steps.len() - k - 1]),
    ensures
        rules::trailing(steps, pred) == k,
    decreases k,
{
    if k > 0 {
        assert(pred(steps[steps.len() - 1]));
        let rest = steps.drop_last();
        assert forall|i: int| rest.len() - (k - 1) <= i < rest.len() implies pred(
            #[trigger] rest[i],
        ) by {
            assert(rest[i] == steps[i]);
        }
        lemma_trailing(rest, pred, (k - 1) as nat);
    }
}

/// How many steps at the end of the list satisfy the condition.
proof fn lemma_trailing_exists(steps: Seq<StepSummary>, pred: spec_fn(StepSummary) -> bool) -> (k:
    nat)
    ensures
        k <= steps.len(),
        forall|i: int| steps.len() - k <= i < steps.len() ==> pred(#[trigger] steps[i]),
        k == steps.len() || !pred(steps[steps.len() - k - 1]),
        rules::trailing(steps, pred) == k,
    decreases steps.len(),
{
    if steps.len() == 0 || !pred(steps.last()) {
        0
    } else {
        let rest = steps.drop_last();
        let k = lemma_trailing_exists(rest, pred);
        assert forall|i: int| steps.len() - (k + 1) <= i < steps.len() implies pred(
            #[trigger] steps[i],
        ) by {
            if i < rest.len() {
                assert(rest[i] == steps[i]);
            }
        }
        k + 1
    }
}

/// The rule on consecutive writes speaks up exactly where a write would follow at least
/// `max` writes without any other step between them.
pub proof fn law_write_limit(rule: Advice, action: StepAction, ctx: ExecutionContext, max: u32)
    requires
        rule.check == (AdviceCheck::ConsecutiveWriteLimit { max }),
        ctx.previous_steps@.len() <= u32::MAX,
    ensures
        rules::advice_check(rule, action, ctx).message is Some <==> {
            &&& action.action_type@ is Write
            &&& max <= ctx.previous_steps@.len()
            &&& forall|i: int|
                ctx.previous_steps@.len() - max <= i < ctx.previous_steps@.len() ==> (
                #[trigger] ctx.previous_steps@[i]).action_type@ is Write
        },
        rules::advice_check(rule, action, ctx).message matches Some(m) ==> m == with_reason(
            text::decimal(max as nat) + "+ consecutive writes without a read"@,
            rule.description,
        ),
{
    lemma_note(
        text::decimal(max as nat) + "+ consecutive writes without a read"@,
        rule.description,
    );
    let steps = ctx.previous_steps@;
    let pred = |s: StepSummary| s.action_type@ is Write;
    let k = lemma_trailing_exists(steps, pred);
    if k < max && max <= steps.len() {
        assert(!pred(steps[steps.len() - k - 1]));
    }
    if k >= max {
        assert forall|i: int| steps.len() - max <= i < steps.len() implies (
        #[trigger] steps[i]).action_type@ is Write by {
            assert(pred(steps[i]));
        }
    }
}

// ── Repeated edits ───────────────────────────────────────────

/// How many of the steps are writes whose description names the file.
pub open spec fn edits(steps: Seq<StepSummary>, file: Seq<char>) -> nat {
    steps.filter(
        |s: StepSummary| s.action_type@ is Write && text::contains(s.description@, file),
    ).len()
}

proof fn lemma_edits(steps: Seq<StepSummary>, file: Seq<char>)
    ensures
        rules::edits_of(steps, file) == edits(steps, file),
        edits(steps, file) <= steps.len(),
{
    let keep = |s: StepSummary| s.action_type@ is Write && text::contains(s.description@, file);
    steps.lemma_filter_len(keep);
}

/// What is said of the file before it is edited once more.
pub open spec fn edited_words(
    steps: Seq<StepSummary>,
    file: Seq<char>,
    description: Seq<char>,
) -> Seq<char> {
    with_reason(
        "File '"@ + file + "' edited "@ + text::decimal(edits(steps, file) + 1)
            + " times already"@,
        description,
    )
}

proof fn lemma_no_edit_advice(
    description: Seq<char>,
    steps: Seq<StepSummary>,
    files: Seq<Seq<char>>,
    max: u32,
)
    requires
        steps.len() < u32::MAX,
        forall|i: int| 0 <= i < files.len() ==> edits(steps, #[trigger] files[i]) < max,
    ensures
        rules::edit_advice(description, steps, files, max) is None,
    decreases files.len(),
{
    if files.len() > 0 {
        lemma_edits(steps, files[0]);
        assert(edits(steps, files[0]) < max);
        assert forall|i: int| 0 <= i < files.skip(1).len() implies edits(
            steps,
            #[trigger] files.skip(1)[i],
        ) < max by {
            assert(files.skip(1)[i] == files[i + 1]);
        }
        lemma_no_edit_advice(description, steps, files.skip(1), max);
    }
}

proof fn lemma_edit_advice(
    description: Seq<char>,
    steps: Seq<StepSummary>,
    files: Seq<Seq<char>>,
    max: u32,
    i: int,
)
    requires
        steps.len() < u32::MAX,
        0 <= i < files.len(),
        edits(steps, files[i]) >= max,
        forall|j: int| 0 <= j < i ==> edits(steps, #[trigger] files[j]) < max,
    ensures
        rules::edit_advice(description, steps, files, max) == Some(
            edited_words(steps, files[i], description),
        ),
    decreases files.len(),
{
    lemma_edits(steps, files[0]);
    if i == 0 {
        lemma_note(
            "File '"@ + files[0] + "' edited "@ + text::decimal(edits(steps, files[0]) + 1)
                + " times already"@,
            description,
        );
    } else {
        assert(edits(steps, files[0]) < max);
        let rest = files.skip(1);
        assert(rest[i - 1] == files[i]);
        assert forall|j: int| 0 <= j < i - 1 implies edits(steps, #[trigger] rest[j]) < max by {
            assert(rest[j] == files[j + 1]);
        }
        lemma_edit_advice(description, steps, rest, max, i - 1);
    }
}

/// Where any of the files was edited so often, one of them comes first.
proof fn lemma_first_edited(steps: Seq<StepSummary>, files: Seq<Seq<char>>, max: u32, i: int) -> (k:
    int)
    requires
        0 <= i < files.len(),
        edits(steps, files[i]) >= max,
    ensures
        0 <= k <= i,
        edits(steps, files[k]) >= max,
        forall|j: int| 0 <= j < k ==> edits(steps, #[trigger] files[j]) < max,
    decreases i,
{
    if exists|j: int| 0 <= j < i && edits(steps, #[trigger] files[j]) >= max {
        let j = choose|j: int| 0 <= j < i && edits(steps, #[trigger] files[j]) >= max;
        lemma_first_edited(steps, files, max, j)
    } else {
        i
    }
}

/// The rule on repeated edits speaks up exactly where a file would be written that at
/// least `max` earlier writes name already. It names the first such file and counts the
/// edit that is about to happen.
pub proof fn law_edit_limit(rule: Advice, action: StepAction, ctx: ExecutionContext, max: u32)
    requires
        rule.check == (AdviceCheck::RepeatedFileEditLimit { max }),
        ctx.previous_steps@.len() < u32::MAX,
    ensures
        rules::advice_check(rule, action, ctx).message is Some <==> action.action_type@ is Write
            && exists|i: int|
            0 <= i < action.target_files@.len() && edits(
                ctx.previous_steps@,
                (#[trigger] action.target_files@[i])@,
            ) >= max,
        forall|i: int|
            action.action_type@ is Write && 0 <= i < action.target_files@.len() && edits(
                ctx.previous_steps@,
                (#[trigger] action.target_files@[i])@,
            ) >= max && (forall|j: int|
                0 <= j < i ==> edits(ctx.previous_steps@, (#[trigger] action.target_files@[j])@)
                    < max) ==> rules::advice_check(rule, action, ctx).message == Some(
                edited_words(
                    ctx.previous_steps@,
                    action.target_files@[i]@,
                    rule.description,
                ),
            ),
{
    let steps = ctx.previous_steps@;
    let files = text::strings(action.target_files@);
    if action.action_type@ is Write {
        if exists|i: int|
            0 <= i < action.target_files@.len() && edits(
                steps,
                (#[trigger] action.target_files@[i])@,
            ) >= max {
            let i = choose|i: int|
                0 <= i < action.target_files@.len() && edits(
                    steps,
                    (#[trigger] action.target_files@[i])@,
                ) >= max;
            let k = lemma_first_edited(steps, files, max, i);
            lemma_edit_advice(rule.description, steps, files, max, k);
        } else {
            assert forall|i: int| 0 <= i < files.len() implies edits(steps, #[trigger] files[i])
                < max by {
                assert(!(edits(steps, action.target_files@[i]@) >= max));
            }
            lemma_no_edit_advice(rule.description, steps, files, max);
        }
        assert forall|i: int|
            0 <= i < action.target_files@.len() && edits(
                steps,
                (#[trigger] action.target_files@[i])@,
            ) >= max && (forall|j: int|
                0 <= j < i ==> edits(steps, (#[trigger] action.target_files@[j])@)
                    < max) implies rules::advice_check(rule, action, ctx).message == Some(
            edited_words(steps, action.target_files@[i]@, rule.description),
        ) by {
            assert forall|j: int| 0 <= j < i implies edits(steps, #[trigger] files[j]) < max by {
                assert(edits(steps, action.target_files@[j]@) < max);
            }
            lemma_edit_advice(rule.description, steps, files, max, i);
        }
    }
}

// ── Checkpoints ──────────────────────────────────────────────

/// The rule on regular checkpoints speaks up exactly where there are at least
/// `interval` steps since the last one that speaks of a checkpoint, or since the
/// beginning, and tells how many.
pub proof fn law_checkpoint_interval(
    rule: Advice,
    action: StepAction,
    ctx: ExecutionContext,
    interval: u32,
    since: nat,
)
    requires
        rule.check == (AdviceCheck::PeriodicCheckpoint { interval }),
        ctx.previous_steps@.len() <= u32::MAX,
        since <= ctx.previous_steps@.len(),
        forall|i: int|
            ctx.previous_steps@.len() - since <= i < ctx.previous_steps@.len() ==> !text::contains(
                (#[trigger] ctx.previous_steps@[i]).description@,
                "checkpoint"@,
            ),
        since == ctx.previous_steps@.len() || text::contains(
            ctx.previous_steps@[ctx.previous_steps@.len() - since - 1].description@,
            "checkpoint"@,
        ),
    ensures
        rules::advice_check(rule, action, ctx).message == (if since >= interval {
            Some(
                with_reason(
                    text::decimal(since) + " steps since last checkpoint"@,
                    rule.description,
                ),
            )
        } else {
            None
        }),
{
    lemma_note(text::decimal(since) + " steps since last checkpoint"@, rule.description);
    let pred = |s: StepSummary| !text::contains(s.description@, "checkpoint"@);
    lemma_trailing(ctx.previous_steps@, pred, since);
}

/// The rule on failing action types speaks up exactly before an action of one of the
/// types that it lists.
pub proof fn law_checkpoint_before_action(
    rule: Advice,
    action: StepAction,
    ctx: ExecutionContext,
    action_types: Seq<Seq<char>>,
)
    requires
        rule.check == (AdviceCheck::CheckpointBeforeAction { action_types }),
    ensures
        rules::advice_check(rule, action, ctx).message == (if exists|i: int|
            0 <= i < action_types.len() && #[trigger] action_types[i]
                == action.action_type@.name() {
            Some(
                with_reason(
                    "Action type '"@ + action.action_type@.name()
                        + "' has high failure rate — consider checkpoint"@,
                    rule.description,
                ),
            )
        } else {
            None
        }),
{
    lemma_note(
        "Action type '"@ + action.action_type@.name()
            + "' has high failure rate — consider checkpoint"@,
        rule.description,
    );
}

// ── Rules from patterns ──────────────────────────────────────

/// A rule is named after its pattern, tells its description and its confidence, and
/// checks what the pattern suggests, with the same numbers.
pub proof fn law_rule_of_a_pattern(finding: Finding)
    ensures
        rules::advice_for(finding).name == "learned_"@ + finding.name,
        rules::advice_for(finding).source_pattern == finding.name,
        rules::advice_for(finding).description == finding.description,
        rules::advice_for(finding).confidence == finding.confidence,
        match finding.suggestion {
            Suggestion::WarnConsecutiveWrites { threshold } => rules::advice_for(finding).check
                == (AdviceCheck::ConsecutiveWriteLimit { max: threshold }),
            Suggestion::WarnRepeatedFileEdits { threshold } => rules::advice_for(finding).check
                == (AdviceCheck::RepeatedFileEditLimit { max: threshold }),
            Suggestion::SuggestTestAfterEdit => rules::advice_for(
                finding,
            ).check is TestAfterSourceEdit,
            Suggestion::SuggestPeriodicCheckpoint { interval } => rules::advice_for(finding).check
                == (AdviceCheck::PeriodicCheckpoint { interval }),
            Suggestion::CheckpointBefore { action_types } => rules::advice_for(finding).check == (
            AdviceCheck::CheckpointBeforeAction { action_types }),
        },
{
}

/// Rules come in the order of their patterns: those of two lists, one behind the other,
/// are the rules of the first and then those of the second, and a single pattern gives
/// its rule where it is reliable enough, and nothing otherwise.
pub proof fn law_rules_keep_the_order(a: Seq<Finding>, b: Seq<Finding>, p: Finding, min: Real)
    ensures
        rules::rules_from(a + b, min) == rules::rules_from(a, min) + rules::rules_from(b, min),
        rules::rules_from(seq![p], min) == (if p.confidence.ge(min) {
            seq![rules::advice_for(p)]
        } else {
            Seq::empty()
        }),
{
    let keep = |q: Finding| q.confidence.ge(min);
    let make = |q: Finding| rules::advice_for(q);
    Seq::filter_distributes_over_add(a, b, keep);
    assert(rules::rules_from(a + b, min) =~= rules::rules_from(a, min) + rules::rules_from(b, min));
    patterns::lemma_filter_one(p, keep);
    if keep(p) {
        assert(seq![p].map_values(make) =~= seq![rules::advice_for(p)]);
    } else {
        assert(Seq::<Finding>::empty().map_values(make) =~= Seq::<Advice>::empty());
    }
}

}
