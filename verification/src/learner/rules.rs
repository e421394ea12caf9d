//! Verification rules that were learned from failure patterns.

use vstd::prelude::*;

use crate::learner::patterns;
use crate::learner::patterns::FailurePattern;
use crate::learner::patterns::LearnedSuggestion;
use crate::number;
use crate::number::Real;
use crate::outside;
use crate::text;
use crate::types::ActionType;
use crate::types::Check;
use crate::types::CheckResult;
use crate::types::ExecutionContext;
use crate::types::StepAction;
use crate::types::StepSummary;

verus! {

// ── Rules ────────────────────────────────────────────────────

/// A verification rule that was generated from a failure pattern.
#[derive(Debug)]
pub struct LearnedRule {
    pub name: String,
    pub source_pattern: String,
    pub description: String,
    pub confidence: Real,
    pub check: LearnedCheck,
}

/// What a learned rule looks at.
#[derive(Debug)]
pub enum LearnedCheck {
    /// Warn after so many consecutive writes.
    ConsecutiveWriteLimit { max: u32 },
    /// Warn when the same file is edited more than `max` times.
    RepeatedFileEditLimit { max: u32 },
    /// Suggest tests after source file edits.
    TestAfterSourceEdit,
    /// Suggest checkpoints at regular intervals.
    PeriodicCheckpoint { interval: u32 },
    /// Suggest a checkpoint before certain action types.
    CheckpointBeforeAction { action_types: Vec<String> },
}

/// The check of a rule with its texts.
pub enum AdviceCheck {
    ConsecutiveWriteLimit { max: u32 },
    RepeatedFileEditLimit { max: u32 },
    TestAfterSourceEdit,
    PeriodicCheckpoint { interval: u32 },
    CheckpointBeforeAction { action_types: Seq<Seq<char>> },
}

impl View for LearnedCheck {
    type V = AdviceCheck;

    open spec fn view(&self) -> AdviceCheck {
        match self {
            LearnedCheck::ConsecutiveWriteLimit { max } => AdviceCheck::ConsecutiveWriteLimit {
                max: *max,
            },
            LearnedCheck::RepeatedFileEditLimit { max } => AdviceCheck::RepeatedFileEditLimit {
                max: *max,
            },
            LearnedCheck::TestAfterSourceEdit => AdviceCheck::TestAfterSourceEdit,
            LearnedCheck::PeriodicCheckpoint { interval } => AdviceCheck::PeriodicCheckpoint {
                interval: *interval,
            },
            LearnedCheck::CheckpointBeforeAction { action_types } => {
                AdviceCheck::CheckpointBeforeAction { action_types: text::strings(action_types@) }
            },
        }
    }
}

/// A learned rule with its texts.
pub struct Advice {
    pub name: Seq<char>,
    pub source_pattern: Seq<char>,
    pub description: Seq<char>,
    pub confidence: Real,
    pub check: AdviceCheck,
}

impl View for LearnedRule {
    type V = Advice;

    open spec fn view(&self) -> Advice {
        Advice {
            name: self.name@,
            source_pattern: self.source_pattern@,
            description: self.description@,
            confidence: self.confidence,
            check: self.check@,
        }
    }
}

/// The texts of rules.
pub open spec fn advices(v: Seq<LearnedRule>) -> Seq<Advice> {
    v.map_values(|r: LearnedRule| r@)
}

impl Clone for LearnedCheck {
    fn clone(&self) -> (r: LearnedCheck)
        ensures
            r@ == self@,
    {
        match self {
            LearnedCheck::ConsecutiveWriteLimit { max } => LearnedCheck::ConsecutiveWriteLimit {
                max: *max,
            },
            LearnedCheck::RepeatedFileEditLimit { max } => LearnedCheck::RepeatedFileEditLimit {
                max: *max,
            },
            LearnedCheck::TestAfterSourceEdit => LearnedCheck::TestAfterSourceEdit,
            LearnedCheck::PeriodicCheckpoint { interval } => LearnedCheck::PeriodicCheckpoint {
                interval: *interval,
            },
            LearnedCheck::CheckpointBeforeAction { action_types } => {
                let copy = action_types.clone();
                assert(copy@ =~= action_types@);
                LearnedCheck::CheckpointBeforeAction { action_types: copy }
            },
        }
    }
}

impl Clone for LearnedRule {
    fn clone(&self) -> (r: LearnedRule)
        ensures
            r@ == self@,
    {
        LearnedRule {
            name: self.name.clone(),
            source_pattern: self.source_pattern.clone(),
            description: self.description.clone(),
            confidence: self.confidence,
            check: self.check.clone(),
        }
    }
}

/// A copy of the rules.
pub fn copy_rules(rules: &Vec<LearnedRule>) -> (r: Vec<LearnedRule>)
    ensures
        advices(r@) == advices(rules@),
{
    let mut out: Vec<LearnedRule> = Vec::new();
    let mut i: usize = 0;
    while i < rules.len()
        invariant
            i <= rules.len(),
            out.len() == i,
            forall|j: int| 0 <= j < i ==> (#[trigger] out@[j])@ == rules@[j]@,
        decreases rules.len() - i,
    {
        out.push(rules[i].clone());
        i += 1;
    }
    assert(advices(out@) =~= advices(rules@));
    out
}

// ── Generation ───────────────────────────────────────────────

/// The check that follows a suggestion.
pub open spec fn check_for(suggestion: patterns::Suggestion) -> AdviceCheck {
    match suggestion {
        patterns::Suggestion::WarnConsecutiveWrites { threshold } => {
            AdviceCheck::ConsecutiveWriteLimit { max: threshold }
        },
        patterns::Suggestion::WarnRepeatedFileEdits { threshold } => {
            AdviceCheck::RepeatedFileEditLimit { max: threshold }
        },
        patterns::Suggestion::SuggestTestAfterEdit => AdviceCheck::TestAfterSourceEdit,
        patterns::Suggestion::SuggestPeriodicCheckpoint { interval } => {
            AdviceCheck::PeriodicCheckpoint { interval }
        },
        patterns::Suggestion::CheckpointBefore { action_types } => {
            AdviceCheck::CheckpointBeforeAction { action_types }
        },
    }
}

/// The rule that follows a pattern.
pub open spec fn advice_for(finding: patterns::Finding) -> Advice {
    Advice {
        name: "learned_"@ + finding.name,
        source_pattern: finding.name,
        description: finding.description,
        confidence: finding.confidence,
        check: check_for(finding.suggestion),
    }
}

/// The rules that follow the patterns of enough confidence, in their order.
pub open spec fn rules_from(found: Seq<patterns::Finding>, min_confidence: Real) -> Seq<Advice> {
    found.filter(|p: patterns::Finding| p.confidence.ge(min_confidence)).map_values(
        |p: patterns::Finding| advice_for(p),
    )
}

/// The check that follows a suggestion.
pub fn suggestion_to_check(suggestion: &LearnedSuggestion) -> (r: LearnedCheck)
    ensures
        r@ == check_for(suggestion@),
{
    match suggestion {
        LearnedSuggestion::WarnConsecutiveWrites { threshold } => {
            LearnedCheck::ConsecutiveWriteLimit { max: *threshold }
        },
        LearnedSuggestion::WarnRepeatedFileEdits { threshold } => {
            LearnedCheck::RepeatedFileEditLimit { max: *threshold }
        },
        LearnedSuggestion::SuggestTestAfterEdit => LearnedCheck::TestAfterSourceEdit,
        LearnedSuggestion::SuggestPeriodicCheckpoint { interval } => {
            LearnedCheck::PeriodicCheckpoint { interval: *interval }
        },
        LearnedSuggestion::CheckpointBefore { action_types } => {
            let copy = action_types.clone();
            assert(copy@ =~= action_types@);
            LearnedCheck::CheckpointBeforeAction { action_types: copy }
        },
    }
}

/// Turns discovered failure patterns into verification rules.
pub fn generate_rules(patterns: &[FailurePattern], min_confidence: Real) -> (r: Vec<LearnedRule>)
    ensures
        advices(r@) == rules_from(patterns::findings(patterns@), min_confidence),
{
    let ghost all = patterns::findings(patterns@);
    let ghost keep = |p: patterns::Finding| p.confidence.ge(min_confidence);
    let ghost make = |p: patterns::Finding| advice_for(p);
    let mut out: Vec<LearnedRule> = Vec::new();
    let mut i: usize = 0;
    proof {
        reveal(Seq::filter);
        assert(all.take(0) =~= Seq::<patterns::Finding>::empty());
        assert(advices(out@) =~= Seq::<patterns::Finding>::empty().map_values(make));
    }
    while i < patterns.len()
        invariant
            i <= patterns.len(),
            all == patterns::findings(patterns@),
            keep == (|p: patterns::Finding| p.confidence.ge(min_confidence)),
            make == (|p: patterns::Finding| advice_for(p)),
            advices(out@) == all.take(i as int).filter(keep).map_values(make),
        decreases patterns.len() - i,
    {
        let p = &patterns[i];
        let ghost kept = all.take(i as int).filter(keep);
        proof {
            assert(all[i as int] == p@);
            crate::verification::patterns::lemma_filter_next(all, keep, i as int);
        }
        let ghost before = out@;
        if p.confidence.at_least(&min_confidence) {
            let mut name = "learned_".to_string();
            name.append(p.name.as_str());
            let rule = LearnedRule {
                name,
                source_pattern: p.name.clone(),
                description: p.description.clone(),
                confidence: p.confidence,
                check: suggestion_to_check(&p.suggestion),
            };
            assert(rule@ == advice_for(p@));
            out.push(rule);
            assert(advices(out@) =~= advices(before).push(rule@));
            assert((kept + seq![p@]).map_values(make) =~= kept.map_values(make).push(rule@));
        } else {
            assert(kept + Seq::<patterns::Finding>::empty() =~= kept);
        }
        i += 1;
    }
    assert(all.take(i as int) =~= all);
    out
}

// ── Evaluation ───────────────────────────────────────────────

/// The low 32 bits of a count.
pub open spec fn low32(n: nat) -> nat {
    n % 0x1_0000_0000
}

/// How many steps at the end of the list satisfy `pred` without a gap.
pub open spec fn trailing(steps: Seq<StepSummary>, pred: spec_fn(StepSummary) -> bool) -> nat
    decreases steps.len(),
{
    if steps.len() == 0 || !pred(steps.last()) {
        0
    } else {
        1 + trailing(steps.drop_last(), pred)
    }
}

/// How many writes the steps end in.
pub open spec fn trailing_writes(steps: Seq<StepSummary>) -> nat {
    trailing(steps, |s: StepSummary| s.action_type@ is Write)
}

/// How many steps came after the last one that speaks of a checkpoint.
pub open spec fn since_checkpoint(steps: Seq<StepSummary>) -> nat {
    trailing(steps, |s: StepSummary| !text::contains(s.description@, "checkpoint"@))
}

/// How many of the steps are writes that speak of the file.
pub open spec fn edits_of(steps: Seq<StepSummary>, file: Seq<char>) -> nat {
    steps.filter(
        |s: StepSummary| s.action_type@ is Write && text::contains(s.description@, file),
    ).len()
}

/// The name, in lower case, is that of a source file that is no test.
pub open spec fn names_source(lowered: Seq<char>) -> bool {
    (".py"@.is_suffix_of(lowered) || ".rs"@.is_suffix_of(lowered) || ".ts"@.is_suffix_of(lowered)
        || ".js"@.is_suffix_of(lowered)) && !text::contains(lowered, "test"@)
}

/// One of the files is a source file.
pub open spec fn edits_source(files: Seq<Seq<char>>) -> bool {
    exists|i: int| 0 <= i < files.len() && names_source(outside::lowercase(#[trigger] files[i]))
}

/// The step runs tests.
pub open spec fn runs_test(kind: crate::types::ActionKind, description: Seq<char>) -> bool {
    kind is Execute && text::contains(outside::lowercase(description), "test"@)
}

/// One of the last three steps runs tests.
pub open spec fn tested_recently(steps: Seq<StepSummary>) -> bool {
    exists|i: int|
        0 <= i < steps.len() && steps.len() - 3 <= i && runs_test(
            (#[trigger] steps[i]).action_type@,
            steps[i].description@,
        )
}

/// ` (learned: …)`
pub open spec fn learned_note(description: Seq<char>) -> Seq<char> {
    " (learned: "@ + description + ")"@
}

/// What is said when an edit follows no test run.
pub open spec fn test_advice(
    description: Seq<char>,
    source: bool,
    tested: bool,
    steps: nat,
) -> Option<Seq<char>> {
    if source && !tested && steps > 2 {
        Some("Source file edit without recent test run"@ + learned_note(description))
    } else {
        None
    }
}

/// What is said before another edit of the files, of the first one that was edited
/// `max` times already.
pub open spec fn edit_advice(
    description: Seq<char>,
    steps: Seq<StepSummary>,
    files: Seq<Seq<char>>,
    max: u32,
) -> Option<Seq<char>>
    decreases files.len(),
{
    if files.len() == 0 {
        None
    } else if low32(edits_of(steps, files[0])) >= max {
        Some(
            "File '"@ + files[0] + "' edited "@ + text::decimal(
                low32(edits_of(steps, files[0]) + 1),
            ) + " times already"@ + learned_note(description),
        )
    } else {
        edit_advice(description, steps, files.skip(1), max)
    }
}

/// What the rule has to say about the action. Counts are taken modulo 2³².
pub open spec fn advice_message(
    rule: Advice,
    action: StepAction,
    ctx: ExecutionContext,
) -> Option<Seq<char>> {
    let steps = ctx.previous_steps@;
    match rule.check {
        AdviceCheck::ConsecutiveWriteLimit { max } => if action.action_type@ is Write && low32(
            trailing_writes(steps),
        ) >= max {
            Some(
                text::decimal(max as nat) + "+ consecutive writes without a read"@ + learned_note(
                    rule.description,
                ),
            )
        } else {
            None
        },
        AdviceCheck::RepeatedFileEditLimit { max } => if action.action_type@ is Write {
            edit_advice(rule.description, steps, text::strings(action.target_files@), max)
        } else {
            None
        },
        AdviceCheck::TestAfterSourceEdit => test_advice(
            rule.description,
            action.action_type@ is Write && edits_source(text::strings(action.target_files@)),
            tested_recently(steps),
            steps.len(),
        ),
        AdviceCheck::PeriodicCheckpoint { interval } => if low32(since_checkpoint(steps))
            >= interval {
            Some(
                text::decimal(low32(since_checkpoint(steps))) + " steps since last checkpoint"@
                    + learned_note(rule.description),
            )
        } else {
            None
        },
        AdviceCheck::CheckpointBeforeAction { action_types } => if action_types.contains(
            action.action_type@.name(),
        ) {
            Some(
                "Action type '"@ + action.action_type@.name()
                    + "' has high failure rate — consider checkpoint"@ + learned_note(
                    rule.description,
                ),
            )
        } else {
            None
        },
    }
}

/// The check result of a rule: it warns or says nothing, and never objects.
pub open spec fn advice_check(rule: Advice, action: StepAction, ctx: ExecutionContext) -> Check {
    Check { checker: rule.name, passed: true, message: advice_message(rule, action, ctx) }
}

/// Whether the name, in lower case, is that of a source file that is no test.
pub fn is_source_name(lowered: &str) -> (b: bool)
    ensures
        b == names_source(lowered@),
{
    (text::has_suffix(lowered, ".py") || text::has_suffix(lowered, ".rs") || text::has_suffix(
        lowered,
        ".ts",
    ) || text::has_suffix(lowered, ".js")) && !text::has_substring(lowered, "test")
}

/// Whether one of the files is a source file.
pub fn any_source(files: &Vec<String>) -> (b: bool)
    ensures
        b == edits_source(text::strings(files@)),
{
    let mut i: usize = 0;
    while i < files.len()
        invariant
            i <= files.len(),
            forall|j: int|
                0 <= j < i ==> !names_source(
                    outside::lowercase(#[trigger] text::strings(files@)[j]),
                ),
        decreases files.len() - i,
    {
        assert(text::strings(files@)[i as int] == files@[i as int]@);
        if is_source_name(files[i].as_str().to_lowercase().as_str()) {
            return true;
        }
        i += 1;
    }
    false
}

/// Whether an action of this type and description runs tests.
pub fn is_test_run(action_type: &ActionType, description: &str) -> (b: bool)
    ensures
        b == runs_test(action_type@, description@),
{
    matches!(action_type, ActionType::Execute) && text::has_substring(
        description.to_lowercase().as_str(),
        "test",
    )
}

/// Appends ` (learned: …)`.
fn with_note(mut message: String, description: &str) -> (r: String)
    ensures
        r@ == message@ + learned_note(description@),
{
    let ghost before = message@;
    message.append(" (learned: ");
    message.append(description);
    message.append(")");
    assert(message@ =~= before + learned_note(description@));
    message
}

/// The result of a test reminder, by whether source is edited, whether tests ran
/// recently, and how many steps there were.
pub fn test_reminder(rule: &LearnedRule, source: bool, tested: bool, steps: usize) -> (r: CheckResult)
    ensures
        r@ == (Check {
            checker: rule.name@,
            passed: true,
            message: test_advice(rule.description@, source, tested, steps as nat),
        }),
{
    if source && !tested && steps > 2 {
        return warn(
            rule.name.as_str(),
            with_note(
                "Source file edit without recent test run".to_string(),
                rule.description.as_str(),
            ),
        );
    }
    pass(rule.name.as_str())
}

fn count_trailing_writes(steps: &Vec<StepSummary>) -> (n: usize)
    ensures
        n == trailing_writes(steps@),
{
    let ghost pred = |s: StepSummary| s.action_type@ is Write;
    let total = steps.len();
    let mut i: usize = total;
    assert(steps@.take(total as int) =~= steps@);
    while i > 0 && matches!(steps[i - 1].action_type, ActionType::Write)
        invariant
            i <= total,
            total == steps@.len(),
            pred == (|s: StepSummary| s.action_type@ is Write),
            trailing(steps@, pred) == (total - i) + trailing(steps@.take(i as int), pred),
        decreases i,
    {
        assert(steps@.take(i as int).last() == steps@[i - 1]);
        assert(steps@.take(i as int).drop_last() =~= steps@.take(i - 1));
        i -= 1;
    }
    proof {
        if i > 0 {
            assert(steps@.take(i as int).last() == steps@[i - 1]);
        }
    }
    total - i
}

fn count_since_checkpoint(steps: &Vec<StepSummary>) -> (n: usize)
    ensures
        n == since_checkpoint(steps@),
{
    let ghost pred = |s: StepSummary| !text::contains(s.description@, "checkpoint"@);
    let total = steps.len();
    let mut i: usize = total;
    assert(steps@.take(total as int) =~= steps@);
    while i > 0 && !text::has_substring(steps[i - 1].description.as_str(), "checkpoint")
        invariant
            i <= total,
            total == steps@.len(),
            pred == (|s: StepSummary| !text::contains(s.description@, "checkpoint"@)),
            trailing(steps@, pred) == (total - i) + trailing(steps@.take(i as int), pred),
        decreases i,
    {
        assert(steps@.take(i as int).last() == steps@[i - 1]);
        assert(steps@.take(i as int).drop_last() =~= steps@.take(i - 1));
        i -= 1;
    }
    proof {
        if i > 0 {
            assert(steps@.take(i as int).last() == steps@[i - 1]);
        }
    }
    total - i
}

fn count_edits_of(steps: &Vec<StepSummary>, file: &str) -> (n: usize)
    ensures
        n == edits_of(steps@, file@),
{
    let ghost keep = |s: StepSummary|
        s.action_type@ is Write && text::contains(s.description@, file@);
    let mut n: usize = 0;
    let mut i: usize = 0;
    proof {
        reveal(Seq::filter);
        assert(steps@.take(0) =~= Seq::<StepSummary>::empty());
    }
    while i < steps.len()
        invariant
            i <= steps.len(),
            n <= i,
            keep == (|s: StepSummary|
                s.action_type@ is Write && text::contains(s.description@, file@)),
            n == steps@.take(i as int).filter(keep).len(),
        decreases steps.len() - i,
    {
        proof {
            crate::verification::patterns::lemma_filter_next(steps@, keep, i as int);
        }
        let s = &steps[i];
        if matches!(s.action_type, ActionType::Write) && text::has_substring(
            s.description.as_str(),
            file,
        ) {
            n += 1;
        }
        i += 1;
    }
    assert(steps@.take(i as int) =~= steps@);
    n
}

fn any_recent_test(steps: &Vec<StepSummary>) -> (b: bool)
    ensures
        b == tested_recently(steps@),
{
    let n = steps.len();
    let mut i: usize = if n > 3 {
        n - 3
    } else {
        0
    };
    while i < n
        invariant
            i <= n,
            n == steps@.len(),
            n - 3 <= i,
            forall|j: int|
                0 <= j < i && n - 3 <= j ==> !runs_test(
                    (#[trigger] steps@[j]).action_type@,
                    steps@[j].description@,
                ),
        decreases n - i,
    {
        if is_test_run(&steps[i].action_type, steps[i].description.as_str()) {
            return true;
        }
        i += 1;
    }
    false
}

/// Applies a learned rule to a step action in its context. The result warns or
/// says nothing.
pub fn evaluate_rule(rule: &LearnedRule, action: &StepAction, ctx: &ExecutionContext) -> (r:
    CheckResult)
    ensures
        r@ == advice_check(rule@, *action, *ctx),
{
    let steps = &ctx.previous_steps;
    let name = rule.name.as_str();
    let description = rule.description.as_str();
    match &rule.check {
        LearnedCheck::ConsecutiveWriteLimit { max } => {
            if !matches!(action.action_type, ActionType::Write) {
                return pass(name);
            }
            let consecutive = number::low_u32_of(count_trailing_writes(steps));
            if consecutive >= *max {
                let mut m = text::to_decimal(*max as u64);
                m.append("+ consecutive writes without a read");
                return warn(name, with_note(m, description));
            }
            pass(name)
        },
        LearnedCheck::RepeatedFileEditLimit { max } => {
            if !matches!(action.action_type, ActionType::Write) {
                return pass(name);
            }
            let files = &action.target_files;
            let ghost all = text::strings(files@);
            let mut i: usize = 0;
            assert(all.skip(0) =~= all);
            while i < files.len()
                invariant
                    i <= files.len(),
                    files == &action.target_files,
                    steps == &ctx.previous_steps,
                    name@ == rule.name@,
                    description@ == rule.description@,
                    rule.check == (LearnedCheck::RepeatedFileEditLimit { max: *max }),
                    action.action_type@ is Write,
                    all == text::strings(files@),
                    edit_advice(rule.description@, steps@, all, *max) == edit_advice(
                        rule.description@,
                        steps@,
                        all.skip(i as int),
                        *max,
                    ),
                decreases files.len() - i,
            {
                assert(all.skip(i as int)[0] == files@[i as int]@);
                assert(all.skip(i as int).skip(1) =~= all.skip(i + 1));
                let file = files[i].as_str();
                let count = count_edits_of(steps, file);
                let edit_count = number::low_u32_of(count);
                if edit_count >= *max {
                    let mut m = "File '".to_string();
                    m.append(file);
                    m.append("' edited ");
                    m.append(text::to_decimal(edit_count.wrapping_add(1) as u64).as_str());
                    m.append(" times already");
                    return warn(name, with_note(m, description));
                }
                i += 1;
            }
            pass(name)
        },
        LearnedCheck::TestAfterSourceEdit => {
            let source = matches!(action.action_type, ActionType::Write) && any_source(
                &action.target_files,
            );
            let tested = any_recent_test(steps);
            test_reminder(rule, source, tested, steps.len())
        },
        LearnedCheck::PeriodicCheckpoint { interval } => {
            let steps_since_checkpoint = number::low_u32_of(count_since_checkpoint(steps));
            if steps_since_checkpoint >= *interval {
                let mut m = text::to_decimal(steps_since_checkpoint as u64);
                m.append(" steps since last checkpoint");
                return warn(name, with_note(m, description));
            }
            pass(name)
        },
        LearnedCheck::CheckpointBeforeAction { action_types } => {
            let action_name = action.action_type.as_str();
            if text::lists(action_types, action_name) {
                let mut m = "Action type '".to_string();
                m.append(action_name);
                m.append("' has high failure rate — consider checkpoint");
                return warn(name, with_note(m, description));
            }
            pass(name)
        },
    }
}

fn pass(rule_name: &str) -> (r: CheckResult)
    ensures
        r@ == Check::silent(rule_name@),
{
    CheckResult::silent(rule_name)
}

fn warn(rule_name: &str, message: String) -> (r: CheckResult)
    ensures
        r@ == Check::warned(rule_name@, message@),
{
    CheckResult::warned(rule_name, message)
}

}
