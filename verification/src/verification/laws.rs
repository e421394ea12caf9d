//! What holds of verification as a whole.

use vstd::prelude::*;

use crate::config;
use crate::learner::rules as learned;
use crate::outside;
use crate::text;
use crate::types::Check;
use crate::types::ExecutionContext;
use crate::types::StepAction;
use crate::types::Verdict;
use crate::verification;
use crate::verification::consistency;
use crate::verification::patterns;
use crate::verification::rules;

verus! {

// ── Decisions ────────────────────────────────────────────────

/// How strict a verdict is.
pub open spec fn strictness(v: Verdict) -> nat {
    match v {
        Verdict::Pass => 0,
        Verdict::Warn { .. } => 1,
        Verdict::Fail { .. } => 2,
    }
}

/// How many checks warn.
pub open spec fn warning_count(checks: Seq<Check>) -> nat {
    checks.filter(|c: Check| verification::warns(c)).len()
}

/// A filtered list has an element exactly where one satisfies the condition.
proof fn lemma_filter_nonempty<A>(s: Seq<A>, keep: spec_fn(A) -> bool)
    ensures
        s.filter(keep).len() > 0 <==> exists|i: int| 0 <= i < s.len() && keep(#[trigger] s[i]),
    decreases s.len(),
{
    reveal(Seq::filter);
    if s.len() > 0 {
        let t = s.drop_last();
        lemma_filter_nonempty(t, keep);
        if keep(s.last()) {
            assert(s[s.len() - 1] == s.last());
        } else {
            if t.filter(keep).len() > 0 {
                let i = choose|i: int| 0 <= i < t.len() && keep(#[trigger] t[i]);
                assert(keep(s[i]));
            }
            if exists|i: int| 0 <= i < s.len() && keep(#[trigger] s[i]) {
                let i = choose|i: int| 0 <= i < s.len() && keep(#[trigger] s[i]);
                assert(t[i] == s[i]);
            }
        }
    }
}

/// A step fails exactly when a check objects, and passes exactly when every check
/// is silent. In between it is warned about.
pub proof fn law_decision(checks: Seq<Check>)
    ensures
        verification::verdict(checks) is Fail <==> exists|i: int|
            0 <= i < checks.len() && !(#[trigger] checks[i]).passed,
        verification::verdict(checks) is Pass <==> forall|i: int|
            0 <= i < checks.len() ==> (#[trigger] checks[i]).passed && checks[i].message is None,
{
    let fails = |c: Check| !c.passed;
    let warns = |c: Check| verification::warns(c);
    lemma_filter_nonempty(checks, fails);
    lemma_filter_nonempty(checks, warns);
    if exists|i: int| 0 <= i < checks.len() && !(#[trigger] checks[i]).passed {
        let i = choose|i: int| 0 <= i < checks.len() && !(#[trigger] checks[i]).passed;
        assert(fails(checks[i]));
    }
    if forall|i: int|
        0 <= i < checks.len() ==> (#[trigger] checks[i]).passed && checks[i].message is None {
        assert(forall|i: int| 0 <= i < checks.len() ==> !warns(#[trigger] checks[i]));
    } else {
        let i = choose|i: int|
            0 <= i < checks.len() && !((#[trigger] checks[i]).passed && checks[i].message is None);
        assert(fails(checks[i]) || warns(checks[i]));
    }
}

/// The verdict on checks taken together is the stricter one of the verdicts on
/// either part.
pub proof fn law_strictest(a: Seq<Check>, b: Seq<Check>)
    ensures
        strictness(verification::verdict(a + b)) == (if strictness(verification::verdict(a))
            >= strictness(verification::verdict(b)) {
            strictness(verification::verdict(a))
        } else {
            strictness(verification::verdict(b))
        }),
{
    let fails = |c: Check| !c.passed;
    let warns = |c: Check| verification::warns(c);
    Seq::filter_distributes_over_add(a, b, fails);
    Seq::filter_distributes_over_add(a, b, warns);
}

/// Learned rules never block a step: with or without them the same steps fail.
pub proof fn law_learned_rules_never_block(
    policy: config::Policy,
    threats: Seq<patterns::Threat>,
    lessons: Seq<learned::Advice>,
    action: StepAction,
    ctx: ExecutionContext,
)
    ensures
        verification::verdict(
            verification::all_checks(policy, threats, lessons, action, ctx),
        ) is Fail <==> verification::verdict(
            verification::all_checks(policy, threats, Seq::empty(), action, ctx),
        ) is Fail,
{
    let apply = |l: learned::Advice| learned::advice_check(l, action, ctx);
    let with = verification::all_checks(policy, threats, lessons, action, ctx);
    let without = verification::all_checks(policy, threats, Seq::empty(), action, ctx);
    let extra = lessons.map_values(apply);
    assert(with =~= without + extra);
    law_strictest(without, extra);
    law_decision(extra);
}

/// Learning only adds: the checks that were made before are made as before, each
/// learned rule adds one behind them, and no warning is lost.
pub proof fn law_learning_only_adds(
    policy: config::Policy,
    threats: Seq<patterns::Threat>,
    lessons: Seq<learned::Advice>,
    action: StepAction,
    ctx: ExecutionContext,
)
    ensures
        ({
            let with = verification::all_checks(policy, threats, lessons, action, ctx);
            let without = verification::all_checks(policy, threats, Seq::empty(), action, ctx);
            &&& with.len() == without.len() + lessons.len()
            &&& without.is_prefix_of(with)
            &&& forall|i: int|
                0 <= i < lessons.len() ==> with[without.len() + i] == learned::advice_check(
                    #[trigger] lessons[i],
                    action,
                    ctx,
                )
            &&& warning_count(with) >= warning_count(without)
            &&& (exists|i: int|
                0 <= i < lessons.len() && verification::warns(
                    learned::advice_check(#[trigger] lessons[i], action, ctx),
                )) ==> warning_count(with) > warning_count(without)
        }),
{
    let warns = |c: Check| verification::warns(c);
    let apply = |l: learned::Advice| learned::advice_check(l, action, ctx);
    let with = verification::all_checks(policy, threats, lessons, action, ctx);
    let without = verification::all_checks(policy, threats, Seq::empty(), action, ctx);
    let extra = lessons.map_values(apply);
    assert(with =~= without + extra);
    assert(with.subrange(0, without.len() as int) =~= without);
    assert forall|i: int| 0 <= i < lessons.len() implies with[without.len() + i]
        == learned::advice_check(#[trigger] lessons[i], action, ctx) by {
        assert(extra[i] == apply(lessons[i]));
    }
    Seq::filter_distributes_over_add(without, extra, warns);
    lemma_filter_nonempty(extra, warns);
    if exists|i: int|
        0 <= i < lessons.len() && verification::warns(
            learned::advice_check(#[trigger] lessons[i], action, ctx),
        ) {
        let i = choose|i: int|
            0 <= i < lessons.len() && verification::warns(
                learned::advice_check(#[trigger] lessons[i], action, ctx),
            );
        assert(warns(extra[i]));
    }
}

/// Where neither rules nor consistency are checked and nothing was learned, every
/// step passes.
pub proof fn law_nothing_enabled_passes(
    policy: config::Policy,
    threats: Seq<patterns::Threat>,
    action: StepAction,
    ctx: ExecutionContext,
)
    requires
        !policy.rules_enabled,
        !policy.consistency_enabled,
    ensures
        verification::verdict(
            verification::all_checks(policy, threats, Seq::empty(), action, ctx),
        ) is Pass,
{
    law_decision(verification::all_checks(policy, threats, Seq::empty(), action, ctx));
}

// ── Commands, threats and limits ─────────────────────────────

proof fn lemma_command_found(searched: Seq<char>, commands: Seq<Seq<char>>, i: int)
    requires
        0 <= i < commands.len(),
        rules::command_found(searched, commands[i]),
    ensures
        rules::first_command(searched, commands) is Some,
    decreases commands.len(),
{
    if !rules::command_found(searched, commands[0]) {
        assert(commands.skip(1)[i - 1] == commands[i]);
        lemma_command_found(searched, commands.skip(1), i - 1);
    }
}

/// Where rules are checked, a step in whose description or arguments a blocked
/// command shows, in whatever case, fails: word for word, or as an expression.
pub proof fn law_blocked_command_fails(
    policy: config::Policy,
    threats: Seq<patterns::Threat>,
    lessons: Seq<learned::Advice>,
    action: StepAction,
    ctx: ExecutionContext,
    command: int,
)
    requires
        policy.rules_enabled,
        0 <= command < policy.blocked_commands.len(),
        text::contains(
            rules::command_text(action.description@, action.arguments@),
            outside::lowercase(policy.blocked_commands[command]),
        ) || rules::search_result(
            rules::in_any_case(policy.blocked_commands[command]),
            rules::command_text(action.description@, action.arguments@),
        ) == Some(true),
    ensures
        verification::verdict(
            verification::all_checks(policy, threats, lessons, action, ctx),
        ) is Fail,
{
    lemma_command_found(
        rules::command_text(action.description@, action.arguments@),
        policy.blocked_commands,
        command,
    );
    let checks = verification::all_checks(policy, threats, lessons, action, ctx);
    assert(checks[4] == rules::rule_checks(policy, threats, action)[4]);
    assert(!checks[4].passed);
    law_decision(checks);
}

/// Where rules are checked, a step in which a known threat shows fails.
pub proof fn law_threat_fails(
    policy: config::Policy,
    threats: Seq<patterns::Threat>,
    lessons: Seq<learned::Advice>,
    action: StepAction,
    ctx: ExecutionContext,
    threat: int,
)
    requires
        policy.rules_enabled,
        0 <= threat < threats.len(),
        threats[threat].found_in(rules::threat_text(action)),
    ensures
        verification::verdict(
            verification::all_checks(policy, threats, lessons, action, ctx),
        ) is Fail,
{
    let searched = rules::threat_text(action);
    let shows = |t: patterns::Threat| t.found_in(searched);
    lemma_filter_nonempty(threats, shows);
    assert(shows(threats[threat]));
    let checks = verification::all_checks(policy, threats, lessons, action, ctx);
    assert(checks[3] == rules::rule_checks(policy, threats, action)[3]);
    assert(!checks[3].passed);
    law_decision(checks);
}

/// Where rules are checked, a step that touches more files than one step may fails.
pub proof fn law_too_many_files_fail(
    policy: config::Policy,
    threats: Seq<patterns::Threat>,
    lessons: Seq<learned::Advice>,
    action: StepAction,
    ctx: ExecutionContext,
)
    requires
        policy.rules_enabled,
        action.target_files@.len() > policy.max_files_per_step,
    ensures
        verification::verdict(
            verification::all_checks(policy, threats, lessons, action, ctx),
        ) is Fail,
{
    let checks = verification::all_checks(policy, threats, lessons, action, ctx);
    assert(checks[1] == rules::rule_checks(policy, threats, action)[1]);
    assert(!checks[1].passed);
    law_decision(checks);
}

/// Where rules are checked, a step of a type that requires confirmation never
/// passes without at least a warning.
pub proof fn law_confirmation_is_asked_for(
    policy: config::Policy,
    threats: Seq<patterns::Threat>,
    lessons: Seq<learned::Advice>,
    action: StepAction,
    ctx: ExecutionContext,
)
    requires
        policy.rules_enabled,
        policy.require_confirmation_for.contains(action.action_type@.name()),
    ensures
        verification::verdict(
            verification::all_checks(policy, threats, lessons, action, ctx),
        ) !is Pass,
{
    let checks = verification::all_checks(policy, threats, lessons, action, ctx);
    assert(checks[2] == rules::rule_checks(policy, threats, action)[2]);
    assert(checks[2].message is Some);
    law_decision(checks);
}

// ── Paths ────────────────────────────────────────────────────

proof fn lemma_blocking_rule_found(path: Seq<char>, list: Seq<Seq<char>>, i: int)
    requires
        0 <= i < list.len(),
        rules::path_blocked(path, list[i]),
    ensures
        rules::first_blocking(path, list) is Some,
    decreases list.len(),
{
    if !rules::path_blocked(path, list[0]) {
        assert(list.skip(1)[i - 1] == list[i]);
        lemma_blocking_rule_found(path, list.skip(1), i - 1);
    }
}

proof fn lemma_objection_found(policy: config::Policy, paths: Seq<Seq<char>>, i: int)
    requires
        0 <= i < paths.len(),
        rules::path_objection(policy, paths[i]) is Some,
    ensures
        rules::paths_objection(policy, paths) is Some,
    decreases paths.len(),
{
    if rules::path_objection(policy, paths[0]) is None {
        assert(paths.skip(1)[i - 1] == paths[i]);
        lemma_objection_found(policy, paths.skip(1), i - 1);
    }
}

proof fn lemma_no_objection(policy: config::Policy, paths: Seq<Seq<char>>)
    requires
        forall|i: int|
            0 <= i < paths.len() ==> rules::path_objection(policy, #[trigger] paths[i]) is None,
    ensures
        rules::paths_objection(policy, paths) is None,
    decreases paths.len(),
{
    if paths.len() > 0 {
        assert(rules::path_objection(policy, paths[0]) is None);
        assert forall|i: int| 0 <= i < paths.skip(1).len() implies rules::path_objection(
            policy,
            #[trigger] paths.skip(1)[i],
        ) is None by {
            assert(paths.skip(1)[i] == paths[i + 1]);
        }
        lemma_no_objection(policy, paths.skip(1));
    }
}

/// Where rules are checked, a step that touches a blocked path fails, whatever
/// else holds of it.
pub proof fn law_blocked_path_fails(
    policy: config::Policy,
    threats: Seq<patterns::Threat>,
    lessons: Seq<learned::Advice>,
    action: StepAction,
    ctx: ExecutionContext,
    file: int,
    rule: int,
)
    requires
        policy.rules_enabled,
        0 <= file < action.target_files@.len(),
        0 <= rule < policy.blocked_paths.len(),
        rules::path_blocked(action.target_files@[file]@, policy.blocked_paths[rule]),
    ensures
        verification::verdict(
            verification::all_checks(policy, threats, lessons, action, ctx),
        ) is Fail,
{
    let files = text::strings(action.target_files@);
    lemma_blocking_rule_found(files[file], policy.blocked_paths, rule);
    lemma_objection_found(policy, files, file);
    let checks = verification::all_checks(policy, threats, lessons, action, ctx);
    assert(checks[0] == rules::rule_checks(policy, threats, action)[0]);
    assert(!checks[0].passed);
    law_decision(checks);
}

/// Where rules are checked and some paths are allowed, a step that touches a path
/// outside of them fails, whatever else holds of it.
pub proof fn law_path_outside_allowed_fails(
    policy: config::Policy,
    threats: Seq<patterns::Threat>,
    lessons: Seq<learned::Advice>,
    action: StepAction,
    ctx: ExecutionContext,
    file: int,
)
    requires
        policy.rules_enabled,
        policy.allowed_paths.len() > 0,
        0 <= file < action.target_files@.len(),
        !rules::any_allows(action.target_files@[file]@, policy.allowed_paths),
    ensures
        verification::verdict(
            verification::all_checks(policy, threats, lessons, action, ctx),
        ) is Fail,
{
    let files = text::strings(action.target_files@);
    lemma_objection_found(policy, files, file);
    let checks = verification::all_checks(policy, threats, lessons, action, ctx);
    assert(checks[0] == rules::rule_checks(policy, threats, action)[0]);
    assert(!checks[0].passed);
    law_decision(checks);
}

/// The path check objects exactly where one of the files has an objection.
pub proof fn law_path_check(policy: config::Policy, paths: Seq<Seq<char>>)
    ensures
        rules::paths_objection(policy, paths) is Some <==> exists|i: int|
            0 <= i < paths.len() && rules::path_objection(policy, #[trigger] paths[i]) is Some,
{
    if exists|i: int|
        0 <= i < paths.len() && rules::path_objection(policy, #[trigger] paths[i]) is Some {
        let i = choose|i: int|
            0 <= i < paths.len() && rules::path_objection(policy, #[trigger] paths[i]) is Some;
        lemma_objection_found(policy, paths, i);
    } else {
        lemma_no_objection(policy, paths);
    }
}

proof fn lemma_last_segment(dir: Seq<char>, name: Seq<char>)
    requires
        !name.contains('/'),
    ensures
        text::last_segment(dir.push('/') + name, '/') == name,
    decreases name.len(),
{
    let path = dir.push('/') + name;
    lemma_after_last_tail(dir, name);
    assert(path.skip(dir.len() as int + 1) =~= name);
}

proof fn lemma_after_last_tail(dir: Seq<char>, name: Seq<char>)
    requires
        !name.contains('/'),
    ensures
        text::after_last(dir.push('/') + name, '/') == dir.len() + 1,
    decreases name.len(),
{
    let path = dir.push('/') + name;
    if name.len() == 0 {
        assert(path.last() == '/');
    } else {
        assert(path.last() == name.last());
        assert(name[name.len() - 1] == name.last());
        assert(path.drop_last() =~= dir.push('/') + name.drop_last());
        assert(!name.drop_last().contains('/')) by {
            if name.drop_last().contains('/') {
                let k = choose|k: int|
                    0 <= k < name.drop_last().len() && name.drop_last()[k] == '/';
                assert(name[k] == '/');
            }
        }
        lemma_after_last_tail(dir, name.drop_last());
    }
}

/// A rule that begins with a dot blocks the files of exactly that name, in every
/// directory, and no file whose name only ends in it.
pub proof fn law_dotfile_rule(dir: Seq<char>, name: Seq<char>, rule: Seq<char>)
    requires
        seq!['.'].is_prefix_of(rule),
        !name.contains('/'),
    ensures
        rules::path_blocked(dir.push('/') + name, rule) <==> name == rule,
{
    lemma_last_segment(dir, name);
    assert(rule[0] == '.') by {
        assert(rule.subrange(0, 1)[0] == '.');
    }
    lemma_not_rooted(rule);
}

proof fn lemma_not_rooted(rule: Seq<char>)
    requires
        rule.len() > 0,
    ensures
        rule[0] != '/' ==> !seq!['/'].is_prefix_of(rule),
        rule[0] != '~' ==> !seq!['~', '/'].is_prefix_of(rule),
{
    if seq!['/'].is_prefix_of(rule) {
        assert(rule.subrange(0, 1)[0] == seq!['/'][0]);
    }
    if seq!['~', '/'].is_prefix_of(rule) {
        assert(rule.subrange(0, 2)[0] == seq!['~', '/'][0]);
    }
}

/// An absolute rule blocks itself and everything that begins with it, and a path
/// in which it only occurs further on is free of it.
pub proof fn law_absolute_rule(rule: Seq<char>, rest: Seq<char>, path: Seq<char>)
    requires
        seq!['/'].is_prefix_of(rule),
    ensures
        rules::path_blocked(rule + rest, rule),
        !rule.is_prefix_of(path) ==> !rules::path_blocked(path, rule),
{
    assert((rule + rest).subrange(0, rule.len() as int) =~= rule);
}

/// A rule below the home directory blocks what it names below any directory, and
/// everything inside.
pub proof fn law_home_rule(home: Seq<char>, below: Seq<char>, rest: Seq<char>)
    ensures
        rules::path_blocked(home.push('/') + below, seq!['~', '/'] + below),
        rules::path_blocked(home.push('/') + below.push('/') + rest, seq!['~', '/'] + below),
{
    let rule = seq!['~', '/'] + below;
    lemma_not_rooted(rule);
    assert(rule.subrange(0, 2) =~= seq!['~', '/']);
    assert(rule.skip(2) =~= below);
    let tail = seq!['/'] + below;
    let short = home.push('/') + below;
    assert(short.subrange(short.len() - tail.len(), short.len() as int) =~= tail);
    let long = home.push('/') + below.push('/') + rest;
    let inner = tail.push('/');
    assert(long.subrange(home.len() as int, home.len() as int + inner.len()) =~= inner);
    assert(text::occurs_at(long, inner, home.len() as int));
}

/// A plain rule blocks every path that has it as a component, and none in which it
/// is only a part of a component.
pub proof fn law_component_rule(before: Seq<char>, rule: Seq<char>, after: Seq<char>)
    requires
        rule.len() > 0,
        !rule.contains('/'),
        rule[0] != '~',
        rule[0] != '.',
    ensures
        rules::path_blocked(before.push('/') + rule + seq!['/'] + after, rule),
        rules::path_blocked(before.push('/') + rule, rule),
        rules::path_blocked(rule + seq!['/'] + after, rule),
        rules::path_blocked(rule, rule),
        forall|path: Seq<char>|
            (forall|i: int, j: int|
                #![trigger text::is_segment(path, '/', i, j)]
                text::is_segment(path, '/', i, j) ==> path.subrange(i, j) != rule)
                ==> !#[trigger] rules::path_blocked(path, rule),
{
    assert(rule[0] != '/') by {
        if rule[0] == '/' {
            assert(rule.contains('/'));
        }
    }
    lemma_not_rooted(rule);
    assert(!seq!['.'].is_prefix_of(rule)) by {
        if seq!['.'].is_prefix_of(rule) {
            assert(rule.subrange(0, 1)[0] == seq!['.'][0]);
        }
    }
    assert(forall|k: int| 0 <= k < rule.len() ==> rule.contains(#[trigger] rule[k]));
    let n = before.len() as int + 1;
    let m = rule.len() as int;
    let inner = before.push('/') + rule + seq!['/'] + after;
    assert(inner.subrange(n, n + m) =~= rule);
    assert(text::is_segment(inner, '/', n, n + m)) by {
        assert forall|k: int| n <= k < n + m implies inner[k] != '/' by {
            assert(inner[k] == rule[k - n]);
        }
    }
    let last = before.push('/') + rule;
    assert(last.subrange(n, n + m) =~= rule);
    assert(text::is_segment(last, '/', n, n + m)) by {
        assert forall|k: int| n <= k < n + m implies last[k] != '/' by {
            assert(last[k] == rule[k - n]);
        }
    }
    let first = rule + seq!['/'] + after;
    assert(first.subrange(0, m) =~= rule);
    assert(text::is_segment(first, '/', 0, m)) by {
        assert forall|k: int| 0 <= k < m implies first[k] != '/' by {
            assert(first[k] == rule[k]);
        }
    }
    assert(rule.subrange(0, m) =~= rule);
    assert(text::is_segment(rule, '/', 0, m));
}

// ── Plan ─────────────────────────────────────────────────────

/// Leaving the plan never fails a step, it only warns, and without a plan nothing is
/// said.
pub proof fn law_drift_only_warns(plan: Option<Seq<char>>, description: Seq<char>)
    ensures
        consistency::plan_check(plan, description).passed,
        plan is None ==> consistency::plan_check(plan, description).message is None,
{
}

}
