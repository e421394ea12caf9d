//! Verification of steps before they run.

use vstd::prelude::*;

use crate::config;
use crate::config::VerificationConfig;
use crate::learner::rules as learned;
use crate::learner::rules::LearnedRule;
use crate::outside;
use crate::text;
use crate::types::Check;
use crate::types::CheckResult;
use crate::types::ExecutionContext;
use crate::types::StepAction;
use crate::types::Verdict;
use crate::types::VerificationDecision;
use crate::types::VerificationOutcome;
use crate::verification::consistency::ConsistencyChecker;
use crate::verification::rules::RuleVerifier;

pub mod consistency;
pub mod consistency_laws;
pub mod laws;
pub mod patterns;
pub mod rule_laws;
pub mod rules;

verus! {

// ── Decision ─────────────────────────────────────────────────

/// The check objects and says why.
pub open spec fn objects(c: Check) -> bool {
    !c.passed && c.message is Some
}

/// The check passes with a warning.
pub open spec fn warns(c: Check) -> bool {
    c.passed && c.message is Some
}

/// The message of a check that has one.
pub open spec fn message_of(c: Check) -> Seq<char> {
    c.message->0
}

/// What is suggested after a check failed.
pub open spec fn suggestion_for(c: Check) -> Seq<char> {
    "Fix: address "@ + c.checker + " check"@
}

/// The strictest verdict that the checks call for.
pub open spec fn verdict(checks: Seq<Check>) -> Verdict {
    let failed = checks.filter(|c: Check| !c.passed);
    let warnings = checks.filter(|c: Check| warns(c));
    if failed.len() > 0 {
        Verdict::Fail {
            reasons: checks.filter(|c: Check| objects(c)).map_values(|c: Check| message_of(c)),
            suggestions: failed.map_values(|c: Check| suggestion_for(c)),
        }
    } else if warnings.len() > 0 {
        Verdict::Warn { reasons: warnings.map_values(|c: Check| message_of(c)) }
    } else {
        Verdict::Pass
    }
}

/// Filtering and mapping one element more adds at most its image.
proof fn lemma_collect_next<A, B>(
    s: Seq<A>,
    keep: spec_fn(A) -> bool,
    f: spec_fn(A) -> B,
    i: int,
)
    requires
        0 <= i < s.len(),
    ensures
        s.take(i + 1).filter(keep).map_values(f) == (if keep(s[i]) {
            s.take(i).filter(keep).map_values(f).push(f(s[i]))
        } else {
            s.take(i).filter(keep).map_values(f)
        }),
{
    patterns::lemma_filter_next(s, keep, i);
    let kept = s.take(i).filter(keep);
    if keep(s[i]) {
        assert((kept + seq![s[i]]).map_values(f) =~= kept.map_values(f).push(f(s[i])));
    } else {
        assert(kept + Seq::<A>::empty() =~= kept);
    }
}

/// The strictest decision that the checks call for.
pub fn decide(checks: &Vec<CheckResult>) -> (r: VerificationDecision)
    ensures
        r@ == verdict(crate::types::checks(checks@)),
{
    let ghost all = crate::types::checks(checks@);
    let ghost fails = |c: Check| !c.passed;
    let ghost objects_fn = |c: Check| objects(c);
    let ghost warns_fn = |c: Check| warns(c);
    let ghost message_fn = |c: Check| message_of(c);
    let ghost suggestion_fn = |c: Check| suggestion_for(c);
    let mut reasons: Vec<String> = Vec::new();
    let mut suggestions: Vec<String> = Vec::new();
    let mut warnings: Vec<String> = Vec::new();
    let mut i: usize = 0;
    proof {
        reveal(Seq::filter);
        let none = Seq::<Check>::empty();
        assert(all.take(0) =~= none);
        assert(text::strings(reasons@) =~= none.map_values(message_fn));
        assert(text::strings(suggestions@) =~= none.map_values(suggestion_fn));
        assert(text::strings(warnings@) =~= none.map_values(message_fn));
    }
    while i < checks.len()
        invariant
            i <= checks.len(),
            all == crate::types::checks(checks@),
            fails == (|c: Check| !c.passed),
            objects_fn == (|c: Check| objects(c)),
            warns_fn == (|c: Check| warns(c)),
            message_fn == (|c: Check| message_of(c)),
            suggestion_fn == (|c: Check| suggestion_for(c)),
            text::strings(reasons@) == all.take(i as int).filter(objects_fn).map_values(message_fn),
            text::strings(suggestions@) == all.take(i as int).filter(fails).map_values(
                suggestion_fn,
            ),
            text::strings(warnings@) == all.take(i as int).filter(warns_fn).map_values(message_fn),
        decreases checks.len() - i,
    {
        let c = &checks[i];
        let ghost before = (reasons@, suggestions@, warnings@);
        proof {
            assert(all[i as int] == c@);
            lemma_collect_next(all, objects_fn, message_fn, i as int);
            lemma_collect_next(all, fails, suggestion_fn, i as int);
            lemma_collect_next(all, warns_fn, message_fn, i as int);
        }
        if c.passed {
            match &c.message {
                Some(m) => {
                    warnings.push(m.clone());
                    assert(text::strings(warnings@) =~= text::strings(before.2).push(m@));
                },
                None => {},
            }
        } else {
            match &c.message {
                Some(m) => {
                    reasons.push(m.clone());
                    assert(text::strings(reasons@) =~= text::strings(before.0).push(m@));
                },
                None => {},
            }
            let mut s = "Fix: address ".to_string();
            s.append(c.checker_name.as_str());
            s.append(" check");
            suggestions.push(s);
            assert(text::strings(suggestions@) =~= text::strings(before.1).push(s@));
        }
        i += 1;
    }
    proof {
        assert(all.take(i as int) =~= all);
        assert(suggestions@.len() == text::strings(suggestions@).len());
        assert(warnings@.len() == text::strings(warnings@).len());
    }
    if suggestions.len() > 0 {
        VerificationDecision::Fail { reasons, suggestions }
    } else if warnings.len() > 0 {
        VerificationDecision::Warn { reasons: warnings }
    } else {
        VerificationDecision::Pass
    }
}

// ── Verifiers ────────────────────────────────────────────────

/// Something that verifies steps.
pub trait Verifier: Send + Sync {
    fn verify(&self, action: &StepAction, ctx: &ExecutionContext) -> VerificationOutcome;
}

/// Chains the rule checks, the consistency checks and the learned rules, and
/// returns the strictest result.
#[derive(Debug)]
pub struct CompositeVerifier {
    rules_enabled: bool,
    consistency_enabled: bool,
    rule_verifier: RuleVerifier,
    consistency_checker: ConsistencyChecker,
    learned_rules: Vec<LearnedRule>,
}

/// All checks of an action, in their order.
pub open spec fn all_checks(
    policy: config::Policy,
    threats: Seq<patterns::Threat>,
    lessons: Seq<learned::Advice>,
    action: StepAction,
    ctx: ExecutionContext,
) -> Seq<Check> {
    let by_rules = if policy.rules_enabled {
        rules::rule_checks(policy, threats, action)
    } else {
        Seq::empty()
    };
    let by_consistency = if policy.consistency_enabled {
        consistency::consistency_checks(ctx, action)
    } else {
        Seq::empty()
    };
    by_rules + by_consistency + lessons.map_values(
        |l: learned::Advice| learned::advice_check(l, action, ctx),
    )
}

impl CompositeVerifier {
    #[verifier::type_invariant]
    spec fn agrees(self) -> bool {
        &&& self.rules_enabled == self.rule_verifier.policy().rules_enabled
        &&& self.consistency_enabled == self.rule_verifier.policy().consistency_enabled
    }

    /// The rules that are applied.
    pub closed spec fn policy(self) -> config::Policy {
        self.rule_verifier.policy()
    }

    /// The threats that are looked for.
    pub closed spec fn threats(self) -> Seq<patterns::Threat> {
        self.rule_verifier.threats()
    }

    /// The learned rules.
    pub closed spec fn lessons(self) -> Seq<learned::Advice> {
        learned::advices(self.learned_rules@)
    }

    /// The checks of an action, in their order.
    pub open spec fn checks_for(self, action: StepAction, ctx: ExecutionContext) -> Seq<Check> {
        all_checks(self.policy(), self.threats(), self.lessons(), action, ctx)
    }

    pub fn new(config: VerificationConfig) -> (r: CompositeVerifier)
        ensures
            r.policy() == config@,
            r.threats() == patterns::usable_threats(),
            r.lessons() == Seq::<learned::Advice>::empty(),
    {
        let rules_enabled = config.rules_enabled;
        let consistency_enabled = config.consistency_enabled;
        let v = CompositeVerifier {
            rules_enabled,
            consistency_enabled,
            rule_verifier: RuleVerifier::new(config),
            consistency_checker: ConsistencyChecker::new(),
            learned_rules: Vec::new(),
        };
        assert(v.lessons() =~= Seq::<learned::Advice>::empty());
        v
    }

    /// The same verifier with these learned rules.
    pub fn with_learned_rules(self, rules: Vec<LearnedRule>) -> (r: CompositeVerifier)
        ensures
            r.policy() == self.policy(),
            r.threats() == self.threats(),
            r.lessons() == learned::advices(rules@),
    {
        proof {
            use_type_invariant(&self);
        }
        CompositeVerifier {
            rules_enabled: self.rules_enabled,
            consistency_enabled: self.consistency_enabled,
            rule_verifier: self.rule_verifier,
            consistency_checker: self.consistency_checker,
            learned_rules: rules,
        }
    }

    /// Runs every enabled check against the action.
    pub fn run_checks(&self, action: &StepAction, ctx: &ExecutionContext) -> (r: Vec<CheckResult>)
        ensures
            crate::types::checks(r@) == self.checks_for(*action, *ctx),
    {
        proof {
            use_type_invariant(self);
        }
        let mut out: Vec<CheckResult> = Vec::new();
        if self.rules_enabled {
            out = self.rule_verifier.check(action, ctx);
        }
        let ghost by_rules = crate::types::checks(out@);
        if self.consistency_enabled {
            let mut more = self.consistency_checker.check(action, ctx);
            let ghost added = crate::types::checks(more@);
            out.append(&mut more);
            assert(crate::types::checks(out@) =~= by_rules + added);
        }
        let ghost base = crate::types::checks(out@);
        let ghost apply = |l: learned::Advice| learned::advice_check(l, *action, *ctx);
        let ghost all = learned::advices(self.learned_rules@);
        let rules = &self.learned_rules;
        let mut i: usize = 0;
        assert(base =~= base + all.take(0).map_values(apply));
        while i < rules.len()
            invariant
                i <= rules.len(),
                rules == &self.learned_rules,
                all == learned::advices(rules@),
                apply == (|l: learned::Advice| learned::advice_check(l, *action, *ctx)),
                crate::types::checks(out@) == base + all.take(i as int).map_values(apply),
            decreases rules.len() - i,
        {
            let c = learned::evaluate_rule(&rules[i], action, ctx);
            let ghost before = crate::types::checks(out@);
            out.push(c);
            proof {
                assert(crate::types::checks(out@) =~= before.push(c@));
                assert(all.take(i + 1).map_values(apply) =~= all.take(i as int).map_values(
                    apply,
                ).push(c@));
                assert(before.push(c@) =~= base + all.take(i as int).map_values(apply).push(c@));
            }
            i += 1;
        }
        proof {
            assert(all.take(i as int) =~= all);
            let nothing = Seq::<Check>::empty();
            assert(by_rules == (if self.policy().rules_enabled {
                rules::rule_checks(self.policy(), self.threats(), *action)
            } else {
                nothing
            })) by {
                assert(!self.rules_enabled ==> by_rules =~= nothing);
            }
            assert(!self.consistency_enabled ==> base =~= by_rules + nothing);
        }
        out
    }
}

impl Verifier for CompositeVerifier {
    /// Runs every enabled check and decides by the strictest. How long that took
    /// is up to the clock.
    fn verify(&self, action: &StepAction, ctx: &ExecutionContext) -> (r: VerificationOutcome)
        ensures
            crate::types::checks(r.checks_performed@) == self.checks_for(*action, *ctx),
            r.decision@ == verdict(self.checks_for(*action, *ctx)),
    {
        let start = outside::clock_now();
        let checks = self.run_checks(action, ctx);
        let duration_ms = outside::clock_millis_since(&start);
        let decision = decide(&checks);
        VerificationOutcome { decision, checks_performed: checks, duration_ms }
    }
}

}
