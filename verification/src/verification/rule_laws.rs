//! What holds of the rule checks and of verdicts, said of actions, paths and texts.

use vstd::prelude::*;

use crate::config;
use crate::learner::rules as learned;
use crate::outside;
use crate::text;
use crate::types::Check;
use crate::types::ExecutionContext;
use crate::types::RiskLevel;
use crate::types::StepAction;
use crate::types::Verdict;
use crate::verification;
use crate::verification::consistency;
use crate::verification::laws;
use crate::verification::patterns;
use crate::verification::rules;

verus! {

// ── Commands ─────────────────────────────────────────────────

/// The command shows in the action: in lower case it occurs in the description and the
/// arguments, or it is an expression that is found there in any case.
pub open spec fn shows(action: StepAction, command: Seq<char>) -> bool {
    let whole = outside::lowercase(action.description@) + " "@ + outside::lowercase(
        action.arguments@,
    );
    ||| text::contains(whole, outside::lowercase(command))
    ||| outside::regex_valid("(?i)"@ + command) && outside::regex_found("(?i)"@ + command, whole)
}

proof fn lemma_no_command(searched: Seq<char>, commands: Seq<Seq<char>>)
    requires
        forall|i: int|
            0 <= i < commands.len() ==> !rules::command_found(searched, #[trigger] commands[i]),
    ensures
        rules::first_command(searched, commands) is None,
    decreases commands.len(),
{
    if commands.len() > 0 {
        assert(!rules::command_found(searched, commands[0]));
        assert forall|i: int| 0 <= i < commands.skip(1).len() implies !rules::command_found(
            searched,
            #[trigger] commands.skip(1)[i],
        ) by {
            assert(commands.skip(1)[i] == commands[i + 1]);
        }
        lemma_no_command(searched, commands.skip(1));
    }
}

proof fn lemma_first_command(searched: Seq<char>, commands: Seq<Seq<char>>, i: int)
    requires
        0 <= i < commands.len(),
        rules::command_found(searched, commands[i]),
        forall|j: int| 0 <= j < i ==> !rules::command_found(searched, #[trigger] commands[j]),
    ensures
        rules::first_command(searched, commands) == Some(commands[i]),
    decreases commands.len(),
{
    if i > 0 {
        assert(!rules::command_found(searched, commands[0]));
        let rest = commands.skip(1);
        assert(rest[i - 1] == commands[i]);
        assert forall|j: int| 0 <= j < i - 1 implies !rules::command_found(
            searched,
            #[trigger] rest[j],
        ) by {
            assert(rest[j] == commands[j + 1]);
        }
        lemma_first_command(searched, rest, i - 1);
    }
}

/// Something that holds of an index holds of a first one.
proof fn lemma_least(p: spec_fn(int) -> bool, i: int) -> (k: int)
    requires
        0 <= i,
        p(i),
    ensures
        0 <= k <= i,
        p(k),
        forall|j: int| 0 <= j < k ==> !#[trigger] p(j),
    decreases i,
{
    if exists|j: int| 0 <= j < i && #[trigger] p(j) {
        let j = choose|j: int| 0 <= j < i && #[trigger] p(j);
        lemma_least(p, j)
    } else {
        i
    }
}

/// The command check objects exactly where a blocked command shows in the action, and
/// names the first one that does, as it is configured.
pub proof fn law_command_check(
    policy: config::Policy,
    threats: Seq<patterns::Threat>,
    action: StepAction,
)
    ensures
        rules::rule_checks(policy, threats, action)[4].checker == "blocked_commands"@,
        !rules::rule_checks(policy, threats, action)[4].passed <==> exists|i: int|
            0 <= i < policy.blocked_commands.len() && shows(
                action,
                #[trigger] policy.blocked_commands[i],
            ),
        rules::rule_checks(policy, threats, action)[4].passed ==> rules::rule_checks(
            policy,
            threats,
            action,
        )[4].message is None,
        forall|i: int|
            0 <= i < policy.blocked_commands.len() && shows(
                action,
                #[trigger] policy.blocked_commands[i],
            ) && (forall|j: int|
                0 <= j < i ==> !shows(action, #[trigger] policy.blocked_commands[j]))
                ==> rules::rule_checks(policy, threats, action)[4].message == Some(
                "Blocked command pattern detected: "@ + policy.blocked_commands[i],
            ),
{
    let list = policy.blocked_commands;
    let whole = rules::command_text(action.description@, action.arguments@);
    assert forall|c: Seq<char>| #[trigger] shows(action, c) == rules::command_found(whole, c) by {}
    if exists|i: int| 0 <= i < list.len() && shows(action, #[trigger] list[i]) {
        let i = choose|i: int| 0 <= i < list.len() && shows(action, #[trigger] list[i]);
        let k = lemma_least(|j: int| shows(action, list[j]), i);
        assert forall|j: int| 0 <= j < k implies !rules::command_found(
            whole,
            #[trigger] list[j],
        ) by {
            assert(!(|j: int| shows(action, list[j]))(j));
        }
        lemma_first_command(whole, list, k);
    } else {
        assert forall|i: int| 0 <= i < list.len() implies !rules::command_found(
            whole,
            #[trigger] list[i],
        ) by {
            assert(!shows(action, list[i]));
        }
        lemma_no_command(whole, list);
    }
    assert forall|i: int|
        0 <= i < list.len() && shows(action, #[trigger] list[i]) && (forall|j: int|
            0 <= j < i ==> !shows(action, #[trigger] list[j])) implies rules::first_command(
        whole,
        list,
    ) == Some(list[i]) by {
        assert forall|j: int| 0 <= j < i implies !rules::command_found(
            whole,
            #[trigger] list[j],
        ) by {
            assert(!shows(action, list[j]));
        }
        lemma_first_command(whole, list, i);
    }
}

/// A command that occurs in the description or in the arguments alone, in whatever
/// case, shows in the action.
pub proof fn law_commands_show_in_either_text(action: StepAction, command: Seq<char>)
    ensures
        text::contains(
            outside::lowercase(action.description@),
            outside::lowercase(command),
        ) ==> shows(action, command),
        text::contains(
            outside::lowercase(action.arguments@),
            outside::lowercase(command),
        ) ==> shows(action, command),
{
    let d = outside::lowercase(action.description@);
    let a = outside::lowercase(action.arguments@);
    let c = outside::lowercase(command);
    let whole = d + " "@ + a;
    let n = (d + " "@).len();
    if text::contains(d, c) {
        let i = choose|i: int| #[trigger] text::occurs_at(d, c, i);
        assert(whole.subrange(i, i + c.len()) =~= d.subrange(i, i + c.len()));
        assert(text::occurs_at(whole, c, i));
    }
    if text::contains(a, c) {
        let i = choose|i: int| #[trigger] text::occurs_at(a, c, i);
        assert(whole.subrange(n + i, n + i + c.len()) =~= a.subrange(i, i + c.len()));
        assert(text::occurs_at(whole, c, n + i));
    }
}

// ── Threats ──────────────────────────────────────────────────

/// The threat shows in the action: its expression is found in the description, the
/// arguments and the files, one behind the other.
pub open spec fn threatens(action: StepAction, threat: patterns::Threat) -> bool {
    outside::regex_valid(threat.pattern) && outside::regex_found(
        threat.pattern,
        action.description@ + " "@ + action.arguments@ + " "@ + text::joined(
            text::strings(action.target_files@),
            " "@,
        ),
    )
}

proof fn lemma_filter_first<A>(s: Seq<A>, keep: spec_fn(A) -> bool, i: int)
    requires
        0 <= i < s.len(),
        keep(s[i]),
        forall|j: int| 0 <= j < i ==> !keep(#[trigger] s[j]),
    ensures
        s.filter(keep).len() > 0,
        s.filter(keep)[0] == s[i],
    decreases s.len(),
{
    reveal(Seq::filter);
    let rest = s.drop_last();
    if i < rest.len() {
        assert forall|j: int| 0 <= j < i implies !keep(#[trigger] rest[j]) by {
            assert(rest[j] == s[j]);
        }
        lemma_filter_first(rest, keep, i);
    } else {
        assert forall|j: int| 0 <= j < rest.len() implies !keep(#[trigger] rest[j]) by {
            assert(rest[j] == s[j]);
        }
        lemma_filter_nothing(rest, keep);
    }
}

proof fn lemma_filter_nothing<A>(s: Seq<A>, keep: spec_fn(A) -> bool)
    requires
        forall|j: int| 0 <= j < s.len() ==> !keep(#[trigger] s[j]),
    ensures
        s.filter(keep).len() == 0,
    decreases s.len(),
{
    reveal(Seq::filter);
    if s.len() > 0 {
        assert(!keep(s[s.len() - 1]));
        assert forall|j: int| 0 <= j < s.drop_last().len() implies !keep(
            #[trigger] s.drop_last()[j],
        ) by {
            assert(s.drop_last()[j] == s[j]);
        }
        lemma_filter_nothing(s.drop_last(), keep);
    }
}

/// The threat check objects exactly where a known threat shows in the action, and names
/// the first one that does with its description and its risk.
pub proof fn law_threat_check(
    policy: config::Policy,
    threats: Seq<patterns::Threat>,
    action: StepAction,
)
    ensures
        rules::rule_checks(policy, threats, action)[3].checker == "threat_patterns"@,
        !rules::rule_checks(policy, threats, action)[3].passed <==> exists|i: int|
            0 <= i < threats.len() && threatens(action, #[trigger] threats[i]),
        rules::rule_checks(policy, threats, action)[3].passed ==> rules::rule_checks(
            policy,
            threats,
            action,
        )[3].message is None,
        forall|i: int|
            0 <= i < threats.len() && threatens(action, #[trigger] threats[i]) && (forall|j: int|
                0 <= j < i ==> !threatens(action, #[trigger] threats[j])) ==> rules::rule_checks(
                policy,
                threats,
                action,
            )[3].message == Some(
                "Threat detected ["@ + threats[i].name + "]: "@ + threats[i].description
                    + " (risk: "@ + (match threats[i].risk {
                    RiskLevel::Low => "Low"@,
                    RiskLevel::Medium => "Medium"@,
                    RiskLevel::High => "High"@,
                    RiskLevel::Critical => "Critical"@,
                }) + ")"@,
            ),
{
    let searched = rules::threat_text(action);
    let keep = |t: patterns::Threat| t.found_in(searched);
    assert forall|t: patterns::Threat| #[trigger] threatens(action, t) == keep(t) by {}
    if exists|i: int| 0 <= i < threats.len() && threatens(action, #[trigger] threats[i]) {
        let i = choose|i: int| 0 <= i < threats.len() && threatens(action, #[trigger] threats[i]);
        let k = lemma_least(|j: int| threatens(action, threats[j]), i);
        assert forall|j: int| 0 <= j < k implies !keep(#[trigger] threats[j]) by {
            assert(!(|j: int| threatens(action, threats[j]))(j));
        }
        lemma_filter_first(threats, keep, k);
    } else {
        assert forall|j: int| 0 <= j < threats.len() implies !keep(#[trigger] threats[j]) by {
            assert(!threatens(action, threats[j]));
        }
        lemma_filter_nothing(threats, keep);
    }
    assert forall|i: int|
        0 <= i < threats.len() && threatens(action, #[trigger] threats[i]) && (forall|j: int|
            0 <= j < i ==> !threatens(action, #[trigger] threats[j])) implies threats.filter(
        keep,
    ).len() > 0 && threats.filter(keep)[0] == threats[i] by {
        assert forall|j: int| 0 <= j < i implies !keep(#[trigger] threats[j]) by {
            assert(!threatens(action, threats[j]));
        }
        lemma_filter_first(threats, keep, i);
    }
}

/// Every known expression is looked for: an action in which one of them is found has a
/// threat of this name and this risk.
pub proof fn law_known_threats(k: int)
    requires
        0 <= k < 10,
    ensures
        patterns::built_in().len() == 10,
        ({
            let t = patterns::built_in()[k];
            ||| k == 0 && t.name == "reverse_shell"@ && t.risk == RiskLevel::Critical && t.pattern
                == r"(?i)(nc|ncat|netcat)\s+-[elp]|/dev/tcp/|bash\s+-i\s+>&|mkfifo.*/tmp/"@
            ||| k == 1 && t.name == "token_exfil"@ && t.risk == RiskLevel::Critical && t.pattern
                == r"(?i)(curl|wget|fetch).*(\$\{?[A-Z_]*TOKEN|API_KEY|SECRET|PASSWORD)"@
            ||| k == 2 && t.name == "crypto_miner"@ && t.risk == RiskLevel::Critical && t.pattern
                == r"(?i)(xmrig|minerd|cgminer|stratum\+tcp://|cryptonight)"@
            ||| k == 3 && t.name == "priv_escalation"@ && t.risk == RiskLevel::High && t.pattern
                == r"(?i)(sudo\s+chmod\s+[47]777\s+/|chmod\s+u\+s|chown\s+root)"@
            ||| k == 4 && t.name == "data_exfil"@ && t.risk == RiskLevel::Critical && t.pattern
                == r"(?i)(curl|wget|nc)\s+.*<\s*(\/etc\/passwd|\/etc\/shadow|~\/\.ssh)|(\/etc\/passwd|\/etc\/shadow|~\/\.ssh).*\|\s*(curl|wget|nc)\s"@
            ||| k == 5 && t.name == "eval_injection"@ && t.risk == RiskLevel::High && t.pattern
                == r"(?i)(eval\s*\(|exec\s*\(|os\.system\s*\().*base64"@
            ||| k == 6 && t.name == "fork_bomb"@ && t.risk == RiskLevel::Critical && t.pattern
                == r":\(\)\{.*\|.*&\s*\}\s*;"@
            ||| k == 7 && t.name == "disk_wipe"@ && t.risk == RiskLevel::Critical && t.pattern
                == r"(?i)(dd\s+if=/dev/(zero|random)|mkfs\s|shred\s+-)"@
            ||| k == 8 && t.name == "env_dump"@ && t.risk == RiskLevel::High && t.pattern
                == r"(?i)(printenv|env\s*$|set\s*$|export\s+-p).*>"@
            ||| k == 9 && t.name == "ssh_key_theft"@ && t.risk == RiskLevel::Critical && t.pattern
                == r"(?i)(cat|cp|scp|rsync).*~?/\.ssh/(id_rsa|id_ed25519|authorized_keys)"@
        }),
        outside::regex_valid(patterns::built_in()[k].pattern) ==> patterns::usable_threats().contains(
            patterns::built_in()[k],
        ),
{
    crate::verification::consistency_laws::lemma_filter_member(
        patterns::built_in(),
        |t: patterns::Threat| t.usable(),
        patterns::built_in()[k],
    );
    assert(patterns::built_in().contains(patterns::built_in()[k]));
}

// ── Files and confirmation ───────────────────────────────────

/// The file check objects exactly where there are more files than allowed, and tells
/// both numbers.
pub proof fn law_file_check(
    policy: config::Policy,
    threats: Seq<patterns::Threat>,
    action: StepAction,
)
    ensures
        rules::rule_checks(policy, threats, action)[1].checker == "max_files"@,
        rules::rule_checks(policy, threats, action)[1].passed <==> action.target_files@.len()
            <= policy.max_files_per_step,
        rules::rule_checks(policy, threats, action)[1].message == (if action.target_files@.len()
            <= policy.max_files_per_step {
            None
        } else {
            Some(
                "Too many files affected: "@ + text::decimal(action.target_files@.len())
                    + " (max: "@ + text::decimal(policy.max_files_per_step) + ")"@,
            )
        }),
{
}

/// Confirmation is asked for exactly where the name of the action type is listed. That
/// is a warning, never an objection.
pub proof fn law_confirmation_check(
    policy: config::Policy,
    threats: Seq<patterns::Threat>,
    action: StepAction,
)
    ensures
        rules::rule_checks(policy, threats, action)[2].checker == "confirmation_required"@,
        rules::rule_checks(policy, threats, action)[2].passed,
        rules::rule_checks(policy, threats, action)[2].message == (if exists|i: int|
            0 <= i < policy.require_confirmation_for.len()
                && #[trigger] policy.require_confirmation_for[i] == action.action_type@.name() {
            Some("Action type '"@ + action.action_type@.name() + "' requires confirmation"@)
        } else {
            None
        }),
{
}

// ── Paths ────────────────────────────────────────────────────

/// The path may not be touched: a rule blocks it, or there are allowed paths and it is
/// none of them.
pub open spec fn forbidden(policy: config::Policy, path: Seq<char>) -> bool {
    ||| exists|r: int|
        0 <= r < policy.blocked_paths.len() && rules::path_blocked(
            path,
            #[trigger] policy.blocked_paths[r],
        )
    ||| policy.allowed_paths.len() > 0 && forall|r: int|
        0 <= r < policy.allowed_paths.len() ==> !rules::path_allowed(
            path,
            #[trigger] policy.allowed_paths[r],
        )
}

proof fn lemma_first_blocking(path: Seq<char>, list: Seq<Seq<char>>, r: int)
    requires
        0 <= r < list.len(),
        rules::path_blocked(path, list[r]),
        forall|j: int| 0 <= j < r ==> !rules::path_blocked(path, #[trigger] list[j]),
    ensures
        rules::first_blocking(path, list) == Some(list[r]),
    decreases list.len(),
{
    if r > 0 {
        assert(!rules::path_blocked(path, list[0]));
        let rest = list.skip(1);
        assert(rest[r - 1] == list[r]);
        assert forall|j: int| 0 <= j < r - 1 implies !rules::path_blocked(
            path,
            #[trigger] rest[j],
        ) by {
            assert(rest[j] == list[j + 1]);
        }
        lemma_first_blocking(path, rest, r - 1);
    }
}

proof fn lemma_none_blocking(path: Seq<char>, list: Seq<Seq<char>>)
    requires
        forall|j: int| 0 <= j < list.len() ==> !rules::path_blocked(path, #[trigger] list[j]),
    ensures
        rules::first_blocking(path, list) is None,
    decreases list.len(),
{
    if list.len() > 0 {
        assert(!rules::path_blocked(path, list[0]));
        assert forall|j: int| 0 <= j < list.skip(1).len() implies !rules::path_blocked(
            path,
            #[trigger] list.skip(1)[j],
        ) by {
            assert(list.skip(1)[j] == list[j + 1]);
        }
        lemma_none_blocking(path, list.skip(1));
    }
}

/// What is said of a path that may not be touched: the first rule that blocks it, or
/// that it is not among the allowed ones.
pub proof fn law_path_words(policy: config::Policy, path: Seq<char>)
    ensures
        rules::path_objection(policy, path) is Some <==> forbidden(policy, path),
        forall|r: int|
            0 <= r < policy.blocked_paths.len() && rules::path_blocked(
                path,
                #[trigger] policy.blocked_paths[r],
            ) && (forall|j: int|
                0 <= j < r ==> !rules::path_blocked(path, #[trigger] policy.blocked_paths[j]))
                ==> rules::path_objection(policy, path) == Some(
                "Access to blocked path: "@ + path + " (matches "@ + policy.blocked_paths[r]
                    + ")"@,
            ),
        forbidden(policy, path) && (forall|r: int|
            0 <= r < policy.blocked_paths.len() ==> !rules::path_blocked(
                path,
                #[trigger] policy.blocked_paths[r],
            )) ==> rules::path_objection(policy, path) == Some(
            "Path not in allowed list: "@ + path,
        ),
{
    let list = policy.blocked_paths;
    if exists|r: int| 0 <= r < list.len() && rules::path_blocked(path, #[trigger] list[r]) {
        let r = choose|r: int| 0 <= r < list.len() && rules::path_blocked(path, #[trigger] list[r]);
        let k = lemma_least(|j: int| rules::path_blocked(path, list[j]), r);
        assert forall|j: int| 0 <= j < k implies !rules::path_blocked(
            path,
            #[trigger] list[j],
        ) by {
            assert(!(|j: int| rules::path_blocked(path, list[j]))(j));
        }
        lemma_first_blocking(path, list, k);
    } else {
        lemma_none_blocking(path, list);
        if policy.allowed_paths.len() > 0 {
            if rules::any_allows(path, policy.allowed_paths) {
                let r = choose|r: int|
                    0 <= r < policy.allowed_paths.len() && rules::path_allowed(
                        path,
                        #[trigger] policy.allowed_paths[r],
                    );
                assert(rules::path_allowed(path, policy.allowed_paths[r]));
            }
        }
    }
    assert forall|r: int|
        0 <= r < list.len() && rules::path_blocked(path, #[trigger] list[r]) && (forall|j: int|
            0 <= j < r ==> !rules::path_blocked(
                path,
                #[trigger] list[j],
            )) implies rules::first_blocking(path, list) == Some(list[r]) by {
        lemma_first_blocking(path, list, r);
    }
}

proof fn lemma_first_path(policy: config::Policy, paths: Seq<Seq<char>>, i: int)
    requires
        0 <= i < paths.len(),
        rules::path_objection(policy, paths[i]) is Some,
        forall|j: int| 0 <= j < i ==> rules::path_objection(policy, #[trigger] paths[j]) is None,
    ensures
        rules::paths_objection(policy, paths) == rules::path_objection(policy, paths[i]),
    decreases paths.len(),
{
    if i > 0 {
        assert(rules::path_objection(policy, paths[0]) is None);
        let rest = paths.skip(1);
        assert(rest[i - 1] == paths[i]);
        assert forall|j: int| 0 <= j < i - 1 implies rules::path_objection(
            policy,
            #[trigger] rest[j],
        ) is None by {
            assert(rest[j] == paths[j + 1]);
        }
        lemma_first_path(policy, rest, i - 1);
    }
}

/// The path check objects exactly where one of the files may not be touched, and says
/// what is said of the first such file.
pub proof fn law_path_check_of_an_action(
    policy: config::Policy,
    threats: Seq<patterns::Threat>,
    action: StepAction,
)
    ensures
        rules::rule_checks(policy, threats, action).len() == 5,
        rules::rule_checks(policy, threats, action)[0].checker == "blocked_paths"@,
        !rules::rule_checks(policy, threats, action)[0].passed <==> exists|i: int|
            0 <= i < action.target_files@.len() && forbidden(
                policy,
                (#[trigger] action.target_files@[i])@,
            ),
        rules::rule_checks(policy, threats, action)[0].passed ==> rules::rule_checks(
            policy,
            threats,
            action,
        )[0].message is None,
        forall|i: int|
            0 <= i < action.target_files@.len() && forbidden(
                policy,
                (#[trigger] action.target_files@[i])@,
            ) && (forall|j: int|
                0 <= j < i ==> !forbidden(policy, (#[trigger] action.target_files@[j])@))
                ==> rules::rule_checks(policy, threats, action)[0].message
                == rules::path_objection(policy, action.target_files@[i]@),
{
    let paths = text::strings(action.target_files@);
    assert forall|i: int| 0 <= i < paths.len() implies rules::path_objection(
        policy,
        #[trigger] paths[i],
    ) is Some == forbidden(policy, action.target_files@[i]@) by {
        law_path_words(policy, paths[i]);
    }
    laws::law_path_check(policy, paths);
    if rules::paths_objection(policy, paths) is Some {
        let i = choose|i: int|
            0 <= i < paths.len() && rules::path_objection(policy, #[trigger] paths[i]) is Some;
        assert(forbidden(policy, action.target_files@[i]@));
    }
    if exists|i: int|
        0 <= i < action.target_files@.len() && forbidden(
            policy,
            (#[trigger] action.target_files@[i])@,
        ) {
        let i = choose|i: int|
            0 <= i < action.target_files@.len() && forbidden(
                policy,
                (#[trigger] action.target_files@[i])@,
            );
        assert(rules::path_objection(policy, paths[i]) is Some);
    }
    assert forall|i: int|
        0 <= i < action.target_files@.len() && forbidden(
            policy,
            (#[trigger] action.target_files@[i])@,
        ) && (forall|j: int|
            0 <= j < i ==> !forbidden(
                policy,
                (#[trigger] action.target_files@[j])@,
            )) implies rules::paths_objection(policy, paths) == rules::path_objection(
        policy,
        action.target_files@[i]@,
    ) by {
        assert(rules::path_objection(policy, paths[i]) is Some);
        assert forall|j: int| 0 <= j < i implies rules::path_objection(
            policy,
            #[trigger] paths[j],
        ) is None by {
            assert(!forbidden(policy, action.target_files@[j]@));
        }
        lemma_first_path(policy, paths, i);
    }
}

/// An allowed path admits itself and whatever begins with it. One below the home
/// directory also admits every path in which the rest of it occurs. Nothing else is
/// admitted.
pub proof fn law_allowed_rule(path: Seq<char>, rule: Seq<char>, rest: Seq<char>, below: Seq<char>)
    ensures
        rules::path_allowed(rule + rest, rule),
        text::contains(path, below) ==> rules::path_allowed(path, seq!['~', '/'] + below),
        !rule.is_prefix_of(path) && !(rule.len() >= 2 && rule[0] == '~' && rule[1] == '/')
            ==> !rules::path_allowed(path, rule),
        !(seq!['~', '/'] + below).is_prefix_of(path) && !text::contains(path, below)
            ==> !rules::path_allowed(path, seq!['~', '/'] + below),
{
    assert((rule + rest).subrange(0, rule.len() as int) =~= rule);
    let home = seq!['~', '/'] + below;
    assert(home.subrange(0, 2) =~= seq!['~', '/']);
    assert(home.skip(2) =~= below);
    if seq!['~', '/'].is_prefix_of(rule) {
        assert(rule.subrange(0, 2)[0] == '~' && rule.subrange(0, 2)[1] == '/');
    }
}

/// A rule below the home directory blocks exactly the paths that end in what it names,
/// behind a slash, or have it between two slashes.
pub proof fn law_home_rule_blocks_nothing_else(path: Seq<char>, below: Seq<char>)
    ensures
        rules::path_blocked(path, seq!['~', '/'] + below) <==> {
            ||| exists|front: Seq<char>| path == #[trigger] (front + (seq!['/'] + below))
            ||| text::contains(path, seq!['/'] + below + seq!['/'])
        },
{
    let rule = seq!['~', '/'] + below;
    assert(rule.subrange(0, 2) =~= seq!['~', '/']);
    assert(rule.skip(2) =~= below);
    assert(rule[0] == '~');
    if seq!['/'].is_prefix_of(rule) {
        assert(rule.subrange(0, 1)[0] == '/');
    }
    let tail = seq!['/'] + below;
    assert(tail.push('/') =~= seq!['/'] + below + seq!['/']);
    if tail.is_suffix_of(path) {
        assert(path =~= path.take(path.len() - tail.len()) + tail);
    }
    if exists|front: Seq<char>| path == #[trigger] (front + tail) {
        let front = choose|front: Seq<char>| path == #[trigger] (front + tail);
        assert(path.subrange(path.len() - tail.len(), path.len() as int) =~= tail);
    }
}

/// A plain rule blocks exactly the paths that have it as a component: alone, or between
/// slashes and the ends of the path. One that holds a slash itself blocks nothing.
pub proof fn law_plain_rule(path: Seq<char>, rule: Seq<char>)
    requires
        rule.len() > 0 ==> rule[0] != '/' && rule[0] != '.',
        rule.len() >= 2 ==> !(rule[0] == '~' && rule[1] == '/'),
    ensures
        rules::path_blocked(path, rule) <==> !rule.contains('/') && exists|
            before: Seq<char>,
            after: Seq<char>,
        |
            path == #[trigger] (before + rule + after) && (before.len() == 0 || before.last()
                == '/') && (after.len() == 0 || after[0] == '/'),
{
    if seq!['/'].is_prefix_of(rule) {
        assert(rule.subrange(0, 1)[0] == '/');
    }
    if seq!['.'].is_prefix_of(rule) {
        assert(rule.subrange(0, 1)[0] == '.');
    }
    if seq!['~', '/'].is_prefix_of(rule) {
        assert(rule.subrange(0, 2)[0] == '~' && rule.subrange(0, 2)[1] == '/');
    }
    if text::has_segment(path, '/', rule) {
        let (i, j) = choose|i: int, j: int| #[trigger]
            text::is_segment(path, '/', i, j) && path.subrange(i, j) == rule;
        let before = path.take(i);
        let after = path.skip(j);
        assert(path =~= before + rule + after);
        assert forall|k: int| 0 <= k < rule.len() implies rule[k] != '/' by {
            assert(rule[k] == path[i + k]);
        }
    }
    if !rule.contains('/') && exists|before: Seq<char>, after: Seq<char>|
        path == #[trigger] (before + rule + after) && (before.len() == 0 || before.last() == '/')
            && (after.len() == 0 || after[0] == '/') {
        let (before, after) = choose|before: Seq<char>, after: Seq<char>|
            path == #[trigger] (before + rule + after) && (before.len() == 0 || before.last()
                == '/') && (after.len() == 0 || after[0] == '/');
        let i = before.len() as int;
        let j = i + rule.len();
        assert(path.subrange(i, j) =~= rule);
        assert(text::is_segment(path, '/', i, j)) by {
            if i > 0 {
                assert(path[i - 1] == before.last());
            }
            if j < path.len() {
                assert(path[j] == after[0]);
            }
            assert forall|k: int| i <= k < j implies path[k] != '/' by {
                assert(path[k] == rule[k - i]);
                assert(rule.contains(rule[k - i]));
            }
        }
    }
}

/// A rule that begins with a dot blocks a file without a directory exactly where it is
/// its name.
pub proof fn law_dotfile_without_directory(name: Seq<char>, rule: Seq<char>)
    requires
        rule.len() > 0,
        rule[0] == '.',
        !name.contains('/'),
    ensures
        rules::path_blocked(name, rule) <==> name == rule,
{
    assert(rule.subrange(0, 1) =~= seq!['.']);
    if seq!['/'].is_prefix_of(rule) {
        assert(rule.subrange(0, 1)[0] == '/');
    }
    if seq!['~', '/'].is_prefix_of(rule) {
        assert(rule.subrange(0, 2)[0] == '~');
    }
    lemma_no_separator(name);
    assert(name.skip(0) =~= name);
}

proof fn lemma_no_separator(name: Seq<char>)
    requires
        !name.contains('/'),
    ensures
        text::after_last(name, '/') == 0,
    decreases name.len(),
{
    if name.len() > 0 {
        assert(name[name.len() - 1] == name.last());
        assert(!name.drop_last().contains('/')) by {
            if name.drop_last().contains('/') {
                let k = choose|k: int|
                    0 <= k < name.drop_last().len() && name.drop_last()[k] == '/';
                assert(name[k] == '/');
            }
        }
        lemma_no_separator(name.drop_last());
    }
}

// ── Verdicts ─────────────────────────────────────────────────

/// The reasons of verdicts are collected in order: where two lists of checks both fail,
/// or both only warn, the reasons of the first come before those of the second; and
/// where one of them fails, those of the other one count only if it fails too.
pub proof fn law_reasons_are_collected(a: Seq<Check>, b: Seq<Check>)
    ensures
        verification::verdict(a) is Fail && verification::verdict(b) is Fail
            ==> verification::verdict(a + b) == (Verdict::Fail {
            reasons: verification::verdict(a)->Fail_reasons
                + verification::verdict(b)->Fail_reasons,
            suggestions: verification::verdict(a)->suggestions
                + verification::verdict(b)->suggestions,
        }),
        verification::verdict(a) is Warn && verification::verdict(b) is Warn
            ==> verification::verdict(a + b) == (Verdict::Warn {
            reasons: verification::verdict(a)->Warn_reasons
                + verification::verdict(b)->Warn_reasons,
        }),
        !(verification::verdict(b) is Fail) && verification::verdict(a) is Fail
            ==> verification::verdict(a + b) == verification::verdict(a),
        !(verification::verdict(a) is Fail) && verification::verdict(b) is Fail
            ==> verification::verdict(a + b) == verification::verdict(b),
        verification::verdict(a) is Pass ==> verification::verdict(a + b) == verification::verdict(
            b,
        ),
        verification::verdict(b) is Pass ==> verification::verdict(a + b) == verification::verdict(
            a,
        ),
{
    let fails = |c: Check| !c.passed;
    let warns = |c: Check| verification::warns(c);
    let objects = |c: Check| verification::objects(c);
    let message = |c: Check| verification::message_of(c);
    let suggestion = |c: Check| verification::suggestion_for(c);
    Seq::filter_distributes_over_add(a, b, fails);
    Seq::filter_distributes_over_add(a, b, warns);
    Seq::filter_distributes_over_add(a, b, objects);
    lemma_map_add(a.filter(fails), b.filter(fails), suggestion);
    lemma_map_add(a.filter(warns), b.filter(warns), message);
    lemma_map_add(a.filter(objects), b.filter(objects), message);
    lemma_stronger_nothing(a, fails, objects);
    lemma_stronger_nothing(b, fails, objects);
    let none = Seq::<Check>::empty();
    if a.filter(fails).len() == 0 {
        assert(a.filter(fails) =~= none);
        assert(a.filter(objects) =~= none);
        assert(none.map_values(message) + b.filter(objects).map_values(message) =~= b.filter(
            objects,
        ).map_values(message));
        assert(none.map_values(suggestion) + b.filter(fails).map_values(suggestion) =~= b.filter(
            fails,
        ).map_values(suggestion));
    }
    if b.filter(fails).len() == 0 {
        assert(b.filter(fails) =~= none);
        assert(b.filter(objects) =~= none);
        assert(a.filter(objects).map_values(message) + none.map_values(message) =~= a.filter(
            objects,
        ).map_values(message));
        assert(a.filter(fails).map_values(suggestion) + none.map_values(suggestion) =~= a.filter(
            fails,
        ).map_values(suggestion));
    }
    if a.filter(warns).len() == 0 {
        assert(a.filter(warns) =~= none);
        assert(none.map_values(message) + b.filter(warns).map_values(message) =~= b.filter(
            warns,
        ).map_values(message));
    }
    if b.filter(warns).len() == 0 {
        assert(b.filter(warns) =~= none);
        assert(a.filter(warns).map_values(message) + none.map_values(message) =~= a.filter(
            warns,
        ).map_values(message));
    }
}

proof fn lemma_stronger_nothing<A>(s: Seq<A>, weak: spec_fn(A) -> bool, strong: spec_fn(A) -> bool)
    requires
        forall|x: A| #[trigger] strong(x) ==> weak(x),
    ensures
        s.filter(weak).len() == 0 ==> s.filter(strong).len() == 0,
    decreases s.len(),
{
    reveal(Seq::filter);
    if s.len() > 0 {
        lemma_stronger_nothing(s.drop_last(), weak, strong);
    }
}

proof fn lemma_map_add<A, B>(a: Seq<A>, b: Seq<A>, f: spec_fn(A) -> B)
    ensures
        (a + b).map_values(f) == a.map_values(f) + b.map_values(f),
{
    assert((a + b).map_values(f) =~= a.map_values(f) + b.map_values(f));
}

/// The verdict on a single check: an objection fails with its message and advice to
/// address the check, a message alone warns, and silence passes.
pub proof fn law_single_check(c: Check)
    ensures
        !c.passed && c.message is Some ==> verification::verdict(seq![c]) == (Verdict::Fail {
            reasons: seq![c.message->0],
            suggestions: seq!["Fix: address "@ + c.checker + " check"@],
        }),
        !c.passed && c.message is None ==> verification::verdict(seq![c]) == (Verdict::Fail {
            reasons: Seq::empty(),
            suggestions: seq!["Fix: address "@ + c.checker + " check"@],
        }),
        c.passed && c.message is Some ==> verification::verdict(seq![c]) == (Verdict::Warn {
            reasons: seq![c.message->0],
        }),
        c.passed && c.message is None ==> verification::verdict(seq![c]) is Pass,
{
    let message = |c: Check| verification::message_of(c);
    let suggestion = |c: Check| verification::suggestion_for(c);
    patterns::lemma_filter_one(c, |c: Check| !c.passed);
    patterns::lemma_filter_one(c, |c: Check| verification::warns(c));
    patterns::lemma_filter_one(c, |c: Check| verification::objects(c));
    assert(seq![c].map_values(message) =~= seq![verification::message_of(c)]);
    assert(seq![c].map_values(suggestion) =~= seq![verification::suggestion_for(c)]);
    assert(Seq::<Check>::empty().map_values(message) =~= Seq::<Seq<char>>::empty());
}

/// A step fails exactly where rules are checked and a path, the number of files, a
/// threat or a command speaks against it, or where consistency is checked and an earlier
/// step does. Plans, confirmation and learned rules never fail a step.
pub proof fn law_what_fails_a_step(
    policy: config::Policy,
    threats: Seq<patterns::Threat>,
    lessons: Seq<learned::Advice>,
    action: StepAction,
    ctx: ExecutionContext,
)
    ensures
        verification::verdict(
            verification::all_checks(policy, threats, lessons, action, ctx),
        ) is Fail <==> {
            ||| policy.rules_enabled && {
                ||| exists|i: int|
                    0 <= i < action.target_files@.len() && forbidden(
                        policy,
                        (#[trigger] action.target_files@[i])@,
                    )
                ||| action.target_files@.len() > policy.max_files_per_step
                ||| exists|i: int|
                    0 <= i < threats.len() && threatens(action, #[trigger] threats[i])
                ||| exists|i: int|
                    0 <= i < policy.blocked_commands.len() && shows(
                        action,
                        #[trigger] policy.blocked_commands[i],
                    )
            }
            ||| policy.consistency_enabled && (!consistency::consistency_checks(
                ctx,
                action,
            )[0].passed || !consistency::consistency_checks(ctx, action)[1].passed)
        },
{
    law_path_check_of_an_action(policy, threats, action);
    law_file_check(policy, threats, action);
    law_confirmation_check(policy, threats, action);
    law_threat_check(policy, threats, action);
    law_command_check(policy, threats, action);
    crate::verification::consistency_laws::law_plan_check(ctx, action);
    laws::law_learned_rules_never_block(policy, threats, lessons, action, ctx);
    let checks = verification::all_checks(policy, threats, Seq::empty(), action, ctx);
    let by_rules = rules::rule_checks(policy, threats, action);
    let by_history = consistency::consistency_checks(ctx, action);
    laws::law_decision(checks);
    let at = if policy.rules_enabled {
        5int
    } else {
        0
    };
    assert(Seq::<learned::Advice>::empty().map_values(
        |l: learned::Advice| learned::advice_check(l, action, ctx),
    ).len() == 0);
    if policy.rules_enabled {
        assert(forall|k: int| 0 <= k < 5 ==> checks[k] == #[trigger] by_rules[k]);
    }
    if policy.consistency_enabled {
        assert(forall|k: int| 0 <= k < 3 ==> checks[at + k] == #[trigger] by_history[k]);
    }
    if verification::verdict(checks) is Fail {
        let k = choose|k: int| 0 <= k < checks.len() && !(#[trigger] checks[k]).passed;
        if k < at {
            assert(checks[k] == by_rules[k]);
        } else {
            assert(checks[k] == by_history[k - at]);
        }
    }
}

/// Which checks are made: five by the rules where they are enabled, three by consistency
/// where it is enabled, and one for each learned rule, under its name.
pub proof fn law_check_names(
    policy: config::Policy,
    threats: Seq<patterns::Threat>,
    lessons: Seq<learned::Advice>,
    action: StepAction,
    ctx: ExecutionContext,
)
    ensures
        verification::all_checks(policy, threats, lessons, action, ctx).map_values(
            |c: Check| c.checker,
        ) == (if policy.rules_enabled {
            seq![
                "blocked_paths"@,
                "max_files"@,
                "confirmation_required"@,
                "threat_patterns"@,
                "blocked_commands"@,
            ]
        } else {
            Seq::empty()
        }) + (if policy.consistency_enabled {
            seq!["contradictions"@, "loop_trap"@, "plan_deviation"@]
        } else {
            Seq::empty()
        }) + lessons.map_values(|l: learned::Advice| l.name),
{
    let all = verification::all_checks(policy, threats, lessons, action, ctx);
    assert(all.map_values(|c: Check| c.checker) =~= (if policy.rules_enabled {
        seq![
            "blocked_paths"@,
            "max_files"@,
            "confirmation_required"@,
            "threat_patterns"@,
            "blocked_commands"@,
        ]
    } else {
        Seq::empty()
    }) + (if policy.consistency_enabled {
        seq!["contradictions"@, "loop_trap"@, "plan_deviation"@]
    } else {
        Seq::empty()
    }) + lessons.map_values(|l: learned::Advice| l.name));
}

/// The policy that holds where nothing else is configured blocks these commands and
/// these paths, allows every other path, and asks for confirmation before deletions and
/// executions.
pub proof fn law_default_policy(command: Seq<char>, path: Seq<char>, action_name: Seq<char>)
    ensures
        config::default_policy().enabled,
        config::default_policy().rules_enabled,
        config::default_policy().consistency_enabled,
        config::default_policy().max_files_per_step == 20,
        config::default_policy().allowed_paths.len() == 0,
        config::default_policy().blocked_commands.contains(command) <==> command == "rm -rf /"@
            || command == "rm -rf /*"@ || command == "mkfs"@ || command == "dd if=/dev/zero"@
            || command == ":(){:|:&};:"@ || command == "chmod -R 777 /"@ || command
            == r"curl\s.*\|\s*(ba)?sh"@ || command == r"wget\s.*\|\s*(ba)?sh"@,
        config::default_policy().blocked_paths.contains(path) <==> path == "/etc/passwd"@ || path
            == "/etc/shadow"@ || path == "~/.ssh"@ || path == "~/.aws/credentials"@ || path
            == "~/.aws/config"@ || path == ".env"@ || path == ".env.local"@ || path
            == ".env.production"@ || path == "secrets"@,
        config::default_policy().require_confirmation_for.contains(action_name) <==> action_name
            == "delete"@ || action_name == "execute"@,
{
    let p = config::default_policy();
    let c = p.blocked_commands;
    assert(c[0] == "rm -rf /"@ && c[1] == "rm -rf /*"@ && c[2] == "mkfs"@ && c[3]
        == "dd if=/dev/zero"@ && c[4] == ":(){:|:&};:"@ && c[5] == "chmod -R 777 /"@ && c[6]
        == r"curl\s.*\|\s*(ba)?sh"@ && c[7] == r"wget\s.*\|\s*(ba)?sh"@);
    let b = p.blocked_paths;
    assert(b[0] == "/etc/passwd"@ && b[1] == "/etc/shadow"@ && b[2] == "~/.ssh"@ && b[3]
        == "~/.aws/credentials"@ && b[4] == "~/.aws/config"@ && b[5] == ".env"@ && b[6]
        == ".env.local"@ && b[7] == ".env.production"@ && b[8] == "secrets"@);
    let r = p.require_confirmation_for;
    assert(r[0] == "delete"@ && r[1] == "execute"@);
}

}
