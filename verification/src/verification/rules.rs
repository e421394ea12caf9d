//! Rule checks: deterministic and without input or output.

use vstd::prelude::*;

use crate::config;
use crate::config::VerificationConfig;
use crate::outside;
use crate::text;
use crate::types::Check;
use crate::types::CheckResult;
use crate::types::ExecutionContext;
use crate::types::RiskLevel;
use crate::types::StepAction;
use crate::verification::patterns;
use crate::verification::patterns::PatternMatcher;
use crate::verification::patterns::ThreatPattern;

verus! {

// ── Path rules ───────────────────────────────────────────────

/// The blocked-path rule applies to the path. The shape of the rule decides how:
///   - `/…` blocks every path that begins with the rule,
///   - `~/…` blocks the rest of the rule below any directory,
///   - `.…` blocks files of exactly that name,
///   - anything else blocks a path that has the rule as a component.
pub open spec fn path_blocked(path: Seq<char>, rule: Seq<char>) -> bool {
    if seq!['/'].is_prefix_of(rule) {
        rule.is_prefix_of(path)
    } else if seq!['~', '/'].is_prefix_of(rule) {
        let below = seq!['/'] + rule.skip(2);
        text::contains(path, below.push('/')) || below.is_suffix_of(path)
    } else if seq!['.'].is_prefix_of(rule) {
        text::last_segment(path, '/') == rule
    } else {
        text::has_segment(path, '/', rule)
    }
}

/// The allowed-path rule admits the path.
pub open spec fn path_allowed(path: Seq<char>, rule: Seq<char>) -> bool {
    rule.is_prefix_of(path) || (seq!['~', '/'].is_prefix_of(rule) && text::contains(
        path,
        rule.skip(2),
    ))
}

/// Matches a file path against a blocked-path rule.
///
/// Rules are read by their shape:
///   - `/etc/shadow` blocks `/etc/shadow` and `/etc/shadow.bak`,
///   - `~/.ssh` blocks `/home/user/.ssh/id_rsa`,
///   - `.env` blocks `project/.env` and not `config/example.env`,
///   - `node_modules` blocks `src/node_modules/pkg`.
pub fn path_matches_rule(path: &str, rule: &str) -> (b: bool)
    ensures
        b == path_blocked(path@, rule@),
{
    let chars = text::chars_of(rule);
    let n = chars.len();
    proof {
        lemma_first_char(rule@, '/');
        lemma_first_char(rule@, '.');
        lemma_home_prefix(rule@);
    }
    if n >= 1 && chars[0] == '/' {
        return text::has_prefix(path, rule);
    }
    if n >= 2 && chars[0] == '~' && chars[1] == '/' {
        let mut below = String::new();
        below.push('/');
        below.append(rule.substring_char(2, n));
        assert(below@ =~= seq!['/'] + rule@.skip(2));
        let mut inner = below.clone();
        inner.push('/');
        return text::has_substring(path, inner.as_str()) || text::has_suffix(path, below.as_str());
    }
    if n >= 1 && chars[0] == '.' {
        return text::str_eq(text::tail_after(path, '/'), rule);
    }
    text::any_segment_is(path, '/', rule)
}

proof fn lemma_first_char(s: Seq<char>, c: char)
    ensures
        seq![c].is_prefix_of(s) <==> s.len() >= 1 && s[0] == c,
{
    if s.len() >= 1 && s[0] == c {
        assert(s.subrange(0, 1) =~= seq![c]);
    } else if s.len() >= 1 {
        assert(s.subrange(0, 1)[0] != seq![c][0]);
    }
}

proof fn lemma_home_prefix(s: Seq<char>)
    ensures
        seq!['~', '/'].is_prefix_of(s) <==> s.len() >= 2 && s[0] == '~' && s[1] == '/',
{
    if s.len() >= 2 && s[0] == '~' && s[1] == '/' {
        assert(s.subrange(0, 2) =~= seq!['~', '/']);
    } else if s.len() >= 2 {
        assert(s.subrange(0, 2)[0] != seq!['~', '/'][0] || s.subrange(0, 2)[1] != seq!['~', '/'][1]);
    }
}

/// Whether an allowed-path rule admits the path.
pub fn path_is_allowed(path: &str, rule: &str) -> (b: bool)
    ensures
        b == path_allowed(path@, rule@),
{
    if text::has_prefix(path, rule) {
        return true;
    }
    let chars = text::chars_of(rule);
    let n = chars.len();
    proof {
        lemma_home_prefix(rule@);
    }
    if n >= 2 && chars[0] == '~' && chars[1] == '/' {
        let rest = rule.substring_char(2, n);
        assert(rest@ =~= rule@.skip(2));
        return text::has_substring(path, rest);
    }
    false
}

/// The first rule of the list that blocks the path.
pub open spec fn first_blocking(path: Seq<char>, rules: Seq<Seq<char>>) -> Option<Seq<char>>
    decreases rules.len(),
{
    if rules.len() == 0 {
        None
    } else if path_blocked(path, rules[0]) {
        Some(rules[0])
    } else {
        first_blocking(path, rules.skip(1))
    }
}

/// A rule of the list admits the path.
pub open spec fn any_allows(path: Seq<char>, rules: Seq<Seq<char>>) -> bool {
    exists|i: int| 0 <= i < rules.len() && path_allowed(path, #[trigger] rules[i])
}

/// What speaks against touching the path.
pub open spec fn path_objection(policy: config::Policy, path: Seq<char>) -> Option<Seq<char>> {
    match first_blocking(path, policy.blocked_paths) {
        Some(rule) => Some(
            "Access to blocked path: "@ + path + " (matches "@ + rule + ")"@,
        ),
        None => if policy.allowed_paths.len() > 0 && !any_allows(path, policy.allowed_paths) {
            Some("Path not in allowed list: "@ + path)
        } else {
            None
        },
    }
}

/// What speaks against touching the paths: the objection to the first path that
/// has one.
pub open spec fn paths_objection(policy: config::Policy, paths: Seq<Seq<char>>) -> Option<Seq<char>>
    decreases paths.len(),
{
    if paths.len() == 0 {
        None
    } else {
        match path_objection(policy, paths[0]) {
            Some(message) => Some(message),
            None => paths_objection(policy, paths.skip(1)),
        }
    }
}

// ── Checks ───────────────────────────────────────────────────

/// A check that fails with the message, or says nothing where there is none.
pub open spec fn failing_check(checker: Seq<char>, message: Option<Seq<char>>) -> Check {
    match message {
        Some(m) => Check::failed(checker, m),
        None => Check::silent(checker),
    }
}

/// What `max_files` says of a step that touches `count` files.
pub open spec fn files_objection(count: nat, max: nat) -> Option<Seq<char>> {
    if count > max {
        Some(
            "Too many files affected: "@ + text::decimal(count) + " (max: "@ + text::decimal(max)
                + ")"@,
        )
    } else {
        None
    }
}

/// What `confirmation_required` says of an action of the given name.
pub open spec fn confirmation_check(names: Seq<Seq<char>>, action_name: Seq<char>) -> Check {
    if names.contains(action_name) {
        Check::warned(
            "confirmation_required"@,
            "Action type '"@ + action_name + "' requires confirmation"@,
        )
    } else {
        Check::silent("confirmation_required"@)
    }
}

/// The text in which threats are looked for.
pub open spec fn threat_text(action: StepAction) -> Seq<char> {
    action.description@ + " "@ + action.arguments@ + " "@ + text::joined(
        text::strings(action.target_files@),
        " "@,
    )
}

/// What is said of a threat that was found.
pub open spec fn threat_words(name: Seq<char>, description: Seq<char>, risk: RiskLevel) -> Seq<
    char,
> {
    "Threat detected ["@ + name + "]: "@ + description + " (risk: "@ + risk.label() + ")"@
}

/// What `threat_patterns` says when these threats were found.
pub open spec fn threats_objection(found: Seq<patterns::Threat>) -> Option<Seq<char>> {
    if found.len() == 0 {
        None
    } else {
        Some(threat_words(found[0].name, found[0].description, found[0].risk))
    }
}

/// The text in which blocked commands are looked for.
pub open spec fn command_text(description: Seq<char>, arguments: Seq<char>) -> Seq<char> {
    outside::lowercase(description) + " "@ + outside::lowercase(arguments)
}

/// A blocked command, in lower case, shows in the text: it occurs there, or it is a
/// regular expression that was `found` there.
pub open spec fn command_shows(
    text: Seq<char>,
    lowered: Seq<char>,
    found: Option<bool>,
) -> bool {
    text::contains(text, lowered) || found == Some(true)
}

/// What a search for a regular expression gives: nothing where it is none.
pub open spec fn search_result(pattern: Seq<char>, text: Seq<char>) -> Option<bool> {
    if outside::regex_valid(pattern) {
        Some(outside::regex_found(pattern, text))
    } else {
        None
    }
}

/// An expression that ignores case.
pub open spec fn in_any_case(expression: Seq<char>) -> Seq<char> {
    "(?i)"@ + expression
}

/// The command shows in the lower-case text, word for word or as an expression. Case
/// does not matter.
pub open spec fn command_found(text: Seq<char>, command: Seq<char>) -> bool {
    command_shows(
        text,
        outside::lowercase(command),
        search_result(in_any_case(command), text),
    )
}

/// The first command of the list that shows in the text.
pub open spec fn first_command(text: Seq<char>, commands: Seq<Seq<char>>) -> Option<Seq<char>>
    decreases commands.len(),
{
    if commands.len() == 0 {
        None
    } else if command_found(text, commands[0]) {
        Some(commands[0])
    } else {
        first_command(text, commands.skip(1))
    }
}

/// What `blocked_commands` says when the command was found.
pub open spec fn command_objection(command: Option<Seq<char>>) -> Option<Seq<char>> {
    match command {
        Some(c) => Some("Blocked command pattern detected: "@ + c),
        None => None,
    }
}

/// The rule checks of an action, in their order.
pub open spec fn rule_checks(
    policy: config::Policy,
    threats: Seq<patterns::Threat>,
    action: StepAction,
) -> Seq<Check> {
    let files = text::strings(action.target_files@);
    let wanted = command_text(action.description@, action.arguments@);
    let searched = threat_text(action);
    seq![
        failing_check("blocked_paths"@, paths_objection(policy, files)),
        failing_check("max_files"@, files_objection(files.len(), policy.max_files_per_step)),
        confirmation_check(policy.require_confirmation_for, action.action_type@.name()),
        failing_check(
            "threat_patterns"@,
            threats_objection(threats.filter(|t: patterns::Threat| t.found_in(searched))),
        ),
        failing_check(
            "blocked_commands"@,
            command_objection(first_command(wanted, policy.blocked_commands)),
        ),
    ]
}

/// The check with the message, or without one.
fn failing(checker: &str, message: Option<String>) -> (r: CheckResult)
    ensures
        r@ == failing_check(checker@, text::opt_text(message)),
{
    match message {
        Some(m) => CheckResult::failed(checker, m),
        None => CheckResult::silent(checker),
    }
}

/// What is said of a threat that was found.
pub fn threat_message(name: &str, description: &str, risk: RiskLevel) -> (r: String)
    ensures
        r@ == threat_words(name@, description@, risk),
{
    let mut m = "Threat detected [".to_string();
    m.append(name);
    m.append("]: ");
    m.append(description);
    m.append(" (risk: ");
    m.append(risk.as_label());
    m.append(")");
    m
}

/// The `threat_patterns` check when these patterns were found.
pub fn threat_check(found: &Vec<&ThreatPattern>) -> (r: CheckResult)
    ensures
        r@ == failing_check("threat_patterns"@, threats_objection(patterns::threat_refs(found@))),
{
    if found.len() > 0 {
        let threat = found[0];
        let message = threat_message(threat.name, threat.description, threat.risk_level);
        failing("threat_patterns", Some(message))
    } else {
        failing("threat_patterns", None)
    }
}

/// Whether a blocked command, in lower case, shows in the text. `found` is what a
/// search for it as a regular expression gave, if it is one.
pub fn command_is_hit(text: &str, lowered: &str, found: Option<bool>) -> (b: bool)
    ensures
        b == command_shows(text@, lowered@, found),
{
    text::has_substring(text, lowered) || matches!(found, Some(true))
}

/// The `blocked_commands` check when this command was found.
pub fn command_check(command: Option<&String>) -> (r: CheckResult)
    ensures
        r@ == failing_check(
            "blocked_commands"@,
            command_objection(
                match command {
                    Some(c) => Some(c@),
                    None => None,
                },
            ),
        ),
{
    match command {
        Some(c) => {
            let mut m = "Blocked command pattern detected: ".to_string();
            m.append(c.as_str());
            failing("blocked_commands", Some(m))
        },
        None => failing("blocked_commands", None),
    }
}

/// Rule-based verifier.
#[derive(Debug)]
pub struct RuleVerifier {
    config: VerificationConfig,
    pattern_matcher: PatternMatcher,
}

impl RuleVerifier {
    /// The rules that are applied.
    pub closed spec fn policy(self) -> config::Policy {
        self.config@
    }

    /// The threats that are looked for.
    pub closed spec fn threats(self) -> Seq<patterns::Threat> {
        self.pattern_matcher@
    }

    pub fn new(config: VerificationConfig) -> (r: RuleVerifier)
        ensures
            r.policy() == config@,
            r.threats() == patterns::usable_threats(),
    {
        RuleVerifier { config, pattern_matcher: PatternMatcher::new() }
    }

    /// Runs all rule checks against a step action.
    pub fn check(&self, action: &StepAction, _ctx: &ExecutionContext) -> (r: Vec<CheckResult>)
        ensures
            crate::types::checks(r@) == rule_checks(self.policy(), self.threats(), *action),
    {
        let mut results: Vec<CheckResult> = Vec::new();
        results.push(self.check_blocked_paths(action));
        results.push(self.check_max_files(action));
        results.push(self.check_confirmation_required(action));
        results.push(self.check_threat_patterns(action));
        results.push(self.check_blocked_commands(action));
        assert(crate::types::checks(results@) =~= rule_checks(
            self.policy(),
            self.threats(),
            *action,
        ));
        results
    }

    fn check_blocked_commands(&self, action: &StepAction) -> (r: CheckResult)
        ensures
            r@ == failing_check(
                "blocked_commands"@,
                command_objection(
                    first_command(
                        command_text(action.description@, action.arguments@),
                        self.policy().blocked_commands,
                    ),
                ),
            ),
    {
        let mut combined = action.description.as_str().to_lowercase();
        combined.append(" ");
        combined.append(action.arguments.as_str().to_lowercase().as_str());
        let commands = &self.config.blocked_commands;
        let ghost all = text::strings(commands@);
        let mut i: usize = 0;
        assert(all.skip(0) =~= all);
        while i < commands.len()
            invariant
                i <= commands.len(),
                commands == &self.config.blocked_commands,
                all == text::strings(commands@),
                combined@ == command_text(action.description@, action.arguments@),
                first_command(combined@, all) == first_command(combined@, all.skip(i as int)),
            decreases commands.len() - i,
        {
            let lowered = commands[i].as_str().to_lowercase();
            let mut expression = "(?i)".to_string();
            expression.append(commands[i].as_str());
            let found = outside::regex_search(expression.as_str(), combined.as_str());
            assert(all.skip(i as int)[0] == commands@[i as int]@);
            assert(all.skip(i as int).skip(1) =~= all.skip(i + 1));
            if command_is_hit(combined.as_str(), lowered.as_str(), found) {
                return command_check(Some(&commands[i]));
            }
            i += 1;
        }
        command_check(None)
    }

    fn check_blocked_paths(&self, action: &StepAction) -> (r: CheckResult)
        ensures
            r@ == failing_check(
                "blocked_paths"@,
                paths_objection(self.policy(), text::strings(action.target_files@)),
            ),
    {
        let files = &action.target_files;
        let ghost all = text::strings(files@);
        let mut i: usize = 0;
        assert(all.skip(0) =~= all);
        while i < files.len()
            invariant
                i <= files.len(),
                files == &action.target_files,
                all == text::strings(files@),
                paths_objection(self.policy(), all) == paths_objection(
                    self.policy(),
                    all.skip(i as int),
                ),
            decreases files.len() - i,
        {
            assert(all.skip(i as int)[0] == files@[i as int]@);
            assert(all.skip(i as int).skip(1) =~= all.skip(i + 1));
            match self.objection_to(files[i].as_str()) {
                Some(message) => {
                    return failing("blocked_paths", Some(message));
                },
                None => {},
            }
            i += 1;
        }
        failing("blocked_paths", None)
    }

    /// What speaks against touching the file.
    fn objection_to(&self, file: &str) -> (r: Option<String>)
        ensures
            text::opt_text(r) == path_objection(self.policy(), file@),
    {
        let blocked = &self.config.blocked_paths;
        let ghost rules = text::strings(blocked@);
        let mut i: usize = 0;
        assert(rules.skip(0) =~= rules);
        while i < blocked.len()
            invariant
                i <= blocked.len(),
                rules == text::strings(blocked@),
                blocked == &self.config.blocked_paths,
                first_blocking(file@, rules) == first_blocking(file@, rules.skip(i as int)),
            decreases blocked.len() - i,
        {
            assert(rules.skip(i as int)[0] == blocked@[i as int]@);
            assert(rules.skip(i as int).skip(1) =~= rules.skip(i + 1));
            if path_matches_rule(file, blocked[i].as_str()) {
                let mut m = "Access to blocked path: ".to_string();
                m.append(file);
                m.append(" (matches ");
                m.append(blocked[i].as_str());
                m.append(")");
                return Some(m);
            }
            i += 1;
        }
        if self.config.allowed_paths.len() > 0 && !self.admits(file) {
            let mut m = "Path not in allowed list: ".to_string();
            m.append(file);
            return Some(m);
        }
        None
    }

    /// Whether an allowed-path rule admits the file.
    fn admits(&self, file: &str) -> (b: bool)
        ensures
            b == any_allows(file@, self.policy().allowed_paths),
    {
        let rules = &self.config.allowed_paths;
        let mut i: usize = 0;
        while i < rules.len()
            invariant
                i <= rules.len(),
                rules == &self.config.allowed_paths,
                forall|j: int|
                    0 <= j < i ==> !path_allowed(file@, #[trigger] text::strings(rules@)[j]),
            decreases rules.len() - i,
        {
            assert(text::strings(rules@)[i as int] == rules@[i as int]@);
            if path_is_allowed(file, rules[i].as_str()) {
                return true;
            }
            i += 1;
        }
        false
    }

    fn check_max_files(&self, action: &StepAction) -> (r: CheckResult)
        ensures
            r@ == failing_check(
                "max_files"@,
                files_objection(action.target_files@.len(), self.policy().max_files_per_step),
            ),
    {
        let count = action.target_files.len();
        let max = self.config.max_files_per_step;
        if count > max {
            let mut m = "Too many files affected: ".to_string();
            m.append(text::to_decimal(count as u64).as_str());
            m.append(" (max: ");
            m.append(text::to_decimal(max as u64).as_str());
            m.append(")");
            return failing("max_files", Some(m));
        }
        failing("max_files", None)
    }

    fn check_confirmation_required(&self, action: &StepAction) -> (r: CheckResult)
        ensures
            r@ == confirmation_check(
                self.policy().require_confirmation_for,
                action.action_type@.name(),
            ),
    {
        let action_name = action.action_type.as_str();
        if text::lists(&self.config.require_confirmation_for, action_name) {
            let mut m = "Action type '".to_string();
            m.append(action_name);
            m.append("' requires confirmation");
            return CheckResult::warned("confirmation_required", m);
        }
        CheckResult::silent("confirmation_required")
    }

    fn check_threat_patterns(&self, action: &StepAction) -> (r: CheckResult)
        ensures
            r@ == failing_check(
                "threat_patterns"@,
                threats_objection(
                    self.threats().filter(
                        |t: patterns::Threat| t.found_in(threat_text(*action)),
                    ),
                ),
            ),
    {
        let mut searched = action.description.clone();
        searched.append(" ");
        searched.append(action.arguments.as_str());
        searched.append(" ");
        searched.append(text::join(&action.target_files, " ").as_str());
        assert(searched@ == threat_text(*action));
        let found = self.pattern_matcher.scan(searched.as_str());
        threat_check(&found)
    }
}

}
