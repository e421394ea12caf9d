//! Known threat patterns.

use vstd::prelude::*;

use crate::outside;
use crate::types::RiskLevel;

verus! {

/// A threat pattern for matching against agent actions.
#[derive(Debug, Clone, Copy)]
pub struct ThreatPattern {
    pub name: &'static str,
    pub description: &'static str,
    pub risk_level: RiskLevel,
    pub pattern: &'static str,
}

/// A threat pattern with its texts.
pub struct Threat {
    pub name: Seq<char>,
    pub pattern: Seq<char>,
    pub risk: RiskLevel,
    pub description: Seq<char>,
}

impl Threat {
    /// The pattern is a regular expression.
    pub open spec fn usable(self) -> bool {
        outside::regex_valid(self.pattern)
    }

    /// The pattern occurs in the text.
    pub open spec fn found_in(self, text: Seq<char>) -> bool {
        self.usable() && outside::regex_found(self.pattern, text)
    }
}

impl View for ThreatPattern {
    type V = Threat;

    open spec fn view(&self) -> Threat {
        Threat {
            name: self.name@,
            pattern: self.pattern@,
            risk: self.risk_level,
            description: self.description@,
        }
    }
}

/// The texts of threat patterns.
pub open spec fn threats(v: Seq<ThreatPattern>) -> Seq<Threat> {
    v.map_values(|p: ThreatPattern| p@)
}

/// The texts of borrowed threat patterns.
pub open spec fn threat_refs(v: Seq<&ThreatPattern>) -> Seq<Threat> {
    v.map_values(|p: &ThreatPattern| p@)
}

/// The built-in threats, in the order in which they are reported.
pub open spec fn built_in() -> Seq<Threat> {
    seq![
        Threat {
            name: "reverse_shell"@,
            pattern: r"(?i)(nc|ncat|netcat)\s+-[elp]|/dev/tcp/|bash\s+-i\s+>&|mkfifo.*/tmp/"@,
            risk: RiskLevel::Critical,
            description: "Reverse shell attempt"@,
        },
        Threat {
            name: "token_exfil"@,
            pattern: r"(?i)(curl|wget|fetch).*(\$\{?[A-Z_]*TOKEN|API_KEY|SECRET|PASSWORD)"@,
            risk: RiskLevel::Critical,
            description: "Credential exfiltration via HTTP"@,
        },
        Threat {
            name: "crypto_miner"@,
            pattern: r"(?i)(xmrig|minerd|cgminer|stratum\+tcp://|cryptonight)"@,
            risk: RiskLevel::Critical,
            description: "Cryptocurrency mining"@,
        },
        Threat {
            name: "priv_escalation"@,
            pattern: r"(?i)(sudo\s+chmod\s+[47]777\s+/|chmod\s+u\+s|chown\s+root)"@,
            risk: RiskLevel::High,
            description: "Privilege escalation attempt"@,
        },
        Threat {
            name: "data_exfil"@,
            pattern: r"(?i)(curl|wget|nc)\s+.*<\s*(\/etc\/passwd|\/etc\/shadow|~\/\.ssh)|(\/etc\/passwd|\/etc\/shadow|~\/\.ssh).*\|\s*(curl|wget|nc)\s"@,
            risk: RiskLevel::Critical,
            description: "Sensitive file exfiltration"@,
        },
        Threat {
            name: "eval_injection"@,
            pattern: r"(?i)(eval\s*\(|exec\s*\(|os\.system\s*\().*base64"@,
            risk: RiskLevel::High,
            description: "Code injection via eval/exec with encoding"@,
        },
        Threat {
            name: "fork_bomb"@,
            pattern: r":\(\)\{.*\|.*&\s*\}\s*;"@,
            risk: RiskLevel::Critical,
            description: "Fork bomb"@,
        },
        Threat {
            name: "disk_wipe"@,
            pattern: r"(?i)(dd\s+if=/dev/(zero|random)|mkfs\s|shred\s+-)"@,
            risk: RiskLevel::Critical,
            description: "Disk destruction"@,
        },
        Threat {
            name: "env_dump"@,
            pattern: r"(?i)(printenv|env\s*$|set\s*$|export\s+-p).*>"@,
            risk: RiskLevel::High,
            description: "Environment variable dump to file"@,
        },
        Threat {
            name: "ssh_key_theft"@,
            pattern: r"(?i)(cat|cp|scp|rsync).*~?/\.ssh/(id_rsa|id_ed25519|authorized_keys)"@,
            risk: RiskLevel::Critical,
            description: "SSH key theft"@,
        },
    ]
}

/// The built-in threats whose pattern can be used.
pub open spec fn usable_threats() -> Seq<Threat> {
    built_in().filter(|t: Threat| t.usable())
}

impl ThreatPattern {
    /// The pattern, or nothing where it is no regular expression.
    fn new(
        name: &'static str,
        pattern: &'static str,
        risk: RiskLevel,
        desc: &'static str,
    ) -> (r: Option<ThreatPattern>)
        ensures
            r is Some <==> outside::regex_valid(pattern@),
            r matches Some(p) ==> p@ == (Threat {
                name: name@,
                pattern: pattern@,
                risk,
                description: desc@,
            }),
    {
        match outside::regex_search(pattern, "") {
            Some(_) => Some(ThreatPattern { name, description: desc, risk_level: risk, pattern }),
            None => None,
        }
    }

    /// Whether the pattern occurs in `text`.
    pub fn matches(&self, text: &str) -> (b: bool)
        ensures
            b == self@.found_in(text@),
    {
        match outside::regex_search(self.pattern, text) {
            Some(found) => found,
            None => false,
        }
    }
}

/// The built-in patterns before those that cannot be used are left out.
fn pattern_table() -> (r: Vec<(&'static str, &'static str, RiskLevel, &'static str)>)
    ensures
        r@.len() == built_in().len(),
        forall|i: int|
            0 <= i < r@.len() ==> #[trigger] built_in()[i] == (Threat {
                name: r@[i].0@,
                pattern: r@[i].1@,
                risk: r@[i].2,
                description: r@[i].3@,
            }),
{
    vec![
        (
            "reverse_shell",
            r"(?i)(nc|ncat|netcat)\s+-[elp]|/dev/tcp/|bash\s+-i\s+>&|mkfifo.*/tmp/",
            RiskLevel::Critical,
            "Reverse shell attempt",
        ),
        (
            "token_exfil",
            r"(?i)(curl|wget|fetch).*(\$\{?[A-Z_]*TOKEN|API_KEY|SECRET|PASSWORD)",
            RiskLevel::Critical,
            "Credential exfiltration via HTTP",
        ),
        (
            "crypto_miner",
            r"(?i)(xmrig|minerd|cgminer|stratum\+tcp://|cryptonight)",
            RiskLevel::Critical,
            "Cryptocurrency mining",
        ),
        (
            "priv_escalation",
            r"(?i)(sudo\s+chmod\s+[47]777\s+/|chmod\s+u\+s|chown\s+root)",
            RiskLevel::High,
            "Privilege escalation attempt",
        ),
        (
            "data_exfil",
            r"(?i)(curl|wget|nc)\s+.*<\s*(\/etc\/passwd|\/etc\/shadow|~\/\.ssh)|(\/etc\/passwd|\/etc\/shadow|~\/\.ssh).*\|\s*(curl|wget|nc)\s",
            RiskLevel::Critical,
            "Sensitive file exfiltration",
        ),
        (
            "eval_injection",
            r"(?i)(eval\s*\(|exec\s*\(|os\.system\s*\().*base64",
            RiskLevel::High,
            "Code injection via eval/exec with encoding",
        ),
        ("fork_bomb", r":\(\)\{.*\|.*&\s*\}\s*;", RiskLevel::Critical, "Fork bomb"),
        (
            "disk_wipe",
            r"(?i)(dd\s+if=/dev/(zero|random)|mkfs\s|shred\s+-)",
            RiskLevel::Critical,
            "Disk destruction",
        ),
        (
            "env_dump",
            r"(?i)(printenv|env\s*$|set\s*$|export\s+-p).*>",
            RiskLevel::High,
            "Environment variable dump to file",
        ),
        (
            "ssh_key_theft",
            r"(?i)(cat|cp|scp|rsync).*~?/\.ssh/(id_rsa|id_ed25519|authorized_keys)",
            RiskLevel::Critical,
            "SSH key theft",
        ),
    ]
}

/// Filtering one element more keeps it or not.
pub proof fn lemma_filter_next<A>(s: Seq<A>, keep: spec_fn(A) -> bool, i: int)
    requires
        0 <= i < s.len(),
    ensures
        s.take(i + 1).filter(keep) == s.take(i).filter(keep) + (if keep(s[i]) {
            seq![s[i]]
        } else {
            Seq::empty()
        }),
{
    reveal(Seq::filter);
    let t = s.take(i + 1);
    assert(t.drop_last() =~= s.take(i));
    assert(t.last() == s[i]);
    if keep(s[i]) {
        assert(s.take(i).filter(keep).push(s[i]) =~= s.take(i).filter(keep) + seq![s[i]]);
    } else {
        assert(s.take(i).filter(keep) + Seq::<A>::empty() =~= s.take(i).filter(keep));
    }
}

/// Filtering a single element keeps it or not.
pub proof fn lemma_filter_one<A>(x: A, keep: spec_fn(A) -> bool)
    ensures
        seq![x].filter(keep) == (if keep(x) {
            seq![x]
        } else {
            Seq::empty()
        }),
{
    reveal(Seq::filter);
    let s = seq![x];
    assert(s.drop_last() =~= Seq::<A>::empty());
    assert(s.drop_last().filter(keep) =~= Seq::<A>::empty());
    assert(s.last() == x);
    assert(Seq::<A>::empty().push(x) =~= s);
}

/// Matcher for the known threat patterns.
#[derive(Debug, Clone)]
pub struct PatternMatcher {
    patterns: Vec<ThreatPattern>,
}

impl View for PatternMatcher {
    type V = Seq<Threat>;

    closed spec fn view(&self) -> Seq<Threat> {
        threats(self.patterns@)
    }
}

impl PatternMatcher {
    /// The matcher for the built-in patterns.
    pub fn new() -> (r: PatternMatcher)
        ensures
            r@ == usable_threats(),
    {
        let table = pattern_table();
        let mut patterns: Vec<ThreatPattern> = Vec::new();
        let ghost keep = |t: Threat| t.usable();
        let mut i: usize = 0;
        proof {
            reveal(Seq::filter);
            assert(built_in().take(0) =~= Seq::<Threat>::empty());
            assert(threats(patterns@) =~= Seq::<Threat>::empty());
        }
        while i < table.len()
            invariant
                i <= table.len(),
                table@.len() == built_in().len(),
                keep == (|t: Threat| t.usable()),
                forall|k: int|
                    0 <= k < table@.len() ==> #[trigger] built_in()[k] == (Threat {
                        name: table@[k].0@,
                        pattern: table@[k].1@,
                        risk: table@[k].2,
                        description: table@[k].3@,
                    }),
                threats(patterns@) == built_in().take(i as int).filter(keep),
            decreases table.len() - i,
        {
            let (name, pattern, risk, desc) = table[i];
            proof {
                lemma_filter_next(built_in(), keep, i as int);
            }
            match ThreatPattern::new(name, pattern, risk, desc) {
                Some(p) => {
                    let ghost before = patterns@;
                    patterns.push(p);
                    assert(threats(patterns@) =~= threats(before) + seq![p@]);
                },
                None => {
                    assert(threats(patterns@) =~= threats(patterns@) + Seq::<Threat>::empty());
                },
            }
            i += 1;
        }
        assert(built_in().take(i as int) =~= built_in());
        PatternMatcher { patterns }
    }

    /// The patterns that occur in `text`, in their order.
    pub fn scan(&self, text: &str) -> (r: Vec<&ThreatPattern>)
        ensures
            threat_refs(r@) == self@.filter(|t: Threat| t.found_in(text@)),
    {
        let mut out: Vec<&ThreatPattern> = Vec::new();
        let ghost keep = |t: Threat| t.found_in(text@);
        let mut i: usize = 0;
        proof {
            reveal(Seq::filter);
            assert(self@.take(0) =~= Seq::<Threat>::empty());
            assert(threat_refs(out@) =~= Seq::<Threat>::empty());
        }
        while i < self.patterns.len()
            invariant
                i <= self.patterns.len(),
                keep == (|t: Threat| t.found_in(text@)),
                threat_refs(out@) == self@.take(i as int).filter(keep),
            decreases self.patterns.len() - i,
        {
            proof {
                lemma_filter_next(self@, keep, i as int);
            }
            let p = &self.patterns[i];
            let ghost before = out@;
            if p.matches(text) {
                out.push(p);
                assert(threat_refs(out@) =~= threat_refs(before) + seq![p@]);
            } else {
                assert(threat_refs(out@) =~= threat_refs(out@) + Seq::<Threat>::empty());
            }
            i += 1;
        }
        assert(self@.take(i as int) =~= self@);
        out
    }

    /// Whether a pattern of critical risk occurs in `text`.
    pub fn has_critical_match(&self, text: &str) -> (b: bool)
        ensures
            b == exists|i: int|
                0 <= i < self@.len() && (#[trigger] self@[i]).risk == RiskLevel::Critical
                    && self@[i].found_in(text@),
    {
        let mut i: usize = 0;
        while i < self.patterns.len()
            invariant
                i <= self.patterns.len(),
                forall|j: int|
                    0 <= j < i ==> !((#[trigger] self@[j]).risk == RiskLevel::Critical
                        && self@[j].found_in(text@)),
            decreases self.patterns.len() - i,
        {
            let p = &self.patterns[i];
            assert(self@[i as int] == p@);
            if p.risk_level == RiskLevel::Critical && p.matches(text) {
                return true;
            }
            i += 1;
        }
        false
    }
}

impl Default for PatternMatcher {
    fn default() -> (r: PatternMatcher)
        ensures
            r@ == usable_threats(),
    {
        PatternMatcher::new()
    }
}

}
