//! Configuration and its defaults.

use vstd::prelude::*;

use crate::number::Real;
use crate::text;

verus! {

/// The whole configuration.
#[derive(Debug, Clone)]
pub struct CarapaceConfig {
    pub verification: VerificationConfig,
    pub checkpoint: CheckpointConfig,
    pub trace: TraceConfig,
    pub cost: CostConfig,
}

/// What the verification of steps looks at.
#[derive(Debug)]
pub struct VerificationConfig {
    pub enabled: bool,
    pub rules_enabled: bool,
    pub consistency_enabled: bool,
    pub blocked_commands: Vec<String>,
    pub blocked_paths: Vec<String>,
    pub allowed_paths: Vec<String>,
    pub max_files_per_step: usize,
    pub require_confirmation_for: Vec<String>,
}

/// A verification configuration with its texts.
pub struct Policy {
    pub enabled: bool,
    pub rules_enabled: bool,
    pub consistency_enabled: bool,
    pub blocked_commands: Seq<Seq<char>>,
    pub blocked_paths: Seq<Seq<char>>,
    pub allowed_paths: Seq<Seq<char>>,
    pub max_files_per_step: nat,
    pub require_confirmation_for: Seq<Seq<char>>,
}

impl View for VerificationConfig {
    type V = Policy;

    open spec fn view(&self) -> Policy {
        Policy {
            enabled: self.enabled,
            rules_enabled: self.rules_enabled,
            consistency_enabled: self.consistency_enabled,
            blocked_commands: text::strings(self.blocked_commands@),
            blocked_paths: text::strings(self.blocked_paths@),
            allowed_paths: text::strings(self.allowed_paths@),
            max_files_per_step: self.max_files_per_step as nat,
            require_confirmation_for: text::strings(self.require_confirmation_for@),
        }
    }
}

impl Clone for VerificationConfig {
    fn clone(&self) -> (r: VerificationConfig)
        ensures
            r@ == self@,
    {
        let blocked_commands = self.blocked_commands.clone();
        let blocked_paths = self.blocked_paths.clone();
        let allowed_paths = self.allowed_paths.clone();
        let require_confirmation_for = self.require_confirmation_for.clone();
        assert(blocked_commands@ =~= self.blocked_commands@);
        assert(blocked_paths@ =~= self.blocked_paths@);
        assert(allowed_paths@ =~= self.allowed_paths@);
        assert(require_confirmation_for@ =~= self.require_confirmation_for@);
        VerificationConfig {
            enabled: self.enabled,
            rules_enabled: self.rules_enabled,
            consistency_enabled: self.consistency_enabled,
            blocked_commands,
            blocked_paths,
            allowed_paths,
            max_files_per_step: self.max_files_per_step,
            require_confirmation_for,
        }
    }
}

/// The verification policy that holds where nothing else is configured.
pub open spec fn default_policy() -> Policy {
    Policy {
        enabled: true,
        rules_enabled: true,
        consistency_enabled: true,
        blocked_commands: seq![
            "rm -rf /"@,
            "rm -rf /*"@,
            "mkfs"@,
            "dd if=/dev/zero"@,
            ":(){:|:&};:"@,
            "chmod -R 777 /"@,
            r"curl\s.*\|\s*(ba)?sh"@,
            r"wget\s.*\|\s*(ba)?sh"@,
        ],
        blocked_paths: seq![
            "/etc/passwd"@,
            "/etc/shadow"@,
            "~/.ssh"@,
            "~/.aws/credentials"@,
            "~/.aws/config"@,
            ".env"@,
            ".env.local"@,
            ".env.production"@,
            "secrets"@,
        ],
        allowed_paths: Seq::empty(),
        max_files_per_step: 20,
        require_confirmation_for: seq!["delete"@, "execute"@],
    }
}

impl Default for VerificationConfig {
    fn default() -> (r: VerificationConfig)
        ensures
            r@ == default_policy(),
    {
        let config = VerificationConfig {
            enabled: true,
            rules_enabled: true,
            consistency_enabled: true,
            blocked_commands: text::owned(
                vec![
                    "rm -rf /",
                    "rm -rf /*",
                    "mkfs",
                    "dd if=/dev/zero",
                    ":(){:|:&};:",
                    "chmod -R 777 /",
                    r"curl\s.*\|\s*(ba)?sh",  // curl URL | sh  or  curl URL | bash
                    r"wget\s.*\|\s*(ba)?sh",  // wget URL | sh  or  wget URL | bash
                ],
            ),
            blocked_paths: text::owned(
                vec![
                    "/etc/passwd",
                    "/etc/shadow",
                    "~/.ssh",
                    "~/.aws/credentials",
                    "~/.aws/config",
                    ".env",  // files named exactly ".env"
                    ".env.local",
                    ".env.production",
                    "secrets",  // any path with a "secrets" component
                ],
            ),
            allowed_paths: Vec::new(),
            max_files_per_step: 20,
            require_confirmation_for: text::owned(vec!["delete", "execute"]),
        };
        proof {
            let want = default_policy();
            assert(config@.blocked_commands =~= want.blocked_commands);
            assert(config@.blocked_paths =~= want.blocked_paths);
            assert(config@.allowed_paths =~= want.allowed_paths);
            assert(config@.require_confirmation_for =~= want.require_confirmation_for);
        }
        config
    }
}

/// When checkpoints are taken and how many steps can be rolled back.
#[derive(Debug)]
pub struct CheckpointConfig {
    pub enabled: bool,
    pub strategy: CheckpointStrategy,
    pub auto_save: bool,
    pub max_rollback_depth: u32,
    pub auto_save_on: Vec<String>,
}

#[derive(Debug, Clone, Copy, PartialEq, Eq, Structural)]
pub enum CheckpointStrategy {
    Git,
    FileCopy,
    Disabled,
}

impl CheckpointConfig {
    /// A checkpoint is taken by itself before an action of this name.
    pub open spec fn saves_before(self, action_name: Seq<char>) -> bool {
        self.enabled && self.auto_save && text::strings(self.auto_save_on@).contains(action_name)
    }

    /// Whether a checkpoint is taken by itself before an action of this name.
    pub fn auto_saves(&self, action_name: &str) -> (b: bool)
        ensures
            b == self.saves_before(action_name@),
    {
        self.enabled && self.auto_save && text::lists(&self.auto_save_on, action_name)
    }
}

impl Clone for CheckpointConfig {
    fn clone(&self) -> (r: CheckpointConfig)
        ensures
            r.enabled == self.enabled,
            r.strategy == self.strategy,
            r.auto_save == self.auto_save,
            r.max_rollback_depth == self.max_rollback_depth,
            r.auto_save_on@ == self.auto_save_on@,
    {
        let auto_save_on = self.auto_save_on.clone();
        assert(auto_save_on@ =~= self.auto_save_on@);
        CheckpointConfig {
            enabled: self.enabled,
            strategy: self.strategy,
            auto_save: self.auto_save,
            max_rollback_depth: self.max_rollback_depth,
            auto_save_on,
        }
    }
}

impl Default for CheckpointConfig {
    fn default() -> (r: CheckpointConfig)
        ensures
            r.enabled,
            r.strategy == CheckpointStrategy::Git,
            r.auto_save,
            r.max_rollback_depth == 10,
            text::strings(r.auto_save_on@) == seq!["write"@, "delete"@, "execute"@],
    {
        let auto_save_on = text::owned(vec!["write", "delete", "execute"]);
        assert(text::strings(auto_save_on@) =~= seq!["write"@, "delete"@, "execute"@]);
        CheckpointConfig {
            enabled: true,
            strategy: CheckpointStrategy::Git,
            auto_save: true,
            max_rollback_depth: 10,
            auto_save_on,
        }
    }
}

/// How steps are traced.
#[derive(Debug, Clone, Copy)]
pub struct TraceConfig {
    pub enabled: bool,
    pub retention_days: u32,
    pub detect_anomalies: bool,
    pub token_spike_threshold: Real,
    pub loop_detection_window: u32,
}

/// The binary64 pattern of 3.0.
pub const THREE: u64 = 0x4008_0000_0000_0000;

/// The binary64 pattern of 0.8.
pub const FOUR_FIFTHS: u64 = 0x3FE9_9999_9999_999A;

impl Default for TraceConfig {
    fn default() -> (r: TraceConfig)
        ensures
            r == (TraceConfig {
                enabled: true,
                retention_days: 30,
                detect_anomalies: true,
                token_spike_threshold: Real { bits: THREE },
                loop_detection_window: 5,
            }),
    {
        TraceConfig {
            enabled: true,
            retention_days: 30,
            detect_anomalies: true,
            token_spike_threshold: Real { bits: THREE },
            loop_detection_window: 5,
        }
    }
}

/// Cost limits.
#[derive(Debug, Clone, Copy)]
pub struct CostConfig {
    pub track_tokens: bool,
    pub daily_limit_usd: Option<Real>,
    pub monthly_limit_usd: Option<Real>,
    pub alert_threshold: Real,
}

impl Default for CostConfig {
    fn default() -> (r: CostConfig)
        ensures
            r == (CostConfig {
                track_tokens: true,
                daily_limit_usd: None,
                monthly_limit_usd: None,
                alert_threshold: Real { bits: FOUR_FIFTHS },
            }),
    {
        CostConfig {
            track_tokens: true,
            daily_limit_usd: None,
            monthly_limit_usd: None,
            alert_threshold: Real { bits: FOUR_FIFTHS },
        }
    }
}

impl Default for CarapaceConfig {
    fn default() -> (r: CarapaceConfig)
        ensures
            call_ensures(VerificationConfig::default, (), r.verification),
            call_ensures(CheckpointConfig::default, (), r.checkpoint),
            call_ensures(TraceConfig::default, (), r.trace),
            call_ensures(CostConfig::default, (), r.cost),
    {
        CarapaceConfig {
            verification: VerificationConfig::default(),
            checkpoint: CheckpointConfig::default(),
            trace: TraceConfig::default(),
            cost: CostConfig::default(),
        }
    }
}

impl CarapaceConfig {
    /// Whether a checkpoint is taken by itself before an action of this type.
    pub fn should_checkpoint_action(&self, action_type: &str) -> (b: bool)
        ensures
            b == self.checkpoint.saves_before(action_type@),
    {
        self.checkpoint.auto_saves(action_type)
    }

    /// The blocked commands, each once, in the order of their first mention.
    pub fn blocked_commands_set(&self) -> (r: Vec<&str>)
        ensures
            text::texts(r@).no_duplicates(),
            text::texts(r@).to_set() == text::strings(self.verification.blocked_commands@).to_set(),
    {
        let list = &self.verification.blocked_commands;
        let mut all: Vec<&str> = Vec::new();
        let mut i: usize = 0;
        while i < list.len()
            invariant
                i <= list.len(),
                all.len() == i,
                forall|j: int| 0 <= j < i ==> #[trigger] all@[j]@ == list@[j]@,
            decreases list.len() - i,
        {
            all.push(list[i].as_str());
            i += 1;
        }
        assert(text::texts(all@) =~= text::strings(list@));
        text::distinct(&all)
    }
}

// ── Paths ────────────────────────────────────────────────────

/// The configuration file, in the configuration directory.
pub fn default_config_path(config_dir: &str) -> (r: String)
    ensures
        r@ == text::path_join(config_dir@, "config.yaml"@),
{
    text::join_path(config_dir, "config.yaml")
}

/// The database file, in the data directory.
pub fn default_db_path(data_dir: &str) -> (r: String)
    ensures
        r@ == text::path_join(data_dir@, "carapace.db"@),
{
    text::join_path(data_dir, "carapace.db")
}

/// The database file to use where none is named.
pub fn fallback_db_path(data_dir: &str) -> (r: String)
    ensures
        r@ == text::path_join(data_dir@, "carapace.db"@),
{
    default_db_path(data_dir)
}

// ── Laws ─────────────────────────────────────────────────────

/// By default a checkpoint is taken before writes, deletions and executions, and
/// before nothing else.
pub proof fn law_default_checkpoints(config: CheckpointConfig, action_name: Seq<char>)
    requires
        call_ensures(CheckpointConfig::default, (), config),
    ensures
        config.saves_before(action_name) <==> action_name == "write"@ || action_name == "delete"@
            || action_name == "execute"@,
{
    let list = text::strings(config.auto_save_on@);
    assert(list[0] == "write"@ && list[1] == "delete"@ && list[2] == "execute"@);
}

/// A disabled checkpoint configuration takes no checkpoint by itself.
pub proof fn law_disabled_checkpoints(config: CheckpointConfig, action_name: Seq<char>)
    requires
        !config.enabled || !config.auto_save,
    ensures
        !config.saves_before(action_name),
{
}

}
