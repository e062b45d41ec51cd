//! Configuration: the types that the files declare, and the errors of a merge.
use crate::network::IpNetwork;
use vstd::prelude::*;

verus! {

/// How severe a log entry is, from least to most.
#[derive(Debug, Clone, Copy, PartialEq, Eq, PartialOrd, Structural)]
pub enum LogLevel {
    Trace,
    Debug,
    Info,
    Warn,
    Error,
}

impl LogLevel {
    /// The place of a level in the order of severity.
    pub open spec fn severity(self) -> nat {
        match self {
            LogLevel::Trace => 0,
            LogLevel::Debug => 1,
            LogLevel::Info => 2,
            LogLevel::Warn => 3,
            LogLevel::Error => 4,
        }
    }

    /// The place of a level in the order of severity.
    pub fn rank(self) -> (r: u8)
        ensures
            r as nat == self.severity(),
    {
        match self {
            LogLevel::Trace => 0,
            LogLevel::Debug => 1,
            LogLevel::Info => 2,
            LogLevel::Warn => 3,
            LogLevel::Error => 4,
        }
    }
}

/// One step of a containment playbook.
#[derive(Debug, PartialEq)]
pub enum AtomicAction {
    ValidateState,
    LogJson,
    Pause,
    Unpause,
    Restart,
    CommitSnapshot { prefix: String },
    NftBlacklist { set_name: String, timeout: String },
    ContainerSignal { signal: String },
    RunCustomScript { path: String },
    WebhookAlert { url: String },
    LogCritical,
}

impl Clone for AtomicAction {
    fn clone(&self) -> (r: Self)
        ensures
            r == *self,
    {
        match self {
            AtomicAction::ValidateState => AtomicAction::ValidateState,
            AtomicAction::LogJson => AtomicAction::LogJson,
            AtomicAction::Pause => AtomicAction::Pause,
            AtomicAction::Unpause => AtomicAction::Unpause,
            AtomicAction::Restart => AtomicAction::Restart,
            AtomicAction::CommitSnapshot { prefix } => AtomicAction::CommitSnapshot {
                prefix: prefix.clone(),
            },
            AtomicAction::NftBlacklist { set_name, timeout } => AtomicAction::NftBlacklist {
                set_name: set_name.clone(),
                timeout: timeout.clone(),
            },
            AtomicAction::ContainerSignal { signal } => AtomicAction::ContainerSignal {
                signal: signal.clone(),
            },
            AtomicAction::RunCustomScript { path } => AtomicAction::RunCustomScript {
                path: path.clone(),
            },
            AtomicAction::WebhookAlert { url } => AtomicAction::WebhookAlert { url: url.clone() },
            AtomicAction::LogCritical => AtomicAction::LogCritical,
        }
    }
}

/// Copies a list of actions.
pub fn clone_actions(actions: &Vec<AtomicAction>) -> (r: Vec<AtomicAction>)
    ensures
        r@ == actions@,
{
    let copy = actions.clone();
    assert(copy@ =~= actions@);
    copy
}

/// Where telemetry is read from.
#[derive(Debug, Clone, Copy, PartialEq, Eq, Structural)]
pub enum IngestionMode {
    File,
    Socket,
    Dual,
}

impl IngestionMode {
    /// Whether the socket server runs in this mode.
    pub fn uses_socket(self) -> (r: bool)
        ensures
            r == (self is Socket || self is Dual),
    {
        match self {
            IngestionMode::File => false,
            IngestionMode::Socket => true,
            IngestionMode::Dual => true,
        }
    }

    /// Whether the directory tailer runs in this mode.
    pub fn uses_files(self) -> (r: bool)
        ensures
            r == (self is File || self is Dual),
    {
        match self {
            IngestionMode::File => true,
            IngestionMode::Socket => false,
            IngestionMode::Dual => true,
        }
    }
}

/// The number of workers where the configuration gives none.
pub fn default_max_workers() -> (r: usize)
    ensures
        r == 100,
{
    100
}

/// The log level where the configuration gives none.
pub fn default_log_level() -> (r: LogLevel)
    ensures
        r == LogLevel::Info,
{
    LogLevel::Info
}

/// The parameters of the daemon.
#[derive(Debug)]
pub struct MonitorConfig {
    pub mode: IngestionMode,
    pub log_level: LogLevel,
    pub log_dir: String,
    pub check_interval_ms: u64,
    pub ip_whitelist: Vec<IpNetwork>,
    pub nftables_default_table: String,
    pub json_logging_enabled: bool,
    pub docker_socket_path: String,
    pub systemd_watchdog_interval_ms: u64,
    pub flush_firewall_on_shutdown: bool,
    pub max_workers: usize,
    pub security_manifest_paths: Vec<String>,
}

/// The whole configuration file.
#[derive(Debug)]
pub struct GuardConfig {
    pub monitor: MonitorConfig,
}

/// What to do about a detection, and what to do if that fails.
#[derive(Debug, PartialEq)]
pub struct PlaybookConfig {
    pub try_actions: Vec<AtomicAction>,
    pub final_actions: Vec<AtomicAction>,
}

/// A detection rule of a manifest: any of its patterns calls for its playbook.
#[derive(Debug)]
pub struct JsonRuleConfig {
    pub name: String,
    pub match_any: Vec<String>,
    pub playbook: String,
}

/// A detection rule that carries its own actions.
#[derive(Debug)]
pub struct RuleConfig {
    pub name: String,
    pub file_pattern: String,
    pub regex_match: String,
    pub try_actions: Vec<AtomicAction>,
    pub final_actions: Vec<AtomicAction>,
}

/// One manifest file.
#[derive(Debug)]
pub struct SecurityManifest {
    pub playbooks: Vec<(String, PlaybookConfig)>,
    pub rules: Vec<JsonRuleConfig>,
}

/// What reading a manifest file gave.
#[derive(Debug)]
pub enum ManifestSource {
    /// The file was read and holds a manifest.
    Loaded { path: String, manifest: SecurityManifest },
    /// The file could not be read.
    Unreadable { path: String },
    /// The file was read and holds no manifest.
    Malformed { path: String },
}

/// Why a set of manifests is refused.
#[derive(Debug)]
pub enum ConfigError {
    Unreadable { path: String },
    Malformed { path: String },
    PlaybookCollision { name: String, path: String },
    RuleCollision { name: String, path: String },
    NoRules,
    EmptyPlaybook { name: String },
    InvalidTimeout { playbook: String, timeout: String },
    UndefinedPlaybook { rule: String, playbook: String },
}

/// A `ConfigError` by the characters of its texts.
pub enum ConfigErrorView {
    Unreadable { path: Seq<char> },
    Malformed { path: Seq<char> },
    PlaybookCollision { name: Seq<char>, path: Seq<char> },
    RuleCollision { name: Seq<char>, path: Seq<char> },
    NoRules,
    EmptyPlaybook { name: Seq<char> },
    InvalidTimeout { playbook: Seq<char>, timeout: Seq<char> },
    UndefinedPlaybook { rule: Seq<char>, playbook: Seq<char> },
}

impl View for ConfigError {
    type V = ConfigErrorView;

    open spec fn view(&self) -> ConfigErrorView {
        match *self {
            ConfigError::Unreadable { path } => ConfigErrorView::Unreadable { path: path@ },
            ConfigError::Malformed { path } => ConfigErrorView::Malformed { path: path@ },
            ConfigError::PlaybookCollision { name, path } => ConfigErrorView::PlaybookCollision {
                name: name@,
                path: path@,
            },
            ConfigError::RuleCollision { name, path } => ConfigErrorView::RuleCollision {
                name: name@,
                path: path@,
            },
            ConfigError::NoRules => ConfigErrorView::NoRules,
            ConfigError::EmptyPlaybook { name } => ConfigErrorView::EmptyPlaybook { name: name@ },
            ConfigError::InvalidTimeout { playbook, timeout } => ConfigErrorView::InvalidTimeout {
                playbook: playbook@,
                timeout: timeout@,
            },
            ConfigError::UndefinedPlaybook { rule, playbook } =>
            ConfigErrorView::UndefinedPlaybook { rule: rule@, playbook: playbook@ },
        }
    }
}

impl ConfigErrorView {
    /// The error in words.
    pub open spec fn words(self) -> Seq<char> {
        match self {
            ConfigErrorView::Unreadable { path } => "Failed to read security manifest file: '"@
                + path + "'"@,
            ConfigErrorView::Malformed { path } =>
            "JSON schema structural verification failed for file: '"@ + path + "'"@,
            ConfigErrorView::PlaybookCollision { name, path } =>
            "Configuration Collision Error: Playbook name '"@ + name + "' found in '"@ + path
                + "' conflicts with an existing playbook declaration."@,
            ConfigErrorView::RuleCollision { name, path } =>
            "Configuration Collision Error: Rule name '"@ + name + "' defined in '"@ + path
                + "' conflicts with an existing rule declaration."@,
            ConfigErrorView::NoRules =>
            "Security Constraint Violation: At least one active detection rule must be defined across the manifest files."@,
            ConfigErrorView::EmptyPlaybook { name } => "Validation Error: Playbook '"@ + name
                + "' contains no operational try/final actions."@,
            ConfigErrorView::InvalidTimeout { playbook, timeout } =>
            "Security Constraint Violation: Playbook '"@ + playbook
                + "' contains an invalid firewall timeout format: '"@ + timeout + "'"@,
            ConfigErrorView::UndefinedPlaybook { rule, playbook } =>
            "Integrity Constraint Violation: Rule '"@ + rule
                + "' references an undefined playbook lookup identity: '"@ + playbook + "'."@,
        }
    }
}

impl ConfigError {
    /// The error in words.
    pub fn message(&self) -> (r: String)
        ensures
            r@ == self@.words(),
    {
        match self {
            ConfigError::Unreadable { path } => {
                let mut out = "Failed to read security manifest file: '".to_owned();
                out.append(path.as_str());
                out.append("'");
                out
            },
            ConfigError::Malformed { path } => {
                let mut out = "JSON schema structural verification failed for file: '".to_owned();
                out.append(path.as_str());
                out.append("'");
                out
            },
            ConfigError::PlaybookCollision { name, path } => {
                let mut out = "Configuration Collision Error: Playbook name '".to_owned();
                out.append(name.as_str());
                out.append("' found in '");
                out.append(path.as_str());
                out.append("' conflicts with an existing playbook declaration.");
                out
            },
            ConfigError::RuleCollision { name, path } => {
                let mut out = "Configuration Collision Error: Rule name '".to_owned();
                out.append(name.as_str());
                out.append("' defined in '");
                out.append(path.as_str());
                out.append("' conflicts with an existing rule declaration.");
                out
            },
            ConfigError::NoRules => {
                "Security Constraint Violation: At least one active detection rule must be defined across the manifest files.".to_owned()
            },
            ConfigError::EmptyPlaybook { name } => {
                let mut out = "Validation Error: Playbook '".to_owned();
                out.append(name.as_str());
                out.append("' contains no operational try/final actions.");
                out
            },
            ConfigError::InvalidTimeout { playbook, timeout } => {
                let mut out = "Security Constraint Violation: Playbook '".to_owned();
                out.append(playbook.as_str());
                out.append("' contains an invalid firewall timeout format: '");
                out.append(timeout.as_str());
                out.append("'");
                out
            },
            ConfigError::UndefinedPlaybook { rule, playbook } => {
                let mut out = "Integrity Constraint Violation: Rule '".to_owned();
                out.append(rule.as_str());
                out.append("' references an undefined playbook lookup identity: '");
                out.append(playbook.as_str());
                out.append("'.");
                out
            },
        }
    }
}

} // verus!
