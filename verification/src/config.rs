//! The YAML configuration model, its validation, and path and environment expansion.
use crate::env_file::{env_value, home_dir, EnvVars};
use crate::features::{is_registered, registry, registry_spec};
use crate::paths::{joined_path, parent_or_dot, parent_or_dot_of, path_join};
use crate::strmap::{keys_of, lemma_lookup_insert, lemma_lookup_keys, lookup, sorted_entries, StrMap};
use crate::text::{
    cat, chars_of, copy_str, views, find_chars_from, find_from, has_prefix, is_blank, is_blank_str,
    lemma_find_from, occurs_at, str_eq, str_lt, string_of, string_of_range,
};
use vstd::prelude::*;

verus! {

/// A YAML value carried through to connectors without being read by the parent.
#[verifier::external_type_specification]
#[verifier::external_body]
pub struct ExYamlValue(serde_yaml::Value);

/// `Clone` for `serde_yaml::Value`, which `serde_yaml` derives: the copy is the same value.
pub assume_specification[ <serde_yaml::Value as Clone>::clone ](v: &serde_yaml::Value) -> (r:
    serde_yaml::Value)
    ensures
        r == *v,
;

/// Why a configuration was rejected.
#[derive(Debug)]
pub enum ConfigError {
    MissingConnector(String),
    MissingDefaultConnector(String),
    EmptyConnectorCommand(String),
    InvalidConnectorTimeout(String),
    UnknownThreadConnector(String, String),
    WatchGloballyDisabled(String),
    QueueGloballyDisabled(String),
    MissingTelegramToken,
    MissingLlmProvider,
    MissingLlmModel,
    UnknownFeature(String),
}

/// A configuration fault, with names as character sequences.
pub enum ConfigFault {
    MissingConnector(Seq<char>),
    MissingDefaultConnector(Seq<char>),
    EmptyConnectorCommand(Seq<char>),
    InvalidConnectorTimeout(Seq<char>),
    UnknownThreadConnector(Seq<char>, Seq<char>),
    WatchGloballyDisabled(Seq<char>),
    QueueGloballyDisabled(Seq<char>),
    MissingTelegramToken,
    MissingLlmProvider,
    MissingLlmModel,
    UnknownFeature(Seq<char>),
}

impl View for ConfigError {
    type V = ConfigFault;

    open spec fn view(&self) -> ConfigFault {
        match self {
            ConfigError::MissingConnector(a) => ConfigFault::MissingConnector(a@),
            ConfigError::MissingDefaultConnector(a) => ConfigFault::MissingDefaultConnector(a@),
            ConfigError::EmptyConnectorCommand(a) => ConfigFault::EmptyConnectorCommand(a@),
            ConfigError::InvalidConnectorTimeout(a) => ConfigFault::InvalidConnectorTimeout(a@),
            ConfigError::UnknownThreadConnector(a, b) => ConfigFault::UnknownThreadConnector(
                a@,
                b@,
            ),
            ConfigError::WatchGloballyDisabled(a) => ConfigFault::WatchGloballyDisabled(a@),
            ConfigError::QueueGloballyDisabled(a) => ConfigFault::QueueGloballyDisabled(a@),
            ConfigError::MissingTelegramToken => ConfigFault::MissingTelegramToken,
            ConfigError::MissingLlmProvider => ConfigFault::MissingLlmProvider,
            ConfigError::MissingLlmModel => ConfigFault::MissingLlmModel,
            ConfigError::UnknownFeature(a) => ConfigFault::UnknownFeature(a@),
        }
    }
}

impl ConfigError {
    /// The human-readable message for the error.
    pub fn message(&self) -> (m: String)
        ensures
            m@ == match self@ {
                ConfigFault::MissingConnector(a) => "missing connector definition: "@ + a,
                ConfigFault::MissingDefaultConnector(a) => "default connector `"@ + a
                    + "` is not defined"@,
                ConfigFault::EmptyConnectorCommand(a) => "connector `"@ + a
                    + "` uses json protocol but has no command"@,
                ConfigFault::InvalidConnectorTimeout(a) => "connector `"@ + a
                    + "` has timeout_seconds < 1"@,
                ConfigFault::UnknownThreadConnector(a, b) => "thread `"@ + a
                    + "` references unknown connector `"@ + b + "`"@,
                ConfigFault::WatchGloballyDisabled(a) => "thread `"@ + a
                    + "` enables watch, but features.watch.enabled is false"@,
                ConfigFault::QueueGloballyDisabled(a) => "thread `"@ + a
                    + "` enables queue, but features.queue.enabled is false"@,
                ConfigFault::MissingTelegramToken =>
                    "telegram is enabled but mobile.telegram.bot_token is empty"@,
                ConfigFault::MissingLlmProvider =>
                    "llm_router is enabled but llm_router.provider is empty"@,
                ConfigFault::MissingLlmModel =>
                    "llm_router is enabled but llm_router.model is empty"@,
                ConfigFault::UnknownFeature(a) => "feature `"@ + a
                    + "` is not available in the parent feature registry"@,
            },
    {
        match self {
            ConfigError::MissingConnector(a) => cat("missing connector definition: ", a.as_str()),
            ConfigError::MissingDefaultConnector(a) => {
                let x = cat("default connector `", a.as_str());
                cat(x.as_str(), "` is not defined")
            },
            ConfigError::EmptyConnectorCommand(a) => {
                let x = cat("connector `", a.as_str());
                cat(x.as_str(), "` uses json protocol but has no command")
            },
            ConfigError::InvalidConnectorTimeout(a) => {
                let x = cat("connector `", a.as_str());
                cat(x.as_str(), "` has timeout_seconds < 1")
            },
            ConfigError::UnknownThreadConnector(a, b) => {
                let x = cat("thread `", a.as_str());
                let y = cat(x.as_str(), "` references unknown connector `");
                let z = cat(y.as_str(), b.as_str());
                cat(z.as_str(), "`")
            },
            ConfigError::WatchGloballyDisabled(a) => {
                let x = cat("thread `", a.as_str());
                cat(x.as_str(), "` enables watch, but features.watch.enabled is false")
            },
            ConfigError::QueueGloballyDisabled(a) => {
                let x = cat("thread `", a.as_str());
                cat(x.as_str(), "` enables queue, but features.queue.enabled is false")
            },
            ConfigError::MissingTelegramToken => copy_str(
                "telegram is enabled but mobile.telegram.bot_token is empty",
            ),
            ConfigError::MissingLlmProvider => copy_str(
                "llm_router is enabled but llm_router.provider is empty",
            ),
            ConfigError::MissingLlmModel => copy_str(
                "llm_router is enabled but llm_router.model is empty",
            ),
            ConfigError::UnknownFeature(a) => {
                let x = cat("feature `", a.as_str());
                cat(x.as_str(), "` is not available in the parent feature registry")
            },
        }
    }
}

#[derive(Debug)]
pub struct GatewayConfig {
    pub name: String,
    pub data_dir: String,
    pub log_level: String,
    pub hot_reload: HotReloadConfig,
}

impl Default for GatewayConfig {
    fn default() -> (c: Self)
        ensures
            c.name@ == "pocket-harness"@,
            c.data_dir@ == "~/.pocket-harness"@,
            c.log_level@ == "info"@,
            c.hot_reload.enabled,
            c.hot_reload.poll_interval_ms == 1500,
    {
        GatewayConfig {
            name: copy_str("pocket-harness"),
            data_dir: copy_str("~/.pocket-harness"),
            log_level: copy_str("info"),
            hot_reload: HotReloadConfig::default(),
        }
    }
}

#[derive(Debug, Clone, Copy, PartialEq, Eq, Structural)]
pub struct HotReloadConfig {
    pub enabled: bool,
    pub poll_interval_ms: u64,
}

impl Default for HotReloadConfig {
    fn default() -> (c: Self)
        ensures
            c.enabled,
            c.poll_interval_ms == 1500,
    {
        HotReloadConfig { enabled: true, poll_interval_ms: 1500 }
    }
}

#[derive(Debug, Clone, Copy, PartialEq, Eq, Structural)]
pub struct RecoveryConfig {
    pub enabled: bool,
    pub on_invalid_config: RecoveryAction,
    pub on_connector_break: RecoveryAction,
    pub write_rejection_report: bool,
    pub keep_history: usize,
}

impl Default for RecoveryConfig {
    fn default() -> (c: Self)
        ensures
            c.enabled,
            c.on_invalid_config == RecoveryAction::KeepActive,
            c.on_connector_break == RecoveryAction::RollbackToLastKnownGood,
            c.write_rejection_report,
            c.keep_history == 20,
    {
        RecoveryConfig {
            enabled: true,
            on_invalid_config: RecoveryAction::KeepActive,
            on_connector_break: RecoveryAction::RollbackToLastKnownGood,
            write_rejection_report: true,
            keep_history: 20,
        }
    }
}

impl RecoveryConfig {
    /// Whether a connector break restores the last-known-good config.
    pub fn rolls_back_on_connector_break(&self) -> (b: bool)
        ensures
            b == (self.enabled && self.on_connector_break == RecoveryAction::RollbackToLastKnownGood),
    {
        self.enabled && match self.on_connector_break {
            RecoveryAction::RollbackToLastKnownGood => true,
            RecoveryAction::KeepActive => false,
        }
    }
}

#[derive(Debug, Clone, Copy, PartialEq, Eq, Structural)]
pub enum RecoveryAction {
    KeepActive,
    RollbackToLastKnownGood,
}

#[derive(Debug, Clone, Copy, PartialEq, Eq, Structural)]
pub struct FeaturesConfig {
    pub screenshots: FeatureToggle,
    pub file_transfer: FileTransferFeature,
    pub terminal: TerminalFeature,
    pub watch: WatchFeature,
    pub queue: QueueFeature,
    pub cancel: FeatureToggle,
    pub history: HistoryFeature,
    pub threads: FeatureToggle,
    pub images: ImageFeature,
    pub llm_router: FeatureToggle,
}

impl FeaturesConfig {
    /// The default features: everything on except the LLM router.
    pub open spec fn spec_default() -> Self {
        FeaturesConfig {
            screenshots: FeatureToggle { enabled: true },
            file_transfer: FileTransferFeature::spec_default(),
            terminal: TerminalFeature::spec_default(),
            watch: WatchFeature::spec_default(),
            queue: QueueFeature::spec_default(),
            cancel: FeatureToggle { enabled: true },
            history: HistoryFeature::spec_default(),
            threads: FeatureToggle { enabled: true },
            images: ImageFeature::spec_default(),
            llm_router: FeatureToggle { enabled: false },
        }
    }
}

impl Default for FeaturesConfig {
    fn default() -> (c: Self)
        ensures
            c == Self::spec_default(),
    {
        FeaturesConfig {
            screenshots: FeatureToggle { enabled: true },
            file_transfer: FileTransferFeature::default(),
            terminal: TerminalFeature::default(),
            watch: WatchFeature::default(),
            queue: QueueFeature::default(),
            cancel: FeatureToggle { enabled: true },
            history: HistoryFeature::default(),
            threads: FeatureToggle { enabled: true },
            images: ImageFeature::default(),
            llm_router: FeatureToggle { enabled: false },
        }
    }
}

#[derive(Debug, Clone, Copy, PartialEq, Eq, Structural)]
pub struct FeatureToggle {
    pub enabled: bool,
}

impl Default for FeatureToggle {
    fn default() -> (c: Self)
        ensures
            !c.enabled,
    {
        FeatureToggle { enabled: false }
    }
}

#[derive(Debug, Clone, Copy, PartialEq, Eq, Structural)]
pub struct FileTransferFeature {
    pub enabled: bool,
    pub max_bytes: u64,
    pub allow_sensitive_paths: bool,
}

impl FileTransferFeature {
    pub open spec fn spec_default() -> Self {
        FileTransferFeature { enabled: true, max_bytes: 20971520, allow_sensitive_paths: false }
    }
}

impl Default for FileTransferFeature {
    fn default() -> (c: Self)
        ensures
            c == Self::spec_default(),
    {
        FileTransferFeature {
            enabled: true,
            max_bytes: 20 * 1024 * 1024,
            allow_sensitive_paths: false,
        }
    }
}

#[derive(Debug, Clone, Copy, PartialEq, Eq, Structural)]
pub struct TerminalFeature {
    pub enabled: bool,
    pub max_sessions: usize,
    pub read_limit: usize,
}

impl TerminalFeature {
    pub open spec fn spec_default() -> Self {
        TerminalFeature { enabled: true, max_sessions: 4, read_limit: 4000 }
    }
}

impl Default for TerminalFeature {
    fn default() -> (c: Self)
        ensures
            c == Self::spec_default(),
    {
        TerminalFeature { enabled: true, max_sessions: 4, read_limit: 4000 }
    }
}

#[derive(Debug, Clone, Copy, PartialEq, Eq, Structural)]
pub struct WatchFeature {
    pub enabled: bool,
    pub default_interval_seconds: u64,
}

impl WatchFeature {
    pub open spec fn spec_default() -> Self {
        WatchFeature { enabled: true, default_interval_seconds: 20 }
    }
}

impl Default for WatchFeature {
    fn default() -> (c: Self)
        ensures
            c == Self::spec_default(),
    {
        WatchFeature { enabled: true, default_interval_seconds: 20 }
    }
}

#[derive(Debug, Clone, Copy, PartialEq, Eq, Structural)]
pub struct QueueFeature {
    pub enabled: bool,
    pub max_depth: usize,
}

impl QueueFeature {
    pub open spec fn spec_default() -> Self {
        QueueFeature { enabled: true, max_depth: 20 }
    }
}

impl Default for QueueFeature {
    fn default() -> (c: Self)
        ensures
            c == Self::spec_default(),
    {
        QueueFeature { enabled: true, max_depth: 20 }
    }
}

#[derive(Debug, Clone, Copy, PartialEq, Eq, Structural)]
pub struct HistoryFeature {
    pub enabled: bool,
    pub max_receipts: usize,
}

impl HistoryFeature {
    pub open spec fn spec_default() -> Self {
        HistoryFeature { enabled: true, max_receipts: 200 }
    }
}

impl Default for HistoryFeature {
    fn default() -> (c: Self)
        ensures
            c == Self::spec_default(),
    {
        HistoryFeature { enabled: true, max_receipts: 200 }
    }
}

#[derive(Debug, Clone, Copy, PartialEq, Eq, Structural)]
pub struct ImageFeature {
    pub enabled: bool,
    pub max_images_per_message: usize,
    pub max_bytes: u64,
    pub retention_days: u64,
}

impl ImageFeature {
    pub open spec fn spec_default() -> Self {
        ImageFeature {
            enabled: true,
            max_images_per_message: 10,
            max_bytes: 20971520,
            retention_days: 7,
        }
    }
}

impl Default for ImageFeature {
    fn default() -> (c: Self)
        ensures
            c == Self::spec_default(),
    {
        ImageFeature {
            enabled: true,
            max_images_per_message: 10,
            max_bytes: 20 * 1024 * 1024,
            retention_days: 7,
        }
    }
}

#[derive(Debug)]
pub struct MobileConfig {
    pub telegram: TelegramConfig,
}

impl Default for MobileConfig {
    fn default() -> (c: Self)
        ensures
            !c.telegram.enabled,
            c.telegram.bot_token@ == "$TELEGRAM_BOT_TOKEN"@,
            c.telegram.allowed_users@.len() == 0,
            c.telegram.allowed_chats@.len() == 0,
            !c.telegram.allow_group_chats,
            !c.telegram.reply_to_messages,
            c.telegram.poll_timeout_seconds == 25,
    {
        MobileConfig { telegram: TelegramConfig::default() }
    }
}

#[derive(Debug)]
pub struct TelegramConfig {
    pub enabled: bool,
    pub bot_token: String,
    pub allowed_users: Vec<i64>,
    pub allowed_chats: Vec<i64>,
    pub allow_group_chats: bool,
    pub reply_to_messages: bool,
    pub poll_timeout_seconds: u64,
}

impl Default for TelegramConfig {
    fn default() -> (c: Self)
        ensures
            !c.enabled,
            c.bot_token@ == "$TELEGRAM_BOT_TOKEN"@,
            c.allowed_users@.len() == 0,
            c.allowed_chats@.len() == 0,
            !c.allow_group_chats,
            !c.reply_to_messages,
            c.poll_timeout_seconds == 25,
    {
        TelegramConfig {
            enabled: false,
            bot_token: copy_str("$TELEGRAM_BOT_TOKEN"),
            allowed_users: Vec::new(),
            allowed_chats: Vec::new(),
            allow_group_chats: false,
            reply_to_messages: false,
            poll_timeout_seconds: 25,
        }
    }
}

#[derive(Debug)]
pub struct LlmRouterConfig {
    pub enabled: bool,
    pub provider: String,
    pub base_url: String,
    pub api_key: String,
    pub model: String,
    pub natural_commands: bool,
    pub polish_replies: bool,
    pub catalog_path: String,
}

impl Default for LlmRouterConfig {
    fn default() -> (c: Self)
        ensures
            !c.enabled,
            c.provider@ == "openai_compatible"@,
            c.base_url@ == "https://api.openai.com/v1"@,
            c.api_key@ == "$OPENAI_API_KEY"@,
            c.model@ == ""@,
            c.natural_commands,
            c.polish_replies,
            c.catalog_path@ == "providers.yaml"@,
    {
        LlmRouterConfig {
            enabled: false,
            provider: copy_str("openai_compatible"),
            base_url: copy_str("https://api.openai.com/v1"),
            api_key: copy_str("$OPENAI_API_KEY"),
            model: copy_str(""),
            natural_commands: true,
            polish_replies: true,
            catalog_path: copy_str("providers.yaml"),
        }
    }
}

#[derive(Debug)]
pub struct ConnectorsConfig {
    pub default: String,
    pub definitions: StrMap<ConnectorConfig>,
}

impl Default for ConnectorsConfig {
    fn default() -> (c: Self)
        ensures
            c.default@ == "echo"@,
            c.definitions@.len() == 1,
            c.definitions@[0].0 == "echo"@,
            c.definitions@[0].1.kind == ConnectorKind::BuiltinEcho,
            c.definitions@[0].1.display_name@ == "Echo"@,
            c.definitions@[0].1.command@.len() == 0,
            c.definitions@[0].1.cwd@ == "."@,
            c.definitions@[0].1.timeout_seconds == 30,
            c.definitions@[0].1.env@.len() == 0,
            c.definitions@[0].1.settings@.len() == 0,
    {
        let mut definitions: StrMap<ConnectorConfig> = StrMap::new();
        let echo = ConnectorConfig {
            kind: ConnectorKind::BuiltinEcho,
            display_name: copy_str("Echo"),
            command: Vec::new(),
            cwd: copy_str("."),
            timeout_seconds: 30,
            env: StrMap::new(),
            settings: StrMap::new(),
        };
        definitions.insert(copy_str("echo"), echo);
        ConnectorsConfig { default: copy_str("echo"), definitions }
    }
}

#[derive(Debug, Clone, Copy, PartialEq, Eq, Structural)]
pub enum ConnectorKind {
    BuiltinEcho,
    Json,
}

impl Default for ConnectorKind {
    fn default() -> (k: Self)
        ensures
            k == ConnectorKind::BuiltinEcho,
    {
        ConnectorKind::BuiltinEcho
    }
}

#[derive(Debug)]
pub struct ConnectorConfig {
    pub kind: ConnectorKind,
    pub display_name: String,
    pub command: Vec<String>,
    pub cwd: String,
    pub timeout_seconds: u64,
    pub env: StrMap<String>,
    pub settings: StrMap<serde_yaml::Value>,
}

impl Default for ConnectorConfig {
    fn default() -> (c: Self)
        ensures
            c.kind == ConnectorKind::BuiltinEcho,
            c.display_name@ == ""@,
            c.command@.len() == 0,
            c.cwd@ == "."@,
            c.timeout_seconds == 60,
            c.env@.len() == 0,
            c.settings@.len() == 0,
    {
        ConnectorConfig {
            kind: ConnectorKind::BuiltinEcho,
            display_name: copy_str(""),
            command: Vec::new(),
            cwd: copy_str("."),
            timeout_seconds: 60,
            env: StrMap::new(),
            settings: StrMap::new(),
        }
    }
}

#[derive(Debug)]
pub struct ThreadConfig {
    pub connector: Option<String>,
    pub cwd: String,
    pub watch: ThreadWatchConfig,
    pub queue: ThreadQueueConfig,
    pub reply_style: ReplyStyle,
}

impl ThreadConfig {
    /// The default thread: default connector, home directory, no watch, queue on.
    pub open spec fn is_default(self) -> bool {
        &&& self.connector is None
        &&& self.cwd@ == "~"@
        &&& !self.watch.enabled
        &&& self.queue.enabled
        &&& self.reply_style == ReplyStyle::Normal
    }
}

impl Default for ThreadConfig {
    fn default() -> (c: Self)
        ensures
            c.is_default(),
    {
        ThreadConfig {
            connector: None,
            cwd: copy_str("~"),
            watch: ThreadWatchConfig { enabled: false },
            queue: ThreadQueueConfig { enabled: true },
            reply_style: ReplyStyle::Normal,
        }
    }
}

impl Clone for ThreadConfig {
    fn clone(&self) -> (c: Self)
        ensures
            c == *self,
    {
        ThreadConfig {
            connector: match &self.connector {
                Some(n) => Some(n.clone()),
                None => None,
            },
            cwd: self.cwd.clone(),
            watch: self.watch,
            queue: self.queue,
            reply_style: self.reply_style,
        }
    }
}

#[derive(Debug, Clone, Copy, PartialEq, Eq, Structural)]
pub struct ThreadWatchConfig {
    pub enabled: bool,
}

impl Default for ThreadWatchConfig {
    fn default() -> (c: Self)
        ensures
            !c.enabled,
    {
        ThreadWatchConfig { enabled: false }
    }
}

#[derive(Debug, Clone, Copy, PartialEq, Eq, Structural)]
pub struct ThreadQueueConfig {
    pub enabled: bool,
}

impl Default for ThreadQueueConfig {
    fn default() -> (c: Self)
        ensures
            c.enabled,
    {
        ThreadQueueConfig { enabled: true }
    }
}

#[derive(Debug, Clone, Copy, PartialEq, Eq, Structural)]
pub enum ReplyStyle {
    Brief,
    Normal,
    Verbose,
}

impl Default for ReplyStyle {
    fn default() -> (s: Self)
        ensures
            s == ReplyStyle::Normal,
    {
        ReplyStyle::Normal
    }
}

/// The whole configuration.
#[derive(Debug)]
pub struct AppConfig {
    pub schema_version: u32,
    pub gateway: GatewayConfig,
    pub recovery: RecoveryConfig,
    pub features: FeaturesConfig,
    pub mobile: MobileConfig,
    pub llm_router: LlmRouterConfig,
    pub connectors: ConnectorsConfig,
    pub threads: StrMap<ThreadConfig>,
}

impl Default for AppConfig {
    fn default() -> (c: Self)
        ensures
            c.schema_version == 1,
            c.threads@.len() == 1,
            c.threads@[0].0 == "main"@,
            c.threads@[0].1.is_default(),
            c.connectors.default@ == "echo"@,
            c.connectors.definitions@.len() == 1,
            c.connectors.definitions@[0].0 == "echo"@,
            c.connectors.definitions@[0].1.kind == ConnectorKind::BuiltinEcho,
            c.connectors.definitions@[0].1.display_name@ == "Echo"@,
            c.connectors.definitions@[0].1.command@.len() == 0,
            c.connectors.definitions@[0].1.cwd@ == "."@,
            c.connectors.definitions@[0].1.timeout_seconds == 30,
            c.connectors.definitions@[0].1.env@.len() == 0,
            c.connectors.definitions@[0].1.settings@.len() == 0,
            c.features == FeaturesConfig::spec_default(),
            !c.mobile.telegram.enabled,
            c.mobile.telegram.bot_token@ == "$TELEGRAM_BOT_TOKEN"@,
            c.mobile.telegram.allowed_users@.len() == 0,
            c.mobile.telegram.allowed_chats@.len() == 0,
            !c.mobile.telegram.allow_group_chats,
            !c.mobile.telegram.reply_to_messages,
            c.mobile.telegram.poll_timeout_seconds == 25,
            !c.llm_router.enabled,
            c.llm_router.provider@ == "openai_compatible"@,
            c.llm_router.base_url@ == "https://api.openai.com/v1"@,
            c.llm_router.api_key@ == "$OPENAI_API_KEY"@,
            c.llm_router.model@ == ""@,
            c.llm_router.natural_commands,
            c.llm_router.polish_replies,
            c.llm_router.catalog_path@ == "providers.yaml"@,
            c.gateway.data_dir@ == "~/.pocket-harness"@,
            c.gateway.name@ == "pocket-harness"@,
            c.gateway.log_level@ == "info"@,
            c.gateway.hot_reload.enabled,
            c.gateway.hot_reload.poll_interval_ms == 1500,
            c.recovery.enabled,
            c.recovery.on_invalid_config == RecoveryAction::KeepActive,
            c.recovery.on_connector_break == RecoveryAction::RollbackToLastKnownGood,
            c.recovery.write_rejection_report,
            c.recovery.keep_history == 20,
    {
        let mut threads: StrMap<ThreadConfig> = StrMap::new();
        threads.insert(copy_str("main"), ThreadConfig::default());
        AppConfig {
            schema_version: 1,
            gateway: GatewayConfig::default(),
            recovery: RecoveryConfig::default(),
            features: FeaturesConfig::default(),
            mobile: MobileConfig::default(),
            llm_router: LlmRouterConfig::default(),
            connectors: ConnectorsConfig::default(),
            threads,
        }
    }
}

// ---------------------------------------------------------------------------------------------
// Environment expansion
/// Characters that may appear in a `$NAME` reference.
pub open spec fn is_name_char(c: char) -> bool {
    ('a' <= c && c <= 'z') || ('A' <= c && c <= 'Z') || ('0' <= c && c <= '9') || c == '_'
}

/// The end of the run of name characters starting at `j`.
pub open spec fn name_end(s: Seq<char>, j: int) -> int
    decreases s.len() - j,
{
    if j < 0 || j >= s.len() || !is_name_char(s[j]) {
        j
    } else {
        name_end(s, j + 1)
    }
}

pub proof fn lemma_name_end(s: Seq<char>, j: int)
    requires
        0 <= j,
    ensures
        j <= name_end(s, j),
        j <= s.len() ==> name_end(s, j) <= s.len(),
    decreases s.len() - j,
{
    if j < s.len() && is_name_char(s[j]) {
        lemma_name_end(s, j + 1);
    }
}

/// `s[i..]` with each `$NAME` and `${NAME}` replaced by the variable's value (empty where
/// unset); a `$` that starts no reference, or a `${` without a closing brace, stays.
pub open spec fn expand_from(s: Seq<char>, i: int, env: Seq<(Seq<char>, String)>) -> Seq<char>
    decreases s.len() - i,
{
    if i < 0 || i >= s.len() {
        Seq::empty()
    } else if s[i] != '$' {
        seq![s[i]] + expand_from(s, i + 1, env)
    } else if i + 1 >= s.len() {
        seq!['$'] + expand_from(s, i + 1, env)
    } else if s[i + 1] == '{' {
        match find_from(s, seq!['}'], i + 2) {
            Some(j) => {
                if i + 2 <= j < s.len() {
                    env_value(env, s.subrange(i + 2, j)) + expand_from(s, j + 1, env)
                } else {
                    Seq::empty()
                }
            },
            None => seq!['$'] + expand_from(s, i + 1, env),
        }
    } else {
        let j = name_end(s, i + 1);
        if j <= i + 1 || j > s.len() {
            seq!['$'] + expand_from(s, i + 1, env)
        } else {
            env_value(env, s.subrange(i + 1, j)) + expand_from(s, j, env)
        }
    }
}

/// `s` with its environment references expanded.
pub open spec fn expand(s: Seq<char>, env: Seq<(Seq<char>, String)>) -> Seq<char> {
    expand_from(s, 0, env)
}

fn is_name_char_exec(c: char) -> (b: bool)
    ensures
        b == is_name_char(c),
{
    ('a' <= c && c <= 'z') || ('A' <= c && c <= 'Z') || ('0' <= c && c <= '9') || c == '_'
}

fn push_all(out: &mut Vec<char>, s: &str)
    ensures
        final(out)@ == old(out)@ + s@,
{
    let v = chars_of(s);
    let mut i: usize = 0;
    let ghost start = out@;
    while i < v.len()
        invariant
            i <= v.len(),
            v@ == s@,
            out@ == start + v@.take(i as int),
        decreases v.len() - i,
    {
        out.push(v[i]);
        i = i + 1;
        assert(v@.take(i as int) == v@.take((i - 1) as int).push(v@[i - 1]));
    }
    assert(v@.take(v.len() as int) == v@);
}

/// Expands `$NAME` and `${NAME}` references with values from `env`; unset names expand to
/// the empty string.
pub fn expand_string(raw: &str, env: &EnvVars) -> (r: String)
    ensures
        r@ == expand(raw@, env@),
{
    let s = chars_of(raw);
    let n = s.len();
    let close: Vec<char> = vec!['}'];
    let mut out: Vec<char> = Vec::new();
    let mut i: usize = 0;
    while i < n
        invariant
            i <= n == s.len(),
            s@ == raw@,
            close@ == seq!['}'],
            expand(raw@, env@) == out@ + expand_from(raw@, i as int, env@),
        decreases n - i,
    {
        let ghost before = out@;
        if s[i] != '$' {
            out.push(s[i]);
            i = i + 1;
            assert(out@ == before + seq![s@[i - 1]]);
        } else if i + 1 >= n {
            out.push('$');
            i = i + 1;
        } else if s[i + 1] == '{' {
            match find_chars_from(s.as_slice(), close.as_slice(), i + 2) {
                Some(j) => {
                    proof {
                        lemma_find_from(raw@, seq!['}'], i + 2);
                    }
                    let key = string_of_range(s.as_slice(), i + 2, j);
                    let value = env.value_or_empty(key.as_str());
                    push_all(&mut out, value.as_str());
                    i = j + 1;
                },
                None => {
                    out.push('$');
                    i = i + 1;
                },
            }
        } else {
            let mut j = i + 1;
            while j < n && is_name_char_exec(s[j])
                invariant
                    i + 1 <= j <= n == s.len(),
                    s@ == raw@,
                    name_end(raw@, (i + 1) as int) == name_end(raw@, j as int),
                decreases n - j,
            {
                j = j + 1;
            }
            if j == i + 1 {
                out.push('$');
                i = i + 1;
            } else {
                let key = string_of_range(s.as_slice(), i + 1, j);
                let value = env.value_or_empty(key.as_str());
                push_all(&mut out, value.as_str());
                i = j;
            }
        }
    }
    string_of(out.as_slice())
}

/// A string without `$` expands to itself.
pub proof fn law_expand_without_references(s: Seq<char>, env: Seq<(Seq<char>, String)>)
    requires
        forall|i: int| 0 <= i < s.len() ==> s[i] != '$',
    ensures
        expand(s, env) == s,
{
    lemma_expand_plain_from(s, env, 0);
    assert(s.skip(0) == s);
}

proof fn lemma_expand_plain_from(s: Seq<char>, env: Seq<(Seq<char>, String)>, i: int)
    requires
        0 <= i <= s.len(),
        forall|k: int| 0 <= k < s.len() ==> s[k] != '$',
    ensures
        expand_from(s, i, env) == s.skip(i),
    decreases s.len() - i,
{
    if i < s.len() {
        lemma_expand_plain_from(s, env, i + 1);
        assert(seq![s[i]] + s.skip(i + 1) == s.skip(i));
    }
}

/// A reference to a variable that is not set expands to the empty string, in both the
/// `$NAME` and the `${NAME}` form.
pub proof fn law_unset_variable_expands_to_empty(name: Seq<char>, env: Seq<(Seq<char>, String)>)
    requires
        name.len() > 0,
        forall|i: int| 0 <= i < name.len() ==> is_name_char(#[trigger] name[i]),
        lookup(env, name) is None,
    ensures
        expand(seq!['$'] + name, env) == Seq::<char>::empty(),
        expand(seq!['$', '{'] + name + seq!['}'], env) == Seq::<char>::empty(),
{
    let s = seq!['$'] + name;
    lemma_name_run_to_end(s, 1);
    assert(s.subrange(1, s.len() as int) =~= name);
    assert(expand_from(s, s.len() as int, env) == Seq::<char>::empty());
    let b = seq!['$', '{'] + name + seq!['}'];
    let close = seq!['}'];
    assert forall|k: int| 2 <= k < b.len() - 1 implies !occurs_at(b, close, k) by {
        assert(b[k] == name[k - 2]);
        assert(b.subrange(k, k + 1)[0] == b[k]);
    }
    assert(occurs_at(b, close, b.len() - 1)) by {
        assert(b.subrange(b.len() - 1, b.len() as int) =~= close);
    }
    lemma_find_from(b, close, 2);
    assert(find_from(b, close, 2) == Some(b.len() - 1));
    assert(b.subrange(2, b.len() - 1) =~= name);
    assert(expand_from(b, b.len() as int, env) == Seq::<char>::empty());
}

proof fn lemma_name_run_to_end(s: Seq<char>, j: int)
    requires
        1 <= j <= s.len(),
        forall|i: int| 1 <= i < s.len() ==> is_name_char(#[trigger] s[i]),
    ensures
        name_end(s, j) == s.len(),
    decreases s.len() - j,
{
    if j < s.len() {
        lemma_name_run_to_end(s, j + 1);
    }
}

/// The path `raw` with environment references expanded and a leading `~` replaced by the
/// home directory where `HOME` is set.
pub open spec fn expanded_path(raw: Seq<char>, env: Seq<(Seq<char>, String)>) -> Seq<char> {
    let e = expand(raw, env);
    match lookup(env, "HOME"@) {
        Some(home) => if has_prefix(e, "~/"@) {
            joined_path(home@, e.skip(2))
        } else if e == "~"@ {
            home@
        } else {
            e
        },
        None => e,
    }
}

/// Expands environment references and a leading `~` in a path.
pub fn expand_path(raw: &str, env: &EnvVars) -> (r: String)
    ensures
        r@ == expanded_path(raw@, env@),
{
    let expanded = expand_string(raw, env);
    let v = chars_of(expanded.as_str());
    match home_dir(env) {
        Some(home) => {
            if v.len() >= 2 && v[0] == '~' && v[1] == '/' {
                proof {
                    reveal_strlit("~/");
                    assert(expanded@.subrange(0, 2) == "~/"@);
                }
                let rest = string_of_range(v.as_slice(), 2, v.len());
                assert(rest@ == expanded@.skip(2));
                path_join(home.as_str(), rest.as_str())
            } else if v.len() == 1 && v[0] == '~' {
                proof {
                    reveal_strlit("~");
                    reveal_strlit("~/");
                    assert(expanded@ == "~"@);
                }
                home
            } else {
                proof {
                    reveal_strlit("~");
                    reveal_strlit("~/");
                    if v.len() >= 2 {
                        assert(expanded@.subrange(0, 2) != "~/"@ || !(v@[0] == '~' && v@[1]
                            == '/'));
                        if expanded@.subrange(0, 2) == "~/"@ {
                            assert(expanded@.subrange(0, 2)[0] == '~');
                            assert(expanded@.subrange(0, 2)[1] == '/');
                        }
                    }
                    if expanded@ == "~"@ {
                        assert(expanded@[0] == '~');
                    }
                }
                expanded
            }
        },
        None => expanded,
    }
}

/// The private state directory next to a config file.
pub open spec fn default_state_dir_of(config_path: Seq<char>) -> Seq<char> {
    joined_path(parent_or_dot(config_path), ".pocket-harness-state"@)
}

/// The private state directory next to a config file: `.pocket-harness-state` beside it.
pub fn default_state_dir(config_path: &str) -> (r: String)
    ensures
        r@ == default_state_dir_of(config_path@),
{
    let parent = parent_or_dot_of(config_path);
    path_join(parent.as_str(), ".pocket-harness-state")
}

// ---------------------------------------------------------------------------------------------
// Validation
/// The first connector definition (in name order) with a bad timeout or an empty JSON command.
pub open spec fn connector_fault(defs: Seq<(Seq<char>, ConnectorConfig)>) -> Option<ConfigFault>
    decreases defs.len(),
{
    if defs.len() == 0 {
        None
    } else if defs[0].1.timeout_seconds < 1 {
        Some(ConfigFault::InvalidConnectorTimeout(defs[0].0))
    } else if defs[0].1.kind == ConnectorKind::Json && defs[0].1.command@.len() == 0 {
        Some(ConfigFault::EmptyConnectorCommand(defs[0].0))
    } else {
        connector_fault(defs.drop_first())
    }
}

/// The connector a thread names, or the default connector.
pub open spec fn thread_connector(t: ThreadConfig, default: Seq<char>) -> Seq<char> {
    match t.connector {
        Some(n) => n@,
        None => default,
    }
}

/// The first thread (in name order) whose connector is undefined or which enables watch or
/// queue while that feature is globally off.
pub open spec fn thread_fault(
    threads: Seq<(Seq<char>, ThreadConfig)>,
    c: AppConfig,
) -> Option<ConfigFault>
    decreases threads.len(),
{
    if threads.len() == 0 {
        None
    } else {
        let name = threads[0].0;
        let t = threads[0].1;
        let conn = thread_connector(t, c.connectors.default@);
        if lookup(c.connectors.definitions@, conn) is None {
            Some(ConfigFault::UnknownThreadConnector(name, conn))
        } else if t.watch.enabled && !c.features.watch.enabled {
            Some(ConfigFault::WatchGloballyDisabled(name))
        } else if t.queue.enabled && !c.features.queue.enabled {
            Some(ConfigFault::QueueGloballyDisabled(name))
        } else {
            thread_fault(threads.drop_first(), c)
        }
    }
}

/// The first fault of a configuration, checked in this order: the default connector exists;
/// each connector definition; each thread; the Telegram token (after expansion); the LLM
/// router's provider and model.
pub open spec fn config_fault(c: AppConfig, env: Seq<(Seq<char>, String)>) -> Option<ConfigFault> {
    if lookup(c.connectors.definitions@, c.connectors.default@) is None {
        Some(ConfigFault::MissingDefaultConnector(c.connectors.default@))
    } else if connector_fault(c.connectors.definitions@) is Some {
        connector_fault(c.connectors.definitions@)
    } else if thread_fault(c.threads@, c) is Some {
        thread_fault(c.threads@, c)
    } else if c.mobile.telegram.enabled && is_blank(expand(c.mobile.telegram.bot_token@, env)) {
        Some(ConfigFault::MissingTelegramToken)
    } else if c.llm_router.enabled && is_blank(c.llm_router.provider@) {
        Some(ConfigFault::MissingLlmProvider)
    } else if c.llm_router.enabled && is_blank(c.llm_router.model@) {
        Some(ConfigFault::MissingLlmModel)
    } else {
        None
    }
}

/// The feature keys a configuration enables.
pub open spec fn enabled_feature(c: AppConfig, k: Seq<char>) -> bool {
    ||| (c.mobile.telegram.enabled && k == "gateway.telegram"@)
    ||| ((c.llm_router.enabled || c.features.llm_router.enabled) && k == "gateway.llm_router"@)
    ||| (c.features.queue.enabled && k == "jobs.queue"@)
    ||| (c.features.cancel.enabled && k == "jobs.cancel"@)
    ||| (c.features.history.enabled && k == "jobs.history"@)
    ||| (c.features.threads.enabled && (k == "threads.named"@ || k == "threads.cwd"@))
    ||| (c.features.watch.enabled && k == "threads.watch"@)
    ||| (c.features.images.enabled && k == "attachments.images"@)
    ||| (c.features.file_transfer.enabled && k == "attachments.files"@)
    ||| (c.features.screenshots.enabled && k == "mac.screenshot"@)
    ||| (c.features.terminal.enabled && k == "mac.terminal"@)
    ||| k == "connector.health"@
    ||| k == "connector.run"@
    ||| k == "connector.status"@
    ||| k == "connector.capabilities"@
}

/// A sequence of strings in strictly increasing order.
pub open spec fn strictly_sorted(s: Seq<Seq<char>>) -> bool {
    forall|i: int, j: int| 0 <= i < j < s.len() ==> str_lt(#[trigger] s[i], #[trigger] s[j])
}

/// Adds a key to a set of strings.
pub fn add_key(set: &mut StrMap<()>, key: &str)
    ensures
        forall|k: Seq<char>| #[trigger]
            (lookup(final(set)@, k) is Some) == (lookup(old(set)@, k) is Some || k == key@),
{
    let ghost s = set@;
    set.insert(copy_str(key), ());
    proof {
        assert forall|k: Seq<char>| #[trigger]
            (lookup(set@, k) is Some) == (lookup(s, k) is Some || k == key@) by {
            lemma_lookup_insert(s, key@, (), k);
        }
    }
}

/// The keys of a string set, in order.
pub fn sorted_keys(set: &StrMap<()>) -> (r: Vec<String>)
    ensures
        strictly_sorted(views(r@)),
        forall|k: Seq<char>| #[trigger]
            views(r@).contains(k) == (lookup(set@, k) is Some),
{
    let _ = set.len();
    let r = set.keys();
    proof {
        assert forall|k: Seq<char>| #[trigger]
            views(r@).contains(k) == (lookup(set@, k) is Some) by {
            lemma_lookup_keys(set@, k);
        }
        let ks = views(r@);
        assert forall|i: int, j: int| 0 <= i < j < ks.len() implies str_lt(
            #[trigger] ks[i],
            #[trigger] ks[j],
        ) by {
            assert(ks[i] == set@[i].0);
            assert(ks[j] == set@[j].0);
        }
    }
    r
}

impl AppConfig {
    /// Checks the configuration; the error is the first fault in the order of
    /// `config_fault`. Feature keys are checked first and are always registered.
    pub fn validate(&self, env: &EnvVars) -> (r: Result<(), ConfigError>)
        ensures
            match config_fault(*self, env@) {
                None => r is Ok,
                Some(f) => r matches Err(e) && e@ == f,
            },
    {
        match self.validate_features() {
            Ok(()) => {},
            Err(e) => {
                return Err(e);
            },
        }
        if !self.connectors.definitions.contains_key(self.connectors.default.as_str()) {
            return Err(ConfigError::MissingDefaultConnector(self.connectors.default.clone()));
        }
        let defs = &self.connectors.definitions;
        let n = defs.len();
        let mut i: usize = 0;
        assert(defs@.skip(0) == defs@);
        while i < n
            invariant
                i <= n == defs@.len(),
                defs@ == self.connectors.definitions@,
                lookup(self.connectors.definitions@, self.connectors.default@) is Some,
                connector_fault(defs@) == connector_fault(defs@.skip(i as int)),
            decreases n - i,
        {
            let (name, connector) = defs.entry(i);
            proof {
                assert(defs@.skip(i as int)[0] == defs@[i as int]);
                assert(defs@.skip(i as int).drop_first() == defs@.skip(i + 1));
            }
            if connector.timeout_seconds < 1 {
                return Err(ConfigError::InvalidConnectorTimeout(name.clone()));
            }
            let is_json = match connector.kind {
                ConnectorKind::Json => true,
                ConnectorKind::BuiltinEcho => false,
            };
            if is_json && connector.command.len() == 0 {
                return Err(ConfigError::EmptyConnectorCommand(name.clone()));
            }
            i = i + 1;
        }
        let threads = &self.threads;
        let m = threads.len();
        let mut t: usize = 0;
        assert(threads@.skip(0) == threads@);
        while t < m
            invariant
                t <= m == threads@.len(),
                threads@ == self.threads@,
                lookup(self.connectors.definitions@, self.connectors.default@) is Some,
                connector_fault(self.connectors.definitions@) is None,
                thread_fault(threads@, *self) == thread_fault(threads@.skip(t as int), *self),
            decreases m - t,
        {
            let (thread_name, thread) = threads.entry(t);
            proof {
                assert(threads@.skip(t as int)[0] == threads@[t as int]);
                assert(threads@.skip(t as int).drop_first() == threads@.skip(t + 1));
            }
            let connector: &str = match &thread.connector {
                Some(c) => c.as_str(),
                None => self.connectors.default.as_str(),
            };
            if !self.connectors.definitions.contains_key(connector) {
                return Err(
                    ConfigError::UnknownThreadConnector(thread_name.clone(), copy_str(connector)),
                );
            }
            if thread.watch.enabled && !self.features.watch.enabled {
                return Err(ConfigError::WatchGloballyDisabled(thread_name.clone()));
            }
            if thread.queue.enabled && !self.features.queue.enabled {
                return Err(ConfigError::QueueGloballyDisabled(thread_name.clone()));
            }
            t = t + 1;
        }
        if self.mobile.telegram.enabled {
            let token = expand_string(self.mobile.telegram.bot_token.as_str(), env);
            if is_blank_str(token.as_str()) {
                return Err(ConfigError::MissingTelegramToken);
            }
        }
        if self.llm_router.enabled {
            if is_blank_str(self.llm_router.provider.as_str()) {
                return Err(ConfigError::MissingLlmProvider);
            }
            if is_blank_str(self.llm_router.model.as_str()) {
                return Err(ConfigError::MissingLlmModel);
            }
        }
        Ok(())
    }

    /// Every enabled feature key is in the registry, so this never fails.
    fn validate_features(&self) -> (r: Result<(), ConfigError>)
        ensures
            r is Ok,
    {
        let known = registry();
        let keys = self.enabled_feature_keys();
        let mut i: usize = 0;
        while i < keys.len()
            invariant
                i <= keys.len(),
                known@.map_values(|d: crate::features::FeatureDefinition| crate::features::definition_view(d)) == registry_spec(),
                forall|k: Seq<char>| #[trigger]
                    views(keys@).contains(k) == enabled_feature(*self, k),
            decreases keys.len() - i,
        {
            let mut found = false;
            let mut j: usize = 0;
            while j < known.len() && !found
                invariant
                    j <= known.len(),
                    i < keys.len(),
                    !found ==> forall|m: int| 0 <= m < j ==> known@[m].key@ != keys@[i as int]@,
                decreases known.len() - j,
            {
                if str_eq(known[j].key, keys[i].as_str()) {
                    found = true;
                }
                j = j + 1;
            }
            if !found {
                proof {
                    assert(views(keys@)[i as int] == keys@[i as int]@);
                    assert(views(keys@).contains(keys@[i as int]@));
                    law_enabled_features_are_registered(*self, keys@[i as int]@);
                    let m = choose|m: int|
                        0 <= m < registry_spec().len() && registry_spec()[m].0 == keys@[i as int]@;
                    assert(crate::features::definition_view(known@[m]) == registry_spec()[m]);
                    assert(false);
                }
                return Err(ConfigError::UnknownFeature(keys[i].clone()));
            }
            i = i + 1;
        }
        Ok(())
    }

    /// The enabled feature keys, sorted and without repeats.
    pub fn enabled_feature_keys(&self) -> (r: Vec<String>)
        ensures
            strictly_sorted(views(r@)),
            forall|k: Seq<char>| #[trigger]
                views(r@).contains(k) == enabled_feature(*self, k),
    {
        let mut set: StrMap<()> = StrMap::new();
        if self.mobile.telegram.enabled {
            add_key(&mut set, "gateway.telegram");
        }
        if self.llm_router.enabled || self.features.llm_router.enabled {
            add_key(&mut set, "gateway.llm_router");
        }
        if self.features.queue.enabled {
            add_key(&mut set, "jobs.queue");
        }
        if self.features.cancel.enabled {
            add_key(&mut set, "jobs.cancel");
        }
        if self.features.history.enabled {
            add_key(&mut set, "jobs.history");
        }
        if self.features.threads.enabled {
            add_key(&mut set, "threads.named");
            add_key(&mut set, "threads.cwd");
        }
        if self.features.watch.enabled {
            add_key(&mut set, "threads.watch");
        }
        if self.features.images.enabled {
            add_key(&mut set, "attachments.images");
        }
        if self.features.file_transfer.enabled {
            add_key(&mut set, "attachments.files");
        }
        if self.features.screenshots.enabled {
            add_key(&mut set, "mac.screenshot");
        }
        if self.features.terminal.enabled {
            add_key(&mut set, "mac.terminal");
        }
        add_key(&mut set, "connector.health");
        add_key(&mut set, "connector.run");
        add_key(&mut set, "connector.status");
        add_key(&mut set, "connector.capabilities");
        let r = sorted_keys(&set);
        r
    }

    /// The connector a thread uses (its own, or the default) with its definition.
    pub fn connector_for_thread(&self, thread_name: &str) -> (r: Result<
        (&str, &ConnectorConfig),
        ConfigError,
    >)
        ensures
            ({
                let name = selected_connector(*self, thread_name@);
                match lookup(self.connectors.definitions@, name) {
                    Some(def) => r matches Ok((n, d)) && n@ == name && *d == def,
                    None => r matches Err(e) && e@ == ConfigFault::MissingConnector(name),
                }
            }),
    {
        let name: &str = match self.threads.get(thread_name) {
            Some(thread) => match &thread.connector {
                Some(c) => c.as_str(),
                None => self.connectors.default.as_str(),
            },
            None => self.connectors.default.as_str(),
        };
        match self.connectors.definitions.get(name) {
            Some(def) => Ok((name, def)),
            None => Err(ConfigError::MissingConnector(copy_str(name))),
        }
    }

    /// A thread's settings, falling back to the `main` thread and then to the defaults.
    pub fn thread_or_default(&self, thread_name: &str) -> (t: ThreadConfig)
        ensures
            match lookup(self.threads@, thread_name@) {
                Some(found) => t == found,
                None => match lookup(self.threads@, "main"@) {
                    Some(main) => t == main,
                    None => t.is_default(),
                },
            },
    {
        match self.threads.get(thread_name) {
            Some(t) => t.clone(),
            None => match self.threads.get("main") {
                Some(t) => t.clone(),
                None => ThreadConfig::default(),
            },
        }
    }

    /// The directory for private state: `gateway.data_dir` expanded, or the directory beside
    /// the config file when it expands to nothing.
    pub fn data_dir(&self, config_path: &str, env: &EnvVars) -> (r: String)
        ensures
            r@ == data_dir_of(*self, config_path@, env@),
    {
        let raw = expand_string(self.gateway.data_dir.as_str(), env);
        if is_blank_str(raw.as_str()) {
            default_state_dir(config_path)
        } else {
            expand_path(raw.as_str(), env)
        }
    }
}

/// The connector name a thread selects.
pub open spec fn selected_connector(c: AppConfig, thread: Seq<char>) -> Seq<char> {
    match lookup(c.threads@, thread) {
        Some(t) => thread_connector(t, c.connectors.default@),
        None => c.connectors.default@,
    }
}

/// The private state directory a configuration selects.
pub open spec fn data_dir_of(
    c: AppConfig,
    config_path: Seq<char>,
    env: Seq<(Seq<char>, String)>,
) -> Seq<char> {
    let raw = expand(c.gateway.data_dir@, env);
    if is_blank(raw) {
        default_state_dir_of(config_path)
    } else {
        expanded_path(raw, env)
    }
}

/// With Telegram on, a bot token that is blank once `$NAME` and `${NAME}` references are
/// expanded is refused: the configuration has a fault, and when the connectors and threads
/// are sound that fault is the missing token. The token is judged after expansion, so
/// unexpanded text that merely names a variable is not taken for a token.
pub proof fn law_blank_telegram_token_is_refused(c: AppConfig, env: Seq<(Seq<char>, String)>)
    requires
        c.mobile.telegram.enabled,
        is_blank(expand(c.mobile.telegram.bot_token@, env)),
    ensures
        config_fault(c, env) is Some,
        lookup(c.connectors.definitions@, c.connectors.default@) is Some && connector_fault(
            c.connectors.definitions@,
        ) is None && thread_fault(c.threads@, c) is None ==> config_fault(c, env) == Some(
            ConfigFault::MissingTelegramToken,
        ),
{
}

/// Connector checks never report a missing token.
proof fn lemma_connector_fault_is_not_token(defs: Seq<(Seq<char>, ConnectorConfig)>)
    ensures
        connector_fault(defs) != Some(ConfigFault::MissingTelegramToken),
    decreases defs.len(),
{
    if defs.len() > 0 {
        lemma_connector_fault_is_not_token(defs.drop_first());
    }
}

/// Thread checks never report a missing token.
proof fn lemma_thread_fault_is_not_token(threads: Seq<(Seq<char>, ThreadConfig)>, c: AppConfig)
    ensures
        thread_fault(threads, c) != Some(ConfigFault::MissingTelegramToken),
    decreases threads.len(),
{
    if threads.len() > 0 {
        lemma_thread_fault_is_not_token(threads.drop_first(), c);
    }
}

/// A missing token is reported only with Telegram on and a token that is blank after
/// expansion: a token that expands to text is never refused as missing.
pub proof fn law_token_is_refused_only_when_blank(c: AppConfig, env: Seq<(Seq<char>, String)>)
    ensures
        config_fault(c, env) == Some(ConfigFault::MissingTelegramToken) ==> c.mobile.telegram.enabled
            && is_blank(expand(c.mobile.telegram.bot_token@, env)),
{
    lemma_connector_fault_is_not_token(c.connectors.definitions@);
    lemma_thread_fault_is_not_token(c.threads@, c);
}

/// With Telegram on, a bot token that only refers to a variable the environment does not
/// set (as the default `$TELEGRAM_BOT_TOKEN` does when the variable is missing) is refused
/// as a missing token once the connectors and threads are sound.
pub proof fn law_token_naming_an_unset_variable_is_refused(
    c: AppConfig,
    env: Seq<(Seq<char>, String)>,
    name: Seq<char>,
)
    requires
        c.mobile.telegram.enabled,
        c.mobile.telegram.bot_token@ == seq!['$'] + name || c.mobile.telegram.bot_token@ == seq![
            '$',
            '{',
        ] + name + seq!['}'],
        name.len() > 0,
        forall|i: int| 0 <= i < name.len() ==> is_name_char(#[trigger] name[i]),
        lookup(env, name) is None,
        lookup(c.connectors.definitions@, c.connectors.default@) is Some,
        connector_fault(c.connectors.definitions@) is None,
        thread_fault(c.threads@, c) is None,
    ensures
        config_fault(c, env) == Some(ConfigFault::MissingTelegramToken),
{
    law_unset_variable_expands_to_empty(name, env);
    law_blank_telegram_token_is_refused(c, env);
}

/// Every feature key a configuration can enable is in the parent's registry, so validation
/// never rejects a configuration for an unknown feature.
pub proof fn law_enabled_features_are_registered(c: AppConfig, k: Seq<char>)
    requires
        enabled_feature(c, k),
    ensures
        is_registered(k),
{
    let r = registry_spec();
    if k == "gateway.telegram"@ {
        assert(r[0].0 == k);
    } else if k == "gateway.llm_router"@ {
        assert(r[1].0 == k);
    } else if k == "jobs.queue"@ {
        assert(r[2].0 == k);
    } else if k == "jobs.cancel"@ {
        assert(r[3].0 == k);
    } else if k == "jobs.history"@ {
        assert(r[4].0 == k);
    } else if k == "threads.named"@ {
        assert(r[5].0 == k);
    } else if k == "threads.cwd"@ {
        assert(r[6].0 == k);
    } else if k == "threads.watch"@ {
        assert(r[7].0 == k);
    } else if k == "attachments.images"@ {
        assert(r[8].0 == k);
    } else if k == "attachments.files"@ {
        assert(r[9].0 == k);
    } else if k == "mac.screenshot"@ {
        assert(r[10].0 == k);
    } else if k == "mac.terminal"@ {
        assert(r[11].0 == k);
    } else if k == "connector.health"@ {
        assert(r[12].0 == k);
    } else if k == "connector.run"@ {
        assert(r[13].0 == k);
    } else if k == "connector.status"@ {
        assert(r[14].0 == k);
    } else {
        assert(r[15].0 == k);
    }
}

} // verus!
