//! What a reset removes, in what order, and when it may go ahead.
use crate::config::AppConfig;
use crate::env_file::EnvVars;
use crate::paths::{joined_path, parent_or_dot, parent_or_dot_of, path_join};
use crate::provider_catalog::{catalog_location, resolve_catalog_path};
use crate::text::{cat, copy_str, trim, trim_str, str_eq};
use vstd::prelude::*;

verus! {

/// What a reset clears.
#[derive(Debug, Clone, Copy, PartialEq, Eq, Structural)]
pub enum ResetTarget {
    Config,
    Service,
    Data,
    Logs,
    All,
}

/// How a path is removed: a file only, or a file or a whole directory.
#[derive(Debug, Clone, Copy, PartialEq, Eq, Structural)]
pub enum RemovalKind {
    File,
    FileOrDirectory,
}

/// A path a reset removes where it exists.
#[derive(Debug)]
pub struct Removal {
    pub path: String,
    pub kind: RemovalKind,
}

/// Removals as text.
pub open spec fn removal_views(r: Seq<Removal>) -> Seq<(Seq<char>, RemovalKind)> {
    r.map_values(|x: Removal| (x.path@, x.kind))
}

/// The directory installed state lives in: the configuration file's directory.
pub fn default_installed_state_dir(config_path: &str) -> (r: String)
    ensures
        r@ == parent_or_dot(config_path@),
{
    parent_or_dot_of(config_path)
}

/// What resetting the configuration removes: the configuration file, the provider catalog
/// at its default place, and the env file.
pub fn reset_config(config_path: &str, env_file: &str, env: &EnvVars) -> (r: Vec<Removal>)
    ensures
        removal_views(r@) == seq![
            (config_path@, RemovalKind::File),
            (catalog_location(config_path@, "providers.yaml"@, env@), RemovalKind::File),
            (env_file@, RemovalKind::File),
        ],
{
    let defaults = AppConfig::default();
    let catalog = resolve_catalog_path(config_path, defaults.llm_router.catalog_path.as_str(), env);
    let r = vec![
        Removal { path: copy_str(config_path), kind: RemovalKind::File },
        Removal { path: catalog, kind: RemovalKind::File },
        Removal { path: copy_str(env_file), kind: RemovalKind::File },
    ];
    assert(removal_views(r@) =~= seq![
        (config_path@, RemovalKind::File),
        (catalog_location(config_path@, "providers.yaml"@, env@), RemovalKind::File),
        (env_file@, RemovalKind::File),
    ]);
    r
}

/// What resetting runtime data removes from the installed state directory: the
/// last-known-good snapshot, the history, the rejection log, and the rejected copies.
pub fn reset_data(config_path: &str) -> (r: Vec<Removal>)
    ensures
        removal_views(r@) == seq![
            (joined_path(parent_or_dot(config_path@), "last-known-good.yaml"@), RemovalKind::FileOrDirectory),
            (joined_path(parent_or_dot(config_path@), "config-history"@), RemovalKind::FileOrDirectory),
            (joined_path(parent_or_dot(config_path@), "config-rejections.log"@), RemovalKind::FileOrDirectory),
            (joined_path(parent_or_dot(config_path@), "rejected-configs"@), RemovalKind::FileOrDirectory),
        ],
{
    let state = default_installed_state_dir(config_path);
    let s = state.as_str();
    let r = vec![
        Removal { path: path_join(s, "last-known-good.yaml"), kind: RemovalKind::FileOrDirectory },
        Removal { path: path_join(s, "config-history"), kind: RemovalKind::FileOrDirectory },
        Removal { path: path_join(s, "config-rejections.log"), kind: RemovalKind::FileOrDirectory },
        Removal { path: path_join(s, "rejected-configs"), kind: RemovalKind::FileOrDirectory },
    ];
    assert(removal_views(r@) =~= seq![
        (joined_path(parent_or_dot(config_path@), "last-known-good.yaml"@), RemovalKind::FileOrDirectory),
        (joined_path(parent_or_dot(config_path@), "config-history"@), RemovalKind::FileOrDirectory),
        (joined_path(parent_or_dot(config_path@), "config-rejections.log"@), RemovalKind::FileOrDirectory),
        (joined_path(parent_or_dot(config_path@), "rejected-configs"@), RemovalKind::FileOrDirectory),
    ]);
    r
}

/// What resetting logs removes: the installed state directory's `logs`.
pub fn reset_logs(config_path: &str) -> (r: Vec<Removal>)
    ensures
        removal_views(r@) == seq![
            (joined_path(parent_or_dot(config_path@), "logs"@), RemovalKind::FileOrDirectory),
        ],
{
    let state = default_installed_state_dir(config_path);
    let r = vec![Removal { path: path_join(state.as_str(), "logs"), kind: RemovalKind::FileOrDirectory }];
    assert(removal_views(r@) =~= seq![
        (joined_path(parent_or_dot(config_path@), "logs"@), RemovalKind::FileOrDirectory),
    ]);
    r
}

/// One step of a reset.
#[derive(Debug, Clone, Copy, PartialEq, Eq, Structural)]
pub enum ResetStep {
    /// Uninstall the service; when `required`, a failure stops the reset.
    UninstallService { required: bool },
    Logs,
    Data,
    Config,
}

/// The steps of a reset: a whole reset uninstalls the service (ignoring failure), then
/// clears logs, data and configuration, in that order.
pub open spec fn reset_plan(target: ResetTarget) -> Seq<ResetStep> {
    match target {
        ResetTarget::Config => seq![ResetStep::Config],
        ResetTarget::Service => seq![ResetStep::UninstallService { required: true }],
        ResetTarget::Data => seq![ResetStep::Data],
        ResetTarget::Logs => seq![ResetStep::Logs],
        ResetTarget::All => seq![
            ResetStep::UninstallService { required: false },
            ResetStep::Logs,
            ResetStep::Data,
            ResetStep::Config,
        ],
    }
}

/// The steps of a reset.
pub fn reset_steps(target: ResetTarget) -> (r: Vec<ResetStep>)
    ensures
        r@ == reset_plan(target),
{
    let r = match target {
        ResetTarget::Config => vec![ResetStep::Config],
        ResetTarget::Service => vec![ResetStep::UninstallService { required: true }],
        ResetTarget::Data => vec![ResetStep::Data],
        ResetTarget::Logs => vec![ResetStep::Logs],
        ResetTarget::All => vec![
            ResetStep::UninstallService { required: false },
            ResetStep::Logs,
            ResetStep::Data,
            ResetStep::Config,
        ],
    };
    assert(r@ =~= reset_plan(target));
    r
}

/// The name a reset target is shown by.
pub open spec fn target_name(target: ResetTarget) -> Seq<char> {
    match target {
        ResetTarget::Config => "Config"@,
        ResetTarget::Service => "Service"@,
        ResetTarget::Data => "Data"@,
        ResetTarget::Logs => "Logs"@,
        ResetTarget::All => "All"@,
    }
}

/// The question asked before a reset.
pub fn confirm_prompt(target: ResetTarget) -> (r: String)
    ensures
        r@ == "This will reset "@ + target_name(target) + ". Type YES to continue: "@,
{
    let name = match target {
        ResetTarget::Config => "Config",
        ResetTarget::Service => "Service",
        ResetTarget::Data => "Data",
        ResetTarget::Logs => "Logs",
        ResetTarget::All => "All",
    };
    let mut r = cat("This will reset ", name);
    r.append(". Type YES to continue: ");
    r
}

/// Why a reset did not go ahead.
#[derive(Debug, Clone, Copy, PartialEq, Eq, Structural)]
pub enum ResetError {
    Cancelled,
}

impl ResetError {
    /// The human-readable message for the error.
    pub fn message(&self) -> (m: String)
        ensures
            m@ == "reset cancelled"@,
    {
        copy_str("reset cancelled")
    }
}

/// Whether a reset may go ahead: it was confirmed up front, or the answer, trimmed, is
/// `YES`.
pub fn confirmed(yes: bool, answer: &str) -> (r: Result<(), ResetError>)
    ensures
        (yes || trim(answer@) == "YES"@) ==> r is Ok,
        !(yes || trim(answer@) == "YES"@) ==> r == Err::<(), ResetError>(ResetError::Cancelled),
{
    if yes {
        return Ok(());
    }
    let a = trim_str(answer);
    if str_eq(a.as_str(), "YES") {
        Ok(())
    } else {
        Err(ResetError::Cancelled)
    }
}

/// The line reporting one removed path.
pub fn removed_line(path: &str) -> (r: String)
    ensures
        r@ == "removed "@ + path@,
{
    cat("removed ", path)
}

} // verus!
