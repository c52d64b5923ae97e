//! The config store's rules: where snapshots and rejections go, which history entries are
//! pruned, how a temporary file is named, digests and timestamps, and the active summary.
use crate::config::{data_dir_of, default_state_dir, default_state_dir_of, AppConfig, RecoveryConfig};
use crate::env_file::EnvVars;
use crate::paths::{
    check_separators, extension_of, is_separator_char, joined_path, path_extension, path_join,
    path_with_extension, paths_equal,
    same_path, with_extension_of,
};
use crate::text::{
    cat, chars_of, copy_str, decimal, sort_strings, str_lt, strs_sorted, string_of_range,
    u64_to_decimal, views,
};
use sha2::Digest;
use vstd::prelude::*;

verus! {

/// Where the active configuration came from.
#[derive(Debug, Clone, Copy, PartialEq, Eq, Structural)]
pub enum ConfigSource {
    Primary,
    LastKnownGood,
}

/// A loaded, validated configuration with where it came from, the digest of its text, and
/// its state directory.
#[derive(Debug)]
pub struct ActiveConfig {
    pub config: AppConfig,
    pub source: ConfigSource,
    pub digest: String,
    pub state_dir: String,
}

/// The configuration file a gateway is driven by.
#[derive(Debug, Clone)]
pub struct ConfigStore {
    config_path: String,
}

impl ConfigStore {
    /// The path of the configuration file.
    pub closed spec fn path_view(&self) -> Seq<char> {
        self.config_path@
    }

    /// A store for the configuration file at a path.
    pub fn new(config_path: String) -> (s: Self)
        ensures
            s.path_view() == config_path@,
    {
        ConfigStore { config_path }
    }

    /// The path of the configuration file.
    pub fn config_path(&self) -> (p: &str)
        ensures
            p@ == self.path_view(),
    {
        self.config_path.as_str()
    }

    /// The directories a promoted configuration is snapshotted into: its own state
    /// directory, and the one beside the configuration file when that is another path.
    pub fn snapshot_dirs(&self, config: &AppConfig, env: &EnvVars) -> (r: Vec<String>)
        ensures
            views(r@) == snapshot_dirs_of(*config, self.path_view(), env@),
    {
        let state = config.data_dir(self.config_path.as_str(), env);
        let fallback = default_state_dir(self.config_path.as_str());
        if paths_equal(fallback.as_str(), state.as_str()) {
            let r = vec![state];
            assert(views(r@) =~= snapshot_dirs_of(*config, self.path_view(), env@));
            r
        } else {
            let r = vec![state, fallback];
            assert(views(r@) =~= snapshot_dirs_of(*config, self.path_view(), env@));
            r
        }
    }

    /// The message when initialising would overwrite an existing configuration.
    pub fn exists_message(&self) -> (m: String)
        ensures
            m@ == "config already exists: "@ + self.path_view() + " (use --force to overwrite)"@,
    {
        let mut m = cat("config already exists: ", self.config_path.as_str());
        m.append(" (use --force to overwrite)");
        m
    }
}

/// The snapshot directories of a configuration.
pub open spec fn snapshot_dirs_of(
    c: AppConfig,
    config_path: Seq<char>,
    env: Seq<(Seq<char>, String)>,
) -> Seq<Seq<char>> {
    let state = data_dir_of(c, config_path, env);
    let fallback = default_state_dir_of(config_path);
    if same_path(fallback, state) {
        seq![state]
    } else {
        seq![state, fallback]
    }
}

/// The state directory to use when the primary configuration may not load: the one it
/// names when it loads, else the one beside the configuration file.
pub fn best_state_dir(primary_state_dir: Option<String>, config_path: &str) -> (r: String)
    ensures
        r@ == match primary_state_dir {
            Some(d) => d@,
            None => default_state_dir_of(config_path@),
        },
{
    match primary_state_dir {
        Some(d) => d,
        None => default_state_dir(config_path),
    }
}

/// The last-known-good snapshot in a state directory.
pub fn last_known_good_path(state_dir: &str) -> (r: String)
    ensures
        r@ == joined_path(state_dir@, "last-known-good.yaml"@),
{
    path_join(state_dir, "last-known-good.yaml")
}

/// The directory of history snapshots in a state directory.
pub fn history_dir(state_dir: &str) -> (r: String)
    ensures
        r@ == joined_path(state_dir@, "config-history"@),
{
    path_join(state_dir, "config-history")
}

/// The history snapshot taken at a time.
pub fn history_snapshot_path(state_dir: &str, stamp: &str) -> (r: String)
    ensures
        r@ == joined_path(joined_path(state_dir@, "config-history"@), stamp@ + ".yaml"@),
{
    let dir = history_dir(state_dir);
    let file = cat(stamp, ".yaml");
    path_join(dir.as_str(), file.as_str())
}

/// The directory where rejected primary configurations are kept.
pub fn rejected_dir(state_dir: &str) -> (r: String)
    ensures
        r@ == joined_path(state_dir@, "rejected-configs"@),
{
    path_join(state_dir, "rejected-configs")
}

/// Where a rejected primary configuration is kept when the snapshot is restored.
pub fn rejected_copy_path(state_dir: &str, stamp: &str) -> (r: String)
    ensures
        r@ == joined_path(joined_path(state_dir@, "rejected-configs"@), stamp@ + ".yaml"@),
{
    let dir = rejected_dir(state_dir);
    let file = cat(stamp, ".yaml");
    path_join(dir.as_str(), file.as_str())
}

/// The log of rejected configurations in a state directory.
pub fn rejections_log_path(state_dir: &str) -> (r: String)
    ensures
        r@ == joined_path(state_dir@, "config-rejections.log"@),
{
    path_join(state_dir, "config-rejections.log")
}

/// One line of the rejection log.
pub fn rejection_line(stamp: &str, kind: &str, error: &str) -> (r: String)
    ensures
        r@ == stamp@ + " kind="@ + kind@ + " error="@ + error@ + "\n"@,
{
    let mut r = cat(stamp, " kind=");
    r.append(kind);
    r.append(" error=");
    r.append(error);
    r.append("\n");
    r
}

/// The file written before it replaces `path`: the path with `.tmp` added to its extension
/// (`yaml` when it has none).
pub open spec fn temp_path_of(path: Seq<char>) -> Seq<char> {
    with_extension_of(
        path,
        match extension_of(path) {
            Some(e) => e,
            None => "yaml"@,
        } + ".tmp"@,
    )
}

/// The temporary file for an atomic write of `path`.
pub fn temp_path(path: &str) -> (r: String)
    ensures
        r@ == temp_path_of(path@),
{
    let found = path_extension(path);
    let ext = match found {
        Some(e) => e,
        None => copy_str("yaml"),
    };
    let e = cat(ext.as_str(), ".tmp");
    // The separators of every platform are `/` and `\`; checking each character establishes
    // that the new extension holds none, as `Path::with_extension` asks.
    let free = check_separators(e.as_str());
    proof {
        reveal_strlit("yaml");
        reveal_strlit(".tmp");
        assert forall|i: int| 0 <= i < e@.len() implies !is_separator_char(#[trigger] e@[i]) by {
            if i < ext@.len() {
                assert(e@[i] == ext@[i]);
                if found is None {
                    assert(ext@ == "yaml"@);
                }
            } else {
                assert(e@[i] == ".tmp"@[i - ext@.len()]);
            }
        }
        assert(free);
    }
    path_with_extension(path, e.as_str())
}

/// The lowercase hexadecimal SHA-256 digest of a text's UTF-8 bytes.
pub uninterp spec fn sha256_hex(text: Seq<char>) -> Seq<char>;

/// `sha2::Sha256::digest` of the text's bytes, written in lowercase hexadecimal. The contract
/// names the digest and states its length, 64 characters for 32 bytes; the hash itself is
/// left unsaid.
#[verifier::external_body]
pub fn digest_text(text: &str) -> (r: String)
    ensures
        r@ == sha256_hex(text@),
        r@.len() == 64,
{
    format!("{:x}", sha2::Sha256::digest(text.as_bytes()))
}

/// `n` in decimal, padded with zeros on the left to `width` digits.
pub open spec fn zero_padded(n: nat, width: nat) -> Seq<char> {
    let d = decimal(n);
    if d.len() >= width {
        d
    } else {
        Seq::new((width - d.len()) as nat, |i: int| '0') + d
    }
}

/// A timestamp as text: seconds, a dash, and nanoseconds as nine digits.
pub open spec fn timestamp_of(secs: nat, nanos: nat) -> Seq<char> {
    decimal(secs) + "-"@ + zero_padded(nanos, 9)
}

/// Writes a timestamp from seconds and nanoseconds since the epoch.
pub fn timestamp_text(secs: u64, nanos: u32) -> (r: String)
    ensures
        r@ == timestamp_of(secs as nat, nanos as nat),
{
    let mut r = u64_to_decimal(secs);
    r.append("-");
    let d = u64_to_decimal(nanos as u64);
    let dv = chars_of(d.as_str());
    let ghost before = r@;
    let pad: usize = if dv.len() >= 9 {
        0
    } else {
        9 - dv.len()
    };
    let mut k: usize = 0;
    while k < pad
        invariant
            k <= pad,
            r@ == before + Seq::new(k as nat, |i: int| '0'),
        decreases pad - k,
    {
        r.push('0');
        k = k + 1;
        assert(r@ =~= before + Seq::new(k as nat, |i: int| '0'));
    }
    r.append(d.as_str());
    proof {
        if dv.len() >= 9 {
            assert(Seq::new(0nat, |i: int| '0') + d@ =~= d@);
        }
    }
    r
}

/// The time since the Unix epoch as seconds and the nanoseconds past them
/// (`SystemTime::now().duration_since(UNIX_EPOCH)`, zero before the epoch). It depends on
/// the clock; the contract states only that the nanoseconds stay under one second.
#[verifier::external_body]
fn clock_since_epoch() -> (r: (u64, u32))
    ensures
        r.1 < 1_000_000_000,
{
    let d = std::time::SystemTime::now().duration_since(std::time::UNIX_EPOCH).unwrap_or_default();
    (d.as_secs(), d.subsec_nanos())
}

/// The current time as a timestamp.
pub fn timestamp() -> (r: String)
    ensures
        exists|secs: nat, nanos: nat| nanos < 1_000_000_000 && r@ == timestamp_of(secs, nanos),
{
    let (secs, nanos) = clock_since_epoch();
    let r = timestamp_text(secs, nanos);
    assert(r@ == timestamp_of(secs as nat, nanos as nat));
    r
}

/// The names of the files among directory entries, in their order.
pub open spec fn file_names(entries: Seq<(Seq<char>, bool)>) -> Seq<Seq<char>>
    decreases entries.len(),
{
    if entries.len() == 0 {
        Seq::empty()
    } else {
        file_names(entries.drop_last()) + if entries.last().1 {
            seq![entries.last().0]
        } else {
            Seq::empty()
        }
    }
}

/// The history files to delete so that `keep` remain: none when `keep` is zero or there
/// are no more than `keep`; otherwise all but the `keep` last in name order.
pub open spec fn prunes_history(
    entries: Seq<(Seq<char>, bool)>,
    keep: nat,
    removed: Seq<Seq<char>>,
) -> bool {
    let files = file_names(entries);
    if keep == 0 || files.len() <= keep {
        removed.len() == 0
    } else {
        &&& removed.len() == files.len() - keep
        &&& exists|rest: Seq<Seq<char>>|
            #![trigger (removed + rest).to_multiset()]
            (removed + rest).to_multiset() == files.to_multiset() && strs_sorted(removed + rest)
    }
}

/// Chooses the history files to delete; entries are names with whether each is a file.
pub fn history_to_prune(entries: &Vec<(String, bool)>, keep: usize) -> (r: Vec<String>)
    ensures
        prunes_history(crate::local_tools::entry_views(entries@), keep as nat, views(r@)),
{
    let ghost ev = crate::local_tools::entry_views(entries@);
    if keep == 0 {
        return Vec::new();
    }
    let mut files: Vec<String> = Vec::new();
    let mut i: usize = 0;
    while i < entries.len()
        invariant
            i <= entries.len(),
            ev == crate::local_tools::entry_views(entries@),
            views(files@) == file_names(ev.take(i as int)),
        decreases entries.len() - i,
    {
        proof {
            assert(ev.take(i + 1).drop_last() =~= ev.take(i as int));
            assert(ev.take(i + 1).last() == ev[i as int]);
        }
        if entries[i].1 {
            let ghost before = views(files@);
            files.push(entries[i].0.clone());
            assert(views(files@) =~= before.push(entries@[i as int].0@));
        } else {
            assert(views(files@) =~= views(files@) + Seq::<Seq<char>>::empty());
        }
        i = i + 1;
    }
    assert(ev.take(entries.len() as int) =~= ev);
    if files.len() <= keep {
        return Vec::new();
    }
    let sorted = sort_strings(&files);
    let ghost sv = views(sorted@);
    proof {
        vstd::seq_lib::to_multiset_len(sv);
        vstd::seq_lib::to_multiset_len(views(files@));
    }
    let count = files.len() - keep;
    let mut r: Vec<String> = Vec::new();
    let mut k: usize = 0;
    while k < count
        invariant
            k <= count <= sorted.len(),
            sv == views(sorted@),
            r.len() == k,
            forall|j: int| 0 <= j < k ==> #[trigger] r@[j]@ == sv[j],
        decreases count - k,
    {
        r.push(sorted[k].clone());
        k = k + 1;
    }
    assert(views(r@) =~= sv.take(count as int));
    proof {
        let rest = sv.skip(count as int);
        assert(views(r@) + rest =~= sv);
    }
    r
}

/// The label of where a configuration came from.
pub open spec fn source_label(s: ConfigSource) -> Seq<char> {
    match s {
        ConfigSource::Primary => "primary"@,
        ConfigSource::LastKnownGood => "last-known-good"@,
    }
}

/// The one-line summary of an active configuration: label, source, state directory, and
/// the first 12 characters of the digest.
pub fn active_summary(label: &str, active: &ActiveConfig) -> (r: String)
    requires
        active.digest@.len() >= 12,
    ensures
        r@ == label@ + ": source="@ + source_label(active.source) + " data_dir="@
            + active.state_dir@ + " digest="@ + active.digest@.take(12),
{
    let mut r = cat(label, ": source=");
    r.append(
        match active.source {
            ConfigSource::Primary => "primary",
            ConfigSource::LastKnownGood => "last-known-good",
        },
    );
    r.append(" data_dir=");
    r.append(active.state_dir.as_str());
    r.append(" digest=");
    let dv = chars_of(active.digest.as_str());
    let head = string_of_range(dv.as_slice(), 0, 12);
    assert(dv@.subrange(0, 12) =~= active.digest@.take(12));
    r.append(head.as_str());
    r
}

/// How long the watcher waits between polls: the hot-reload interval when hot reload is on,
/// else five seconds, and never under 250 milliseconds.
pub fn watch_interval_ms(config: &AppConfig) -> (r: u64)
    ensures
        r == if config.gateway.hot_reload.enabled {
            if config.gateway.hot_reload.poll_interval_ms > 250 {
                config.gateway.hot_reload.poll_interval_ms
            } else {
                250
            }
        } else {
            5000
        },
{
    let interval = if config.gateway.hot_reload.enabled {
        config.gateway.hot_reload.poll_interval_ms
    } else {
        5000
    };
    if interval > 250 {
        interval
    } else {
        250
    }
}

/// What the watcher reports after staging a changed configuration.
pub fn promotion_report(source: ConfigSource, config_path: &str) -> (r: String)
    ensures
        r@ == match source {
            ConfigSource::LastKnownGood => "config changed but connector health failed; rolled back to last-known-good"@,
            ConfigSource::Primary => "hot-promoted config "@ + config_path@,
        },
{
    match source {
        ConfigSource::LastKnownGood => copy_str(
            "config changed but connector health failed; rolled back to last-known-good",
        ),
        ConfigSource::Primary => cat("hot-promoted config ", config_path),
    }
}

/// What the watcher reports when a changed configuration is rejected.
pub fn rejected_change_report(error: &str) -> (r: String)
    ensures
        r@ == "rejected config change: "@ + error@,
{
    cat("rejected config change: ", error)
}

/// Why a configuration change was turned away, as the rejection log names it.
#[derive(Debug, Clone, Copy, PartialEq, Eq, Structural)]
pub enum RejectionKind {
    /// The primary configuration did not parse or validate.
    InvalidConfig,
    /// The configuration validated but its connectors failed their health check.
    ConnectorBreak,
    /// A changed configuration could not be staged while watching.
    HotReload,
}

/// The name of a rejection kind in the rejection log.
pub open spec fn rejection_kind_name(kind: RejectionKind) -> Seq<char> {
    match kind {
        RejectionKind::InvalidConfig => "invalid_config"@,
        RejectionKind::ConnectorBreak => "connector_break"@,
        RejectionKind::HotReload => "hot_reload"@,
    }
}

/// The name of a rejection kind in the rejection log.
pub fn rejection_kind_text(kind: RejectionKind) -> (r: String)
    ensures
        r@ == rejection_kind_name(kind),
{
    match kind {
        RejectionKind::InvalidConfig => copy_str("invalid_config"),
        RejectionKind::ConnectorBreak => copy_str("connector_break"),
        RejectionKind::HotReload => copy_str("hot_reload"),
    }
}

/// What became of the connector health check of a staged configuration.
#[derive(Debug, Clone, Copy, PartialEq, Eq, Structural)]
pub enum ConnectorCheck {
    /// No health check was asked for.
    NotRequested,
    /// Every connector answered healthy with the capabilities it needs.
    Passed,
    /// A connector failed its health check.
    Failed,
}

/// One step of staging a configuration.
#[derive(Debug, Clone, Copy, PartialEq, Eq, Structural)]
pub enum StageStep {
    /// Snapshot the primary configuration as last-known-good.
    Promote,
    /// Make the primary configuration the active one.
    ActivatePrimary,
    /// Append a line to the rejection log.
    RecordRejection(RejectionKind),
    /// Put the last-known-good configuration back at the primary path, keeping a copy of
    /// the rejected one.
    RestoreLastKnownGood,
    /// Make the last-known-good configuration the active one.
    ActivateLastKnownGood,
    /// Give up, reporting why.
    Refuse,
}

/// What staging does once the primary configuration has been read and validated, and its
/// connectors checked when asked: a valid configuration whose connectors did not fail is
/// snapshotted and activated; without a health check, an invalid one is logged and the
/// last-known-good one activated; with a health check, an invalid one is refused, and a
/// connector break is logged and then either rolled back to last-known-good or refused,
/// as the recovery settings say.
pub open spec fn stage_plan_of(valid: bool, check: ConnectorCheck, rolls_back: bool) -> Seq<
    StageStep,
> {
    if valid && check != ConnectorCheck::Failed {
        seq![StageStep::Promote, StageStep::ActivatePrimary]
    } else if !valid && check == ConnectorCheck::NotRequested {
        seq![
            StageStep::RecordRejection(RejectionKind::InvalidConfig),
            StageStep::ActivateLastKnownGood,
        ]
    } else if !valid {
        seq![StageStep::Refuse]
    } else if rolls_back {
        seq![
            StageStep::RecordRejection(RejectionKind::ConnectorBreak),
            StageStep::RestoreLastKnownGood,
            StageStep::ActivateLastKnownGood,
        ]
    } else {
        seq![StageStep::RecordRejection(RejectionKind::ConnectorBreak), StageStep::Refuse]
    }
}

/// Plans the staging of a configuration from whether it validated, how its connector check
/// went (a configuration that did not validate is not checked), and its recovery settings.
pub fn stage_plan(valid: bool, check: ConnectorCheck, recovery: &RecoveryConfig) -> (r: Vec<
    StageStep,
>)
    ensures
        r@ == stage_plan_of(valid, check, recovery.enabled && recovery.on_connector_break
            == crate::config::RecoveryAction::RollbackToLastKnownGood),
{
    let r = if valid && check != ConnectorCheck::Failed {
        vec![StageStep::Promote, StageStep::ActivatePrimary]
    } else if !valid && check == ConnectorCheck::NotRequested {
        vec![
            StageStep::RecordRejection(RejectionKind::InvalidConfig),
            StageStep::ActivateLastKnownGood,
        ]
    } else if !valid {
        vec![StageStep::Refuse]
    } else if recovery.rolls_back_on_connector_break() {
        vec![
            StageStep::RecordRejection(RejectionKind::ConnectorBreak),
            StageStep::RestoreLastKnownGood,
            StageStep::ActivateLastKnownGood,
        ]
    } else {
        vec![StageStep::RecordRejection(RejectionKind::ConnectorBreak), StageStep::Refuse]
    };
    assert(r@ =~= stage_plan_of(valid, check, recovery.enabled && recovery.on_connector_break
        == crate::config::RecoveryAction::RollbackToLastKnownGood));
    r
}

/// Last-known-good is written only after a configuration validates, and, when connector
/// health checks are asked for, only after the connectors pass.
pub proof fn law_last_known_good_only_after_checks(
    valid: bool,
    check: ConnectorCheck,
    rolls_back: bool,
    i: int,
)
    requires
        0 <= i < stage_plan_of(valid, check, rolls_back).len(),
        stage_plan_of(valid, check, rolls_back)[i] == StageStep::Promote,
    ensures
        valid,
        check != ConnectorCheck::Failed,
{
}

/// A configuration that validates, and whose connectors pass when checked, is snapshotted
/// as last-known-good before it becomes the active one.
pub proof fn law_valid_config_is_promoted(valid: bool, check: ConnectorCheck, rolls_back: bool)
    requires
        valid,
        check != ConnectorCheck::Failed,
    ensures
        stage_plan_of(valid, check, rolls_back) == seq![
            StageStep::Promote,
            StageStep::ActivatePrimary,
        ],
{
}

/// When an edit breaks the connector boundary and recovery is set to roll back, the break
/// is logged, last-known-good is restored into the primary path and becomes the active
/// configuration, and the broken configuration is neither snapshotted nor activated.
pub proof fn law_connector_break_rolls_back(valid: bool, rolls_back: bool, i: int)
    requires
        valid,
        rolls_back,
        0 <= i < stage_plan_of(valid, ConnectorCheck::Failed, rolls_back).len(),
    ensures
        stage_plan_of(valid, ConnectorCheck::Failed, rolls_back) == seq![
            StageStep::RecordRejection(RejectionKind::ConnectorBreak),
            StageStep::RestoreLastKnownGood,
            StageStep::ActivateLastKnownGood,
        ],
        stage_plan_of(valid, ConnectorCheck::Failed, rolls_back)[i] != StageStep::Promote,
        stage_plan_of(valid, ConnectorCheck::Failed, rolls_back)[i] != StageStep::ActivatePrimary,
{
}

/// A configuration that is turned away never becomes the active one: every plan that does
/// not promote activates nothing from the primary path.
pub proof fn law_rejected_config_is_never_active(
    valid: bool,
    check: ConnectorCheck,
    rolls_back: bool,
    i: int,
)
    requires
        !valid || check == ConnectorCheck::Failed,
        0 <= i < stage_plan_of(valid, check, rolls_back).len(),
    ensures
        stage_plan_of(valid, check, rolls_back)[i] != StageStep::Promote,
        stage_plan_of(valid, check, rolls_back)[i] != StageStep::ActivatePrimary,
{
}

/// A primary configuration that fails to validate on load, or breaks its connectors, is
/// recorded in the rejection log before anything else is done.
pub proof fn law_rejection_is_logged_first(valid: bool, check: ConnectorCheck, rolls_back: bool)
    requires
        (!valid && check == ConnectorCheck::NotRequested) || (valid && check
            == ConnectorCheck::Failed),
    ensures
        stage_plan_of(valid, check, rolls_back).len() >= 2,
        stage_plan_of(valid, check, rolls_back)[0] is RecordRejection,
{
}

/// Whether the watcher stages the configuration again: only with hot reload on, and only
/// when the text's digest differs from the active one's.
pub fn should_restage(config: &AppConfig, active_digest: &str, digest: &str) -> (b: bool)
    ensures
        b == (config.gateway.hot_reload.enabled && active_digest@ != digest@),
{
    config.gateway.hot_reload.enabled && !crate::text::str_eq(active_digest, digest)
}

} // verus!
