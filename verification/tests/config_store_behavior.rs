use pocket_harness::config::{AppConfig, RecoveryAction, RecoveryConfig};
use pocket_harness::config_store::{
    active_summary, best_state_dir, digest_text, history_snapshot_path, history_to_prune,
    history_dir, last_known_good_path, rejected_copy_path, rejected_dir, rejection_kind_text, rejection_line,
    should_restage, stage_plan, temp_path, timestamp, timestamp_text, watch_interval_ms,
    ActiveConfig, ConfigSource, ConfigStore, ConnectorCheck, RejectionKind, StageStep,
};
use pocket_harness::env_file::EnvVars;

#[test]
fn digests_are_sha256_hex() {
    assert_eq!(
        digest_text(""),
        "e3b0c44298fc1c149afbf4c8996fb92427ae41e4649b934ca495991b7852b855"
    );
    assert_eq!(
        digest_text("abc"),
        "ba7816bf8f01cfea414140de5dae2223b00361a396177a9cb410ff61f20015ad"
    );
}

#[test]
fn timestamps_pad_nanoseconds() {
    assert_eq!(timestamp_text(1700000000, 42), "1700000000-000000042");
    assert_eq!(timestamp_text(0, 999_999_999), "0-999999999");
    let now = timestamp();
    let (secs, nanos) = now.split_once('-').unwrap();
    assert!(secs.parse::<u64>().is_ok());
    assert_eq!(nanos.len(), 9);
}

#[test]
fn state_paths() {
    assert_eq!(last_known_good_path("/s"), "/s/last-known-good.yaml");
    assert_eq!(history_snapshot_path("/s", "1-2"), "/s/config-history/1-2.yaml");
    assert_eq!(rejected_copy_path("/s", "1-2"), "/s/rejected-configs/1-2.yaml");
    assert_eq!(rejection_line("1-2", "hot_reload", "bad"), "1-2 kind=hot_reload error=bad\n");
    assert_eq!(temp_path("/c/pocket.yaml"), "/c/pocket.yaml.tmp");
    assert_eq!(temp_path("/c/pocket"), "/c/pocket.yaml.tmp");
    assert_eq!(best_state_dir(None, "/c/pocket.yaml"), "/c/.pocket-harness-state");
    assert_eq!(best_state_dir(Some("/d".to_string()), "/c/pocket.yaml"), "/d");
}

#[test]
fn history_keeps_the_newest_snapshots() {
    let entries = vec![
        ("3-000000000.yaml".to_string(), true),
        ("1-000000000.yaml".to_string(), true),
        ("notes".to_string(), false),
        ("2-000000000.yaml".to_string(), true),
    ];
    assert_eq!(
        history_to_prune(&entries, 2),
        vec!["1-000000000.yaml".to_string()]
    );
    assert!(history_to_prune(&entries, 3).is_empty());
    assert!(history_to_prune(&entries, 0).is_empty());
}

#[test]
fn store_paths_and_snapshot_dirs() {
    let store = ConfigStore::new("/c/pocket.yaml".to_string());
    assert_eq!(store.config_path(), "/c/pocket.yaml");
    assert_eq!(
        store.exists_message(),
        "config already exists: /c/pocket.yaml (use --force to overwrite)"
    );
    let env = EnvVars::new();
    let mut config = AppConfig::default();
    config.gateway.data_dir = "/c/.pocket-harness-state".to_string();
    assert_eq!(store.snapshot_dirs(&config, &env), vec!["/c/.pocket-harness-state".to_string()]);
    config.gateway.data_dir = "/data".to_string();
    assert_eq!(
        store.snapshot_dirs(&config, &env),
        vec!["/data".to_string(), "/c/.pocket-harness-state".to_string()]
    );
}

#[test]
fn active_summary_and_watch_interval() {
    let active = ActiveConfig {
        config: AppConfig::default(),
        source: ConfigSource::LastKnownGood,
        digest: digest_text(""),
        state_dir: "/s".to_string(),
    };
    assert_eq!(
        active_summary("config ok", &active),
        "config ok: source=last-known-good data_dir=/s digest=e3b0c44298fc"
    );
    let mut config = AppConfig::default();
    assert_eq!(watch_interval_ms(&config), 1500);
    config.gateway.hot_reload.poll_interval_ms = 10;
    assert_eq!(watch_interval_ms(&config), 250);
    config.gateway.hot_reload.enabled = false;
    assert_eq!(watch_interval_ms(&config), 5000);
}

#[test]
fn valid_config_is_promoted_then_activated() {
    let recovery = RecoveryConfig::default();
    for check in [ConnectorCheck::NotRequested, ConnectorCheck::Passed] {
        assert_eq!(
            stage_plan(true, check, &recovery),
            vec![StageStep::Promote, StageStep::ActivatePrimary]
        );
    }
}

#[test]
fn invalid_config_on_load_falls_back_to_last_known_good() {
    assert_eq!(
        stage_plan(false, ConnectorCheck::NotRequested, &RecoveryConfig::default()),
        vec![
            StageStep::RecordRejection(RejectionKind::InvalidConfig),
            StageStep::ActivateLastKnownGood,
        ]
    );
    assert_eq!(
        stage_plan(false, ConnectorCheck::Failed, &RecoveryConfig::default()),
        vec![StageStep::Refuse]
    );
}

#[test]
fn connector_break_rolls_back_or_refuses() {
    let rollback = RecoveryConfig::default();
    assert_eq!(
        stage_plan(true, ConnectorCheck::Failed, &rollback),
        vec![
            StageStep::RecordRejection(RejectionKind::ConnectorBreak),
            StageStep::RestoreLastKnownGood,
            StageStep::ActivateLastKnownGood,
        ]
    );
    let keep = RecoveryConfig { on_connector_break: RecoveryAction::KeepActive, ..rollback };
    assert_eq!(
        stage_plan(true, ConnectorCheck::Failed, &keep),
        vec![StageStep::RecordRejection(RejectionKind::ConnectorBreak), StageStep::Refuse]
    );
    let disabled = RecoveryConfig { enabled: false, ..rollback };
    assert_eq!(
        stage_plan(true, ConnectorCheck::Failed, &disabled),
        vec![StageStep::RecordRejection(RejectionKind::ConnectorBreak), StageStep::Refuse]
    );
}

#[test]
fn rejection_kinds_have_log_names() {
    assert_eq!(rejection_kind_text(RejectionKind::InvalidConfig), "invalid_config");
    assert_eq!(rejection_kind_text(RejectionKind::ConnectorBreak), "connector_break");
    assert_eq!(rejection_kind_text(RejectionKind::HotReload), "hot_reload");
}

#[test]
fn watcher_restages_only_changed_text_with_hot_reload_on() {
    let mut config = AppConfig::default();
    config.gateway.hot_reload.enabled = true;
    assert!(should_restage(&config, "aaa", "bbb"));
    assert!(!should_restage(&config, "aaa", "aaa"));
    config.gateway.hot_reload.enabled = false;
    assert!(!should_restage(&config, "aaa", "bbb"));
}

#[test]
fn state_directories_hold_history_and_rejected_copies() {
    assert_eq!(history_dir("/state"), "/state/config-history");
    assert_eq!(rejected_dir("/state"), "/state/rejected-configs");
}
