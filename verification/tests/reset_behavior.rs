use pocket_harness::env_file::EnvVars;
use pocket_harness::reset::{
    confirm_prompt, confirmed, default_installed_state_dir, reset_config, reset_data,
    reset_logs, reset_steps, RemovalKind, ResetError, ResetStep, ResetTarget,
};

#[test]
fn reset_targets_name_their_paths() {
    let env = EnvVars::new();
    let config = reset_config("/c/pocket.yaml", "/c/env", &env);
    let paths: Vec<&str> = config.iter().map(|r| r.path.as_str()).collect();
    assert_eq!(paths, vec!["/c/pocket.yaml", "/c/providers.yaml", "/c/env"]);
    assert!(config.iter().all(|r| r.kind == RemovalKind::File));

    let data = reset_data("/c/pocket.yaml");
    let paths: Vec<&str> = data.iter().map(|r| r.path.as_str()).collect();
    assert_eq!(
        paths,
        vec![
            "/c/last-known-good.yaml",
            "/c/config-history",
            "/c/config-rejections.log",
            "/c/rejected-configs"
        ]
    );
    let logs = reset_logs("/c/pocket.yaml");
    assert_eq!(logs[0].path, "/c/logs");
    assert_eq!(logs[0].kind, RemovalKind::FileOrDirectory);
    assert_eq!(default_installed_state_dir("/c/pocket.yaml"), "/c");
}

#[test]
fn resets_need_confirmation() {
    assert_eq!(confirmed(true, ""), Ok(()));
    assert_eq!(confirmed(false, " YES\n"), Ok(()));
    assert_eq!(confirmed(false, "yes"), Err(ResetError::Cancelled));
    assert_eq!(ResetError::Cancelled.message(), "reset cancelled");
    assert_eq!(
        confirm_prompt(ResetTarget::Logs),
        "This will reset Logs. Type YES to continue: "
    );
}

#[test]
fn a_whole_reset_runs_every_step() {
    assert_eq!(
        reset_steps(ResetTarget::All),
        vec![
            ResetStep::UninstallService { required: false },
            ResetStep::Logs,
            ResetStep::Data,
            ResetStep::Config,
        ]
    );
    assert_eq!(
        reset_steps(ResetTarget::Service),
        vec![ResetStep::UninstallService { required: true }]
    );
}
