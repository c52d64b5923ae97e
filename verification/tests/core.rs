use pocket_harness::config::AppConfig;
use pocket_harness::connector::{ConnectorManager, Dispatch};
use pocket_harness::env_file::EnvVars;

#[test]
fn default_config_validates_and_builtin_echo_runs() {
    let config = AppConfig::default();
    let env = EnvVars::new();
    config.validate(&env).unwrap();

    let manager = ConnectorManager::new(&config, &env);
    let response = match manager.run("main", "hello").unwrap() {
        Dispatch::Answered(r) => r,
        Dispatch::Spawn(_) => panic!("the default connector answers in the parent"),
    };

    assert!(response.ok);
    assert!(response.message.contains("hello"));
}

#[test]
fn feature_registry_lists_descriptions() {
    let features = pocket_harness::features::registry();
    assert_eq!(features[0].key, "gateway.telegram");
    assert_eq!(features[0].description, "Telegram polling and message delivery.");
    assert_eq!(
        pocket_harness::features::feature_line(&features[3]),
        "jobs.cancel - Cancel a running connector job when supported. connector_capability=connector.cancel"
    );
}
