use pocket_harness::config::{AppConfig, ConnectorConfig, ConnectorKind};
use pocket_harness::connector::{
    connector_stdout, json_invocation, last_json_line, ConnectorError, ConnectorManager,
    ConnectorResponse, Dispatch,
};
use pocket_harness::env_file::EnvVars;
use pocket_harness::strmap::StrMap;

fn answered(d: Dispatch) -> ConnectorResponse {
    match d {
        Dispatch::Answered(r) => r,
        Dispatch::Spawn(_) => panic!("expected an answer in the parent"),
    }
}

#[test]
fn builtin_echo_reports_health_and_capabilities() {
    let config = AppConfig::default();
    let env = EnvVars::new();
    let manager = ConnectorManager::new(&config, &env);
    let connector = config.connectors.definitions.get("echo").unwrap();

    let health = answered(manager.health("echo", connector).unwrap());
    assert!(health.ok);
    assert_eq!(health.message, "builtin echo connector healthy");
    assert!(health
        .capabilities
        .contains(&"connector.health".to_string()));
    assert!(health.capabilities.contains(&"connector.run".to_string()));
    assert!(health
        .capabilities
        .contains(&"connector.status".to_string()));
    assert!(health
        .capabilities
        .contains(&"connector.capabilities".to_string()));
    assert!(health.capabilities.contains(&"threads.cwd".to_string()));
    assert!(health
        .capabilities
        .contains(&"attachments.images".to_string()));

    let capabilities = answered(manager.capabilities("echo", connector).unwrap());
    assert!(capabilities.ok);
    assert_eq!(capabilities.message, "builtin echo connector capabilities");
    assert_eq!(capabilities.capabilities, health.capabilities);
}

#[test]
fn unknown_thread_uses_default_connector_and_main_thread_settings() {
    let temp = "/tmp/pocket-harness-unknown-thread";
    let mut config = AppConfig::default();
    let mut main = config.threads.remove("main").unwrap();
    main.cwd = temp.to_string();
    config.threads.insert("main".to_string(), main);
    let env = EnvVars::new();
    config.validate(&env).unwrap();

    let response = answered(
        ConnectorManager::new(&config, &env)
            .run("unknown-mobile-thread", "hello")
            .unwrap(),
    );

    assert!(response.ok);
    assert!(response.message.contains("thread=unknown-mobile-thread"));
    assert!(response.message.contains(&format!("cwd={}", temp)));
    assert!(response.message.contains("prompt=hello"));
}

#[test]
fn json_connector_is_spawned_with_expanded_command_and_env() {
    let mut env = EnvVars::new();
    env.set("HOME".to_string(), "/home/pocket".to_string());
    let mut vars = StrMap::new();
    vars.insert(
        "HARNESS_EXPANDED_ENV".to_string(),
        "expanded:${HOME}:suffix".to_string(),
    );
    let connector = ConnectorConfig {
        kind: ConnectorKind::Json,
        display_name: "Env".to_string(),
        command: vec!["$HOME/bin/agent".to_string(), "--flag".to_string()],
        cwd: "~/work".to_string(),
        timeout_seconds: 7,
        env: vars,
        settings: StrMap::new(),
    };
    let mut config = AppConfig::default();
    config.connectors.default = "env".to_string();
    config.connectors.definitions.insert("env".to_string(), connector);
    config.llm_router.provider = "selected-provider".to_string();
    config.llm_router.model = "selected-model".to_string();
    config.llm_router.api_key = "sk-router-secret".to_string();
    let manager = ConnectorManager::new(&config, &env);
    match manager.run("main", "hello").unwrap() {
        Dispatch::Spawn(inv) => {
            assert_eq!(inv.program, "/home/pocket/bin/agent");
            assert_eq!(inv.args, vec!["--flag".to_string()]);
            assert_eq!(inv.cwd, "/home/pocket/work");
            assert_eq!(inv.timeout_seconds, 7);
            assert_eq!(
                inv.env,
                vec![(
                    "HARNESS_EXPANDED_ENV".to_string(),
                    "expanded:/home/pocket:suffix".to_string()
                )]
            );
            assert_eq!(inv.request.prompt, "hello");
            assert_eq!(inv.request.thread_id, "main");
            let metadata: Vec<(String, String)> = (0..inv.request.metadata.len())
                .map(|i| {
                    let (k, v) = inv.request.metadata.entry(i);
                    (k.clone(), v.clone())
                })
                .collect();
            assert_eq!(
                metadata,
                vec![
                    ("connector".to_string(), "env".to_string()),
                    ("model".to_string(), "selected-model".to_string()),
                    ("provider".to_string(), "selected-provider".to_string()),
                    ("reply_style".to_string(), "normal".to_string()),
                ]
            );
            assert!(metadata.iter().all(|(_, v)| v != "sk-router-secret"));
        }
        Dispatch::Answered(_) => panic!("a JSON connector runs as a process"),
    }
}

#[test]
fn empty_json_command_is_refused_before_spawning() {
    let connector = ConnectorConfig {
        kind: ConnectorKind::Json,
        display_name: "Empty".to_string(),
        command: Vec::new(),
        cwd: ".".to_string(),
        timeout_seconds: 5,
        env: StrMap::new(),
        settings: StrMap::new(),
    };
    let config = AppConfig::default();
    let env = EnvVars::new();
    let manager = ConnectorManager::new(&config, &env);
    let error = manager.health("empty", &connector).unwrap_err();
    assert_eq!(error.message(), "json connector command is empty");
    let request = pocket_harness::connector::run_request(
        "empty",
        "main",
        &connector,
        &config.thread_or_default("main"),
        &config.llm_router,
        "hi",
        &env,
    );
    assert!(matches!(
        json_invocation(&connector, request, &env),
        Err(ConnectorError::EmptyCommand)
    ));
}

#[test]
fn json_response_is_found_after_log_noise() {
    let stdout = "starting\nlog: {not json\n{\"ok\":true,\"message\":\"parsed despite log noise\"}\n";
    let trimmed = connector_stdout(stdout).unwrap();
    assert_eq!(
        last_json_line(&trimmed).unwrap(),
        "{\"ok\":true,\"message\":\"parsed despite log noise\"}"
    );
    assert!(matches!(
        connector_stdout("  \n "),
        Err(ConnectorError::EmptyStdout)
    ));
    assert!(matches!(
        last_json_line("only logs\nmore logs"),
        Err(ConnectorError::NoJsonResponse)
    ));
}

#[test]
fn unhealthy_and_failed_connectors_are_reported() {
    let config = AppConfig::default();
    let env = EnvVars::new();
    let manager = ConnectorManager::new(&config, &env);
    let mut response = ConnectorResponse::default();
    response.ok = false;
    response.message = "health probe failed".to_string();
    let error = manager.check_health_response("echo", &response).unwrap_err();
    assert_eq!(
        error.message(),
        "connector `echo` reported unhealthy: health probe failed"
    );
    assert_eq!(
        ConnectorError::Exited("exit status: 7".to_string(), " boom from connector\n".to_string())
            .message(),
        "connector exited with status exit status: 7: boom from connector"
    );
    assert_eq!(
        ConnectorError::TimedOut(1).message(),
        "connector timed out after 1s"
    );
}

#[test]
fn healthy_response_without_required_capabilities_names_what_is_missing() {
    let config = AppConfig::default();
    let env = EnvVars::new();
    let manager = ConnectorManager::new(&config, &env);
    let mut response = ConnectorResponse::default();
    response.ok = true;
    response.capabilities = vec!["connector.health".to_string(), "connector.run".to_string()];
    match manager.check_health_response("echo", &response) {
        Err(ConnectorError::MissingCapabilities(name, missing)) => {
            assert_eq!(name, "echo");
            assert_eq!(
                missing,
                vec![
                    "attachments.images".to_string(),
                    "connector.cancel".to_string(),
                    "threads.cwd".to_string(),
                ]
            );
        }
        other => panic!("expected missing capabilities, got {other:?}"),
    }
}

#[test]
fn run_requests_carry_the_connector_settings_unchanged() {
    let env = EnvVars::new();
    let mut settings = StrMap::new();
    settings.insert("mode".to_string(), serde_yaml::Value::String("safe".to_string()));
    let connector = ConnectorConfig {
        kind: ConnectorKind::Json,
        display_name: "Agent".to_string(),
        command: vec!["agent".to_string()],
        cwd: ".".to_string(),
        timeout_seconds: 5,
        env: StrMap::new(),
        settings,
    };
    let mut config = AppConfig::default();
    config.connectors.default = "agent".to_string();
    config.connectors.definitions.insert("agent".to_string(), connector);
    let manager = ConnectorManager::new(&config, &env);
    match manager.run("main", "hi").unwrap() {
        Dispatch::Spawn(inv) => {
            assert_eq!(inv.request.settings.len(), 1);
            let (k, v) = inv.request.settings.entry(0);
            assert_eq!(k, "mode");
            assert_eq!(v, &serde_yaml::Value::String("safe".to_string()));
        }
        Dispatch::Answered(_) => panic!("a JSON connector runs as a process"),
    }
}
