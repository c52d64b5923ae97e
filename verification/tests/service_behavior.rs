use pocket_harness::env_file::EnvVars;
use pocket_harness::service::{
    detect_platform, launchd_label, redact_secrets, render_launchd_plist, render_systemd_unit,
    render_windows_launcher, service_plan, shell_escape, unit_name, xml_escape, CommandCheck,
    ServiceAction, ServiceOptions, ServicePlatform, ServiceStep,
};

fn options() -> ServiceOptions {
    ServiceOptions {
        config_path: "/tmp/pocket/config.yaml".to_string(),
        env_file: "/tmp/pocket/env".to_string(),
        service_name: "pocket-harness".to_string(),
        binary_path: "/usr/local/bin/pocket-harness".to_string(),
        log_dir: "/tmp/pocket/logs".to_string(),
    }
}

#[test]
fn renders_systemd_unit_with_env_and_restart_policy() {
    let unit = render_systemd_unit(&options());
    assert!(unit.contains("EnvironmentFile=/tmp/pocket/env"));
    assert!(unit.contains("Restart=always"));
    assert!(unit.contains("--config /tmp/pocket/config.yaml telegram"));
}

#[test]
fn renders_launchd_plist_with_keepalive() {
    let plist = render_launchd_plist(&options());
    assert!(plist.contains("<key>KeepAlive</key>"));
    assert!(plist.contains("/usr/local/bin/pocket-harness"));
    assert!(plist.contains("/tmp/pocket/config.yaml"));
}

#[test]
fn launchd_plist_points_to_env_file_without_embedding_secrets() {
    let env_file = "/tmp/pocket-harness-plist-test/env".to_string();
    let mut options = options();
    options.env_file = env_file.clone();
    let plist = render_launchd_plist(&options);

    assert!(plist.contains("<key>POCKET_HARNESS_ENV_FILE</key>"));
    assert!(plist.contains(&env_file));
    assert!(!plist.contains("TELEGRAM_BOT_TOKEN"));
    assert!(!plist.contains("GEMINI_API_KEY"));
    assert!(!plist.contains("telegram-secret"));
    assert!(!plist.contains("gemini-secret"));
}

#[test]
fn renders_windows_launcher_with_env_loader() {
    let script = render_windows_launcher(&options());
    assert!(script.contains("for /f"));
    assert!(script.contains("pocket-harness"));
}

#[test]
fn redacts_secret_values_from_service_status() {
    let status = "environment = {\n\t\tGEMINI_API_KEY => abc123\n\t\tPATH => /bin\n\t\tTELEGRAM_BOT_TOKEN => token\n\t}\n";
    let redacted = redact_secrets(status);

    assert!(redacted.contains("GEMINI_API_KEY => [redacted]"));
    assert!(redacted.contains("TELEGRAM_BOT_TOKEN => [redacted]"));
    assert!(redacted.contains("PATH => /bin"));
    assert!(!redacted.contains("abc123"));
    assert!(!redacted.contains("token\n"));
}

#[test]
fn systemd_unit_is_rendered_exactly() {
    let unit = render_systemd_unit(&options());
    assert_eq!(
        unit,
        "[Unit]\nDescription=Pocket Harness Telegram gateway\nAfter=network-online.target\nWants=network-online.target\n\n[Service]\nType=simple\nEnvironmentFile=/tmp/pocket/env\nExecStart=/usr/local/bin/pocket-harness --env-file /tmp/pocket/env --config /tmp/pocket/config.yaml telegram\nRestart=always\nRestartSec=5\nWorkingDirectory=/tmp/pocket\nStandardOutput=append:/tmp/pocket/logs/service.log\nStandardError=append:/tmp/pocket/logs/service.err.log\n\n[Install]\nWantedBy=default.target\n"
    );
}

#[test]
fn shell_and_xml_escaping() {
    assert_eq!(shell_escape("/usr/bin/x"), "/usr/bin/x");
    assert_eq!(shell_escape("it's here"), "'it'\\''s here'");
    assert_eq!(shell_escape(""), "");
    assert_eq!(xml_escape("a<b>&\"c'"), "a&lt;b&gt;&amp;&quot;c&apos;");
}

#[test]
fn names_and_platforms() {
    let o = options();
    assert_eq!(unit_name(&o), "pocket-harness.service");
    assert_eq!(launchd_label(&o), "com.pocketharness.pocket.harness");
    assert_eq!(detect_platform(true, false, true), Some(ServicePlatform::Launchd));
    assert_eq!(detect_platform(false, true, true), Some(ServicePlatform::WindowsTask));
    assert_eq!(detect_platform(false, false, true), Some(ServicePlatform::SystemdUser));
    assert_eq!(detect_platform(false, false, false), None);
    assert_eq!(
        o.command_args(),
        vec!["--env-file", "/tmp/pocket/env", "--config", "/tmp/pocket/config.yaml", "telegram"]
    );
}

#[test]
fn redaction_keeps_a_final_newline_only_when_present() {
    assert_eq!(redact_secrets("API_KEY => x"), "API_KEY => [redacted]");
    assert_eq!(redact_secrets("a\nb\n"), "a\nb\n");
    assert_eq!(redact_secrets("password => p\n"), "password => [redacted]\n");
}

#[test]
fn service_plans_follow_the_platform() {
    let mut env = EnvVars::new();
    env.set("HOME".to_string(), "/home/pocket".to_string());
    let o = options();

    let start = service_plan(ServiceAction::Start, Some(ServicePlatform::SystemdUser), &o, &env, "gui/501").unwrap();
    assert_eq!(start.len(), 1);
    match &start[0] {
        ServiceStep::Run(program, args, check) => {
            assert_eq!(program, "systemctl");
            assert_eq!(args, &vec!["--user".to_string(), "start".to_string(), "pocket-harness.service".to_string()]);
            assert_eq!(*check, CommandCheck::MustSucceed);
        }
        other => panic!("unexpected step {other:?}"),
    }

    let restart = service_plan(ServiceAction::Restart, Some(ServicePlatform::Launchd), &o, &env, "gui/501").unwrap();
    assert_eq!(restart.len(), 2);
    match &restart[0] {
        ServiceStep::Run(program, args, check) => {
            assert_eq!(program, "launchctl");
            assert_eq!(args[2], "gui/501/com.pocketharness.pocket.harness");
            assert_eq!(*check, CommandCheck::AllowFail);
        }
        other => panic!("unexpected step {other:?}"),
    }

    let install = service_plan(ServiceAction::Install, Some(ServicePlatform::SystemdUser), &o, &env, "gui/501").unwrap();
    assert_eq!(install.len(), 4);
    match &install[1] {
        ServiceStep::WriteFile(path, text) => {
            assert_eq!(path, "/home/pocket/.config/systemd/user/pocket-harness.service");
            assert!(text.contains("Restart=always"));
        }
        other => panic!("unexpected step {other:?}"),
    }

    let status = service_plan(ServiceAction::Status, Some(ServicePlatform::Launchd), &o, &env, "gui/501").unwrap();
    assert!(matches!(&status[0], ServiceStep::Run(_, _, CommandCheck::Redacted)));

    let none = service_plan(ServiceAction::Stop, None, &o, &env, "gui/501").unwrap_err();
    assert_eq!(none.message(), "no supported service manager found");
}

#[test]
fn options_default_to_the_home_log_dir() {
    let mut env = EnvVars::new();
    env.set("HOME".to_string(), "/home/pocket".to_string());
    let o = ServiceOptions::new(
        "/etc/pocket.yaml".to_string(),
        "/etc/pocket.env".to_string(),
        None,
        None,
        &env,
    );
    assert_eq!(o.service_name, "pocket-harness");
    assert_eq!(o.binary_path, "pocket-harness");
    assert_eq!(o.log_dir, "/home/pocket/.pocket-harness/logs");
}
