use pocket_harness::env_file::{
    default_env_file, env_file_assignments, load_default_env_file, unquote_str, EnvVars,
};

#[test]
fn loads_env_file_without_overriding_existing_values() {
    let mut env = EnvVars::new();
    env.set("POCKET_TEST_ENV_FILE_A".to_string(), "existing".to_string());
    let assignments = env_file_assignments(
        "POCKET_TEST_ENV_FILE_A=\"alpha\"\nPOCKET_TEST_ENV_FILE_B=beta\n",
        &env,
    );
    for (key, value) in &assignments {
        env.set(key.clone(), value.clone());
    }

    assert_eq!(env.value_or_empty("POCKET_TEST_ENV_FILE_A"), "existing");
    assert_eq!(env.value_or_empty("POCKET_TEST_ENV_FILE_B"), "beta");
}

#[test]
fn env_file_lines_are_read_like_shell_assignments() {
    let env = EnvVars::new();
    let text = "# comment\n\nA = 'one'\nB=two=2\n=skip\nnoassign\nA=again\n  C=\"x\"  \r\n";
    assert_eq!(
        env_file_assignments(text, &env),
        vec![
            ("A".to_string(), "one".to_string()),
            ("B".to_string(), "two=2".to_string()),
            ("C".to_string(), "x".to_string()),
        ]
    );
    assert_eq!(unquote_str("\"q\""), "q");
    assert_eq!(unquote_str("'q"), "'q");
}

#[test]
fn default_env_file_lives_under_home() {
    let mut env = EnvVars::new();
    assert_eq!(default_env_file(&env), "./.pocket-harness/env");
    env.set("HOME".to_string(), "/home/pocket".to_string());
    assert_eq!(default_env_file(&env), "/home/pocket/.pocket-harness/env");
    assert_eq!(load_default_env_file(None, &env), "/home/pocket/.pocket-harness/env");
    assert_eq!(load_default_env_file(Some("/etc/env"), &env), "/etc/env");
}
