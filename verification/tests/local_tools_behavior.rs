use pocket_harness::config::AppConfig;
use pocket_harness::env_file::EnvVars;
use pocket_harness::local_tools::{
    cap_bytes, cap_lines, clean_path, collect_find_match, collect_grep_matches, command_output,
    current_cwd, cwd_set_message, format_paths, thread_cwd_setting, is_binary, is_ignored_dir, is_terminal_request, listing,
    parse_password_command, plan_session_tool, plan_tool, resolve_raw_path, sort_entries,
    sudo_output, terminal_log_dir, terminal_log_path, try_parse_natural, LocalToolCall, TerminalInfo, TerminalSessions, ToolError,
    ToolKind, ToolRequest,
};

fn call(name: &str, args: &[&str]) -> LocalToolCall {
    LocalToolCall {
        name: name.to_string(),
        args: args.iter().map(|a| a.to_string()).collect(),
    }
}

#[test]
fn parses_natural_directory_and_terminal_requests() {
    assert_eq!(
        try_parse_natural("go to ~/code").unwrap(),
        LocalToolCall {
            name: "cd".to_string(),
            args: vec!["~/code".to_string()],
        }
    );
    assert_eq!(try_parse_natural("run cargo test").unwrap().name, "sh");
    assert_eq!(
        try_parse_natural("run in background sleep 60")
            .unwrap()
            .name,
        "bg"
    );
}

#[test]
fn natural_requests_cover_each_tool() {
    assert_eq!(try_parse_natural("  Where Am I ").unwrap(), call("pwd", &[]));
    assert_eq!(try_parse_natural("LIST FILES").unwrap(), call("ls", &[]));
    assert_eq!(try_parse_natural("ls src.").unwrap(), call("ls", &["src"]));
    assert_eq!(
        try_parse_natural("find \"notes\"").unwrap(),
        call("find", &["notes"])
    );
    assert_eq!(
        try_parse_natural("search text 'TODO'").unwrap(),
        call("grep", &["TODO"])
    );
    assert_eq!(
        try_parse_natural("show file README.md.").unwrap(),
        call("cat", &["README.md"])
    );
    assert_eq!(
        try_parse_natural("Run command  make all ").unwrap(),
        call("sh", &["command  make all"])
    );
    assert_eq!(try_parse_natural("hello there"), None);
    assert_eq!(try_parse_natural("cd"), None);
}

#[test]
fn terminal_requests_are_recognised() {
    assert!(is_terminal_request("run cargo test"));
    assert!(is_terminal_request("start terminal htop"));
    assert!(is_terminal_request("please build it In Terminal now"));
    assert!(!is_terminal_request("go to ~/code"));
    assert_eq!(ToolKind::from_name("term_kill"), Some(ToolKind::TermKill));
    assert_eq!(ToolKind::from_name("nope"), None);
}

#[test]
fn cleaning_strips_quotes_and_trailing_dots() {
    assert_eq!(clean_path("  \"~/my dir\"  "), "~/my dir");
    assert_eq!(clean_path("'notes'"), "notes");
    assert_eq!(clean_path("file..."), "file");
    assert_eq!(clean_path("file.txt"), "file.txt");
    assert_eq!(clean_path("..."), "");
}

#[test]
fn tool_calls_are_checked_before_running() {
    assert!(matches!(plan_tool(&call("pwd", &[]), false), Ok(ToolRequest::Pwd)));
    match plan_tool(&call("nope", &[]), true) {
        Err(e) => assert_eq!(e.message(), "unknown local tool `nope`"),
        Ok(_) => panic!("unknown tool accepted"),
    }
    match plan_tool(&call("sh", &["ls"]), false) {
        Err(e) => assert_eq!(e.message(), "terminal feature is disabled"),
        Ok(_) => panic!("terminal tool accepted while disabled"),
    }
    match plan_tool(&call("bg", &["sleep", "1"]), true) {
        Err(e) => assert_eq!(
            e.message(),
            "persistent terminal tools require gateway runtime state"
        ),
        Ok(_) => panic!("session tool accepted without sessions"),
    }
    match plan_tool(&call("cd", &["  "]), true) {
        Err(e) => assert_eq!(e.message(), "usage: /cd <path>"),
        Ok(_) => panic!("blank path accepted"),
    }
    match plan_tool(&call("find", &[" notes ", "src"]), true) {
        Ok(ToolRequest::Find(pattern, path)) => {
            assert_eq!(pattern, "notes");
            assert_eq!(path, Some("src".to_string()));
        }
        _ => panic!("find not planned"),
    }
    match plan_session_tool(&call("bg", &["sleep", "30"]), true) {
        Ok(ToolRequest::Bg(command)) => assert_eq!(command, "sleep 30"),
        _ => panic!("bg not planned"),
    }
    match plan_session_tool(&call("sudo", &["pw", "--", "apt", "update"]), true) {
        Ok(ToolRequest::Sudo(password, command)) => {
            assert_eq!(password, "pw");
            assert_eq!(command, "apt update");
        }
        _ => panic!("sudo not planned"),
    }
}

#[test]
fn sudo_arguments_are_split() {
    let one = vec!["secret -- ls -la".to_string()];
    assert_eq!(
        parse_password_command(&one).unwrap(),
        ("secret".to_string(), "ls -la".to_string())
    );
    let blank = vec![" -- ls".to_string()];
    match parse_password_command(&blank) {
        Err(ToolError::Usage(u)) => assert_eq!(u, "/sudo <password> -- <command>"),
        _ => panic!("blank password accepted"),
    }
    let none = vec!["pw".to_string(), "ls".to_string()];
    assert!(parse_password_command(&none).is_err());
}

#[test]
fn output_is_capped() {
    assert_eq!(cap_lines("", 3, "No matches."), "No matches.");
    assert_eq!(cap_lines("a\nb", 3, "x"), "a\nb");
    assert_eq!(cap_lines("a\nb\nc\nd", 2, "x"), "a\nb\n... truncated at 2 lines");
    assert_eq!(cap_bytes("hello", 5), "hello");
    assert_eq!(cap_bytes("hello", 4), "hell...\ntruncated at 4 bytes");
    assert_eq!(cap_bytes("héllo", 2), "h...\ntruncated at 2 bytes");
    assert_eq!(cap_bytes("héllo", 3), "hé...\ntruncated at 3 bytes");
    assert_eq!(format_paths(vec![], "No matching files."), "No matching files.");
    assert_eq!(
        format_paths(vec!["a".to_string(), "b".to_string()], "x"),
        "a\nb"
    );
}

#[test]
fn command_output_is_shaped() {
    assert_eq!(command_output("out\n", "", "exit status: 0", true), "out");
    assert_eq!(command_output("out\n", "err\n", "exit status: 0", true), "out\nerr");
    assert_eq!(
        command_output(" ", "", "exit status: 0", true),
        "command exited with status exit status: 0"
    );
    assert_eq!(
        command_output("", "bad\n", "exit status: 2", false),
        "command failed with status exit status: 2\nbad"
    );
    assert_eq!(sudo_output("done\n", "", "exit status: 0", true), "done");
    assert_eq!(
        sudo_output("", "denied\n", "exit status: 1", false),
        "sudo command failed with status exit status: 1\ndenied"
    );
}

#[test]
fn listings_are_sorted_and_marked() {
    let entries = vec![
        ("src".to_string(), true),
        ("Cargo.toml".to_string(), false),
        ("README.md".to_string(), false),
    ];
    let sorted = sort_entries(&entries);
    assert_eq!(sorted[0].0, "Cargo.toml");
    assert_eq!(sorted[1].0, "README.md");
    assert_eq!(sorted[2].0, "src");
    assert_eq!(listing("/p", &sorted), "/p:\nCargo.toml\nREADME.md\nsrc/");
    let many: Vec<(String, bool)> = (0..205).map(|i| (format!("f{i:03}"), false)).collect();
    let text = listing("/p", &many);
    assert!(text.ends_with("f199\n... 5 more"));
    assert!(is_binary(&[1, 0, 2]));
    assert!(!is_binary(b"text"));
}

#[test]
fn searches_collect_matches() {
    let mut results = Vec::new();
    collect_find_match(&mut results, "/p/Notes.md", "notes");
    collect_find_match(&mut results, "/p/other.md", "notes");
    assert_eq!(results, vec!["/p/Notes.md".to_string()]);

    let mut matches = Vec::new();
    collect_grep_matches(&mut matches, "/p/a.rs", "fn a()\n// TODO one\nfn b()\n// TODO two", "TODO");
    assert_eq!(
        matches,
        vec!["/p/a.rs:2:// TODO one".to_string(), "/p/a.rs:4:// TODO two".to_string()]
    );
    assert!(is_ignored_dir("/p/node_modules"));
    assert!(is_ignored_dir("/p/.git"));
    assert!(!is_ignored_dir("/p/src"));
}

#[test]
fn paths_resolve_against_the_thread_directory() {
    let mut env = EnvVars::new();
    env.set("HOME".to_string(), "/home/pocket".to_string());
    let mut config = AppConfig::default();
    let mut main = config.threads.remove("main").unwrap();
    main.cwd = "/work".to_string();
    config.threads.insert("main".to_string(), main);
    assert_eq!(current_cwd(&config, "main", &env), "/work");
    assert_eq!(current_cwd(&config, "other", &env), "/work");
    assert_eq!(resolve_raw_path(&config, "main", "src", &env), "/work/src");
    assert_eq!(resolve_raw_path(&config, "main", "/etc", &env), "/etc");
    assert_eq!(resolve_raw_path(&config, "main", "~/x", &env), "/home/pocket/x");
}

#[test]
fn terminal_sessions_are_numbered_and_limited() {
    let mut sessions = TerminalSessions::new();
    match sessions.begin("  ", 2) {
        Err(e) => assert_eq!(e.message(), "usage: /bg <command>"),
        Ok(_) => panic!("blank command accepted"),
    }
    let first = sessions.begin("sleep 30", 2).unwrap();
    assert_eq!(first, "t1");
    sessions.add(TerminalInfo {
        id: first.clone(),
        command: "sleep 30".to_string(),
        cwd: "/work".to_string(),
        log_path: "/logs/t1.log".to_string(),
    });
    let second = sessions.begin("top", 2).unwrap();
    assert_eq!(second, "t2");
    sessions.add(TerminalInfo {
        id: second.clone(),
        command: "top".to_string(),
        cwd: "/work".to_string(),
        log_path: "/logs/t2.log".to_string(),
    });
    match sessions.begin("ls", 2) {
        Err(e) => assert_eq!(e.message(), "terminal session limit reached (2)"),
        Ok(_) => panic!("limit ignored"),
    }
    assert_eq!(sessions.find("t2").unwrap(), 1);
    match sessions.find("t9") {
        Err(e) => assert_eq!(e.message(), "unknown terminal session `t9`"),
        Ok(_) => panic!("unknown session found"),
    }
    let list = sessions.list(&vec!["running".to_string(), "exited 0".to_string()]);
    assert_eq!(
        list,
        "t1 running cwd=/work command=sleep 30\nt2 exited 0 cwd=/work command=top"
    );
    let removed = sessions.remove(0);
    assert_eq!(removed.id, "t1");
    assert_eq!(sessions.len(), 1);
    assert_eq!(sessions.begin("ls", 2).unwrap(), "t3");
}

#[test]
fn terminal_logs_live_under_the_data_dir() {
    let mut config = AppConfig::default();
    config.gateway.data_dir = "/data".to_string();
    let env = EnvVars::new();
    let dir = terminal_log_dir("/cfg/pocket-harness.yaml", &config, &env);
    assert_eq!(dir, "/data/logs/terminals");
    assert_eq!(terminal_log_path(&dir, "t3"), "/data/logs/terminals/t3.log");
}

#[test]
fn filesystem_refusals_name_the_path() {
    assert_eq!(ToolError::NotADirectory("/etc/hosts".to_string()).message(), "not a directory: /etc/hosts");
    assert_eq!(ToolError::NotAFile("/tmp".to_string()).message(), "not a file: /tmp");
    assert_eq!(
        ToolError::BinaryFile("/bin/ls".to_string()).message(),
        "refusing to print binary file: /bin/ls"
    );
    assert_eq!(
        ToolError::TimedOut("sudo command".to_string(), 60).message(),
        "sudo command timed out after 60s"
    );
}

#[test]
fn cd_names_the_thread_setting_and_reports_the_new_directory() {
    assert_eq!(thread_cwd_setting("main"), "threads.main.cwd");
    assert_eq!(cwd_set_message("/home/me/code"), "cwd set to /home/me/code");
}
