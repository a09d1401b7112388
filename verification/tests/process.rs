use portless::common::error::Error;
use portless::process::kill::{alive_from_query, alive_probe, signal_plan, Signal};
use portless::process::logs::{log_family, needs_rotation, rotated_path, rotation_plan, MAX_LOG_SIZE};
use portless::process::spawn::{
    command_line, dedup_path_entries, not_found_error, quote_cmd_arg, shell_escape,
    shell_invocation, Spawner,
};

#[test]
fn pid_zero_never_alive() {
    assert!(alive_probe(0, false).is_none());
    assert!(alive_probe(0, true).is_none());
}

#[test]
fn alive_probe_commands() {
    let (prog, args) = alive_probe(42, false).unwrap();
    assert_eq!(prog, "kill");
    assert_eq!(args, vec!["-0", "42"]);
    assert!(alive_from_query(true, " 42\r\n", 42));
    assert!(!alive_from_query(true, "", 42));
    assert!(!alive_from_query(false, "42", 42));
}

#[test]
fn signal_plans() {
    let (prog, args, msg) = signal_plan(1234, Signal::Term, false).unwrap();
    assert_eq!(prog, "kill");
    assert_eq!(args, vec!["-TERM", "1234"]);
    assert_eq!(msg, "kill -TERM 1234 failed");
    let (prog, args, _) = signal_plan(1234, Signal::Kill, true).unwrap();
    assert_eq!(prog, "taskkill");
    assert_eq!(args, vec!["/F", "/PID", "1234"]);
    assert!(matches!(signal_plan(0, Signal::Term, false), Err(Error::Process(_))));
    assert!(matches!(signal_plan(7, Signal::Hup, true), Err(Error::NotImplemented(_))));
}

#[test]
fn rotated_path_inserts_index() {
    let p = "/var/log/portless/app.log";
    assert_eq!(rotated_path(p, 1), "/var/log/portless/app.1.log");
    assert_eq!(rotated_path(p, 2), "/var/log/portless/app.2.log");
}

#[test]
fn rotation_threshold() {
    assert!(!needs_rotation(5));
    assert!(!needs_rotation(MAX_LOG_SIZE - 1));
    assert!(needs_rotation(MAX_LOG_SIZE));
}

#[test]
fn rotation_chains_through_multiple_files() {
    let (oldest, moves) = rotation_plan("/l/app.log");
    assert_eq!(oldest, "/l/app.3.log");
    assert_eq!(
        moves,
        vec![
            ("/l/app.2.log".to_string(), "/l/app.3.log".to_string()),
            ("/l/app.1.log".to_string(), "/l/app.2.log".to_string()),
            ("/l/app.log".to_string(), "/l/app.1.log".to_string()),
        ]
    );
    assert_eq!(log_family("/l/app.log"), vec!["/l/app.log", "/l/app.1.log", "/l/app.2.log", "/l/app.3.log"]);
}

#[test]
fn windows_quote_no_spaces() {
    assert_eq!(quote_cmd_arg("hello"), "hello");
}

#[test]
fn windows_quote_with_spaces() {
    assert_eq!(quote_cmd_arg("hello world"), "\"hello world\"");
}

#[test]
fn unix_shell_escape_basic() {
    assert_eq!(shell_escape("hello"), "'hello'");
}

#[test]
fn unix_shell_escape_with_quote() {
    assert_eq!(shell_escape("it's"), "'it'\\''s'");
}

#[test]
fn shell_command_lines() {
    let args = vec!["run".to_string(), "dev server".to_string()];
    let line = "PATH=\"./node_modules/.bin:$PATH\" 'npm' 'run' 'dev server'";
    assert_eq!(command_line("npm", &args, false), line);
    let (sh, a) = shell_invocation("npm", &args, false);
    assert_eq!(sh, "/bin/sh");
    assert_eq!(a, vec!["-c".to_string(), line.to_string()]);
    let (cmd, a) = shell_invocation("npm", &args, true);
    assert_eq!(cmd, "cmd");
    assert_eq!(&a[..3], &["/d".to_string(), "/s".to_string(), "/c".to_string()]);
}

#[test]
fn spawner_builder_and_env() {
    let s = Spawner::new("npm")
        .arg("run")
        .args(vec!["dev"])
        .cwd("/proj")
        .env("PORT", "4000")
        .env_remove("SECRET")
        .force_color(true);
    assert_eq!(s.program(), "npm");
    assert_eq!(s.arguments(), &vec!["run".to_string(), "dev".to_string()]);
    assert_eq!(s.working_dir(), Some("/proj"));
    let parent = vec![
        ("HOME".to_string(), "/home/u".to_string()),
        ("SECRET".to_string(), "x".to_string()),
    ];
    let env = s.child_env(&parent, Some("/bin".to_string()));
    let keys: Vec<&str> = env.iter().map(|(k, _)| k.as_str()).collect();
    assert_eq!(keys, vec!["HOME", "PATH", "PORT", "FORCE_COLOR", "CLICOLOR_FORCE"]);
    assert!(s.check_program().is_ok());
    assert!(Spawner::new("").check_program().is_err());
}

#[test]
fn path_dedup_keeps_first() {
    assert_eq!(dedup_path_entries("/a:/b:/a:/c:/b", ':'), "/a:/b:/c");
}

#[test]
fn not_found_message() {
    match not_found_error("nope") {
        Error::ProcessNotFound(m) => assert!(m.starts_with("'nope' not found on PATH")),
        e => panic!("unexpected {:?}", e),
    }
}

#[test]
fn explicit_path_overrides_deduped_path() {
    let s = Spawner::new("npm").env("PATH", "/custom/bin");
    let env = s.child_env(&vec![("PATH".to_string(), "/a:/a".to_string())], Some("/a".to_string()));
    let last_path = env.iter().rev().find(|(k, _)| k == "PATH").map(|(_, v)| v.as_str());
    assert_eq!(last_path, Some("/custom/bin"));
}

#[test]
fn child_env_last_setting_wins() {
    let parent = vec![("K".to_string(), "parent".to_string()), ("PATH".to_string(), "/a".to_string())];
    let value = |s: &Spawner, k: &str| -> Option<String> {
        s.child_env(&parent, Some("/a".to_string())).into_iter().filter(|(n, _)| n == k).last().map(|(_, v)| v)
    };
    assert_eq!(value(&Spawner::new("x").env("K", "a").env("K", "b"), "K"), Some("b".to_string()));
    assert_eq!(value(&Spawner::new("x").env_remove("K").env("K", "v"), "K"), Some("v".to_string()));
    assert_eq!(value(&Spawner::new("x").env("K", "v").env_remove("K"), "K"), None);
    assert_eq!(value(&Spawner::new("x").env("PATH", "/custom/bin"), "PATH"), Some("/custom/bin".to_string()));
}
