use agentssh::error::Error;
use agentssh::printing::{report_failure, CommandOutput, Printout};
use agentssh::util::{
    config_dir, emit_message, expand_home, log_line, log_path, millis_or_zero, now_ms,
    runtime_socket_name, stat_json, strip_ansi, ConfigDir, FileStat, HomePath,
};

#[test]
fn strip_ansi_removes_csi_color_codes() {
    let input = "hello \x1b[31mred\x1b[0m world";
    assert_eq!(strip_ansi(input), "hello red world");
}

#[test]
fn strip_ansi_removes_osc_sequences() {
    let input = "title\x1b]0;window title\x07body";
    assert_eq!(strip_ansi(input), "titlebody");
}

#[test]
fn strip_ansi_removes_private_use_area_characters() {
    let folder = '\u{F31B}';
    let home = '\u{F015}';
    let input = format!("{folder} {home} ~");
    assert_eq!(strip_ansi(&input), "  ~");
}

#[test]
fn strip_ansi_removes_control_characters_except_whitespace() {
    assert_eq!(strip_ansi("a\x07b\x08c"), "abc");
    assert_eq!(strip_ansi("line1\nline2\r\nline3"), "line1\nline2\r\nline3");
    assert_eq!(strip_ansi("col1\tcol2"), "col1\tcol2");
}

#[test]
fn strip_ansi_handles_empty_and_clean_input() {
    assert_eq!(strip_ansi(""), "");
    assert_eq!(strip_ansi("clean text"), "clean text");
}

#[test]
fn strip_ansi_handles_nested_ansi_and_pua() {
    let folder = '\u{F31B}';
    let input = format!("\x1b[32m{folder}\x1b[0m README.md");
    assert_eq!(strip_ansi(&input), " README.md");
}

#[test]
fn strip_ansi_handles_unfinished_and_odd_sequences() {
    assert_eq!(strip_ansi("a\x1b"), "a");
    assert_eq!(strip_ansi("a\x1b[31"), "a");
    assert_eq!(strip_ansi("a\x1b]0;title"), "a");
    assert_eq!(strip_ansi("a\x1b]0;t\x1b\\b"), "ab");
    assert_eq!(strip_ansi("a\x1b]0;t\x1bxy\x07b"), "ab");
    assert_eq!(strip_ansi("a\x1b(Bc"), "aBc");
    assert_eq!(strip_ansi("\u{e000}\u{f8ff}\u{f900}"), "\u{f900}");
    assert_eq!(strip_ansi("\u{7f}\u{85}\u{9f}\u{a0}"), "\u{a0}");
}

#[test]
fn strip_ansi_twice_is_once() {
    let input = "\x1b[1;32muser@host\x1b[0m:~$ ls\r\n\x07\u{F31B} src\n";
    let once = strip_ansi(input);
    assert_eq!(strip_ansi(&once), once);
    assert_eq!(once, "user@host:~$ ls\r\n src\n");
}

#[test]
fn log_lines_are_timestamped() {
    let line = log_line(1_700_000_000_123, "daemon started");
    assert_eq!(line, "[1700000000123] daemon started\n");
    assert_eq!(log_path(None), "/tmp/agentssh-daemon.log");
    assert_eq!(log_path(Some("/var/log/a.log".to_string())), "/var/log/a.log");
}

#[test]
fn clock_shows_a_time_after_2020() {
    assert!(now_ms() > 1_577_836_800_000);
    assert_eq!(millis_or_zero(Some(7)), 7);
    assert_eq!(millis_or_zero(None), 0);
}

#[test]
fn tilde_stands_for_home() {
    assert!(matches!(expand_home("~"), HomePath::Home));
    match expand_home("~/.ssh/id_ed25519") {
        HomePath::Under(rest) => assert_eq!(rest, ".ssh/id_ed25519"),
        other => panic!("unexpected: {other:?}"),
    }
    for path in ["", "/etc", "~root/x", "a/~/b"] {
        assert!(matches!(expand_home(path), HomePath::Itself));
    }
}

#[test]
fn configuration_is_looked_for_in_order() {
    match config_dir(Some("/tmp/c".to_string()), true, true) {
        Ok(ConfigDir::Given(path)) => assert_eq!(path, "/tmp/c"),
        other => panic!("unexpected: {other:?}"),
    }
    assert!(matches!(config_dir(Some("  ".to_string()), true, true), Ok(ConfigDir::Xdg)));
    assert!(matches!(config_dir(None, false, true), Ok(ConfigDir::Home)));
    let error = config_dir(None, false, false).expect_err("nowhere");
    assert!(error.to_string().starts_with("could not locate config directory."));
}

#[test]
fn socket_name_is_safe() {
    let name = |u: Option<&str>, n: Option<&str>| {
        runtime_socket_name(u.map(|s| s.to_string()), n.map(|s| s.to_string()))
    };
    assert_eq!(name(Some("alice"), None), "agentssh-alice.sock");
    assert_eq!(name(None, Some("a.b/c d")), "agentssh-a_b_c_d.sock");
    assert_eq!(name(None, None), "agentssh-user.sock");
    assert_eq!(name(Some("zo\u{eb}-1_X"), Some("bob")), "agentssh-zo_-1_X.sock");
}

#[test]
fn file_attributes_in_json() {
    let stat = FileStat {
        size: Some(1234),
        uid: Some(0),
        gid: None,
        perm: Some(0o100644),
        atime: None,
        mtime: Some(1_700_000_000),
    };
    let value = stat_json(stat);
    assert_eq!(value.get("size").unwrap().as_u64(), Some(1234));
    assert_eq!(value.get("perm").unwrap().as_u64(), Some(33188));
    assert_eq!(value.get("gid").unwrap().as_u64(), None);
    assert_eq!(value.get("mtime").unwrap().as_u64(), Some(1_700_000_000));
}

#[test]
fn events_are_printed_in_the_form_asked_for() {
    assert_eq!(
        emit_message(false, "profile_written", "prod"),
        Printout::Line("profile_written: prod".to_string())
    );
    match emit_message(true, "profile_written", "prod") {
        Printout::Pretty(value) => {
            assert_eq!(value.get("ok").unwrap().as_bool(), Some(true));
            let data = value.get("data").unwrap();
            assert_eq!(data.get("event").unwrap().as_str(), Some("profile_written"));
            assert_eq!(data.get("message").unwrap().as_str(), Some("prod"));
        }
        other => panic!("unexpected: {other:?}"),
    }
}

#[test]
fn failures_are_json_where_json_is_asked_for() {
    let error = Error::CommandTimedOut(30000);
    let CommandOutput { stdout, stderr, exit_code } = report_failure(true, &error);
    assert_eq!((stderr.as_str(), exit_code), ("", 1));
    match &stdout[0] {
        Printout::Compact(value) => {
            assert_eq!(value.get("ok").unwrap().as_bool(), Some(false));
            assert_eq!(
                value.get("error").unwrap().as_str(),
                Some("command timed out after 30000ms")
            );
        }
        other => panic!("unexpected: {other:?}"),
    }
    let plain = report_failure(false, &error);
    assert!(plain.stdout.is_empty());
    assert_eq!(plain.stderr, "Error: command timed out after 30000ms\n");
    assert_eq!(plain.exit_code, 1);
}

#[test]
fn messages_of_failures() {
    let refused = Error::ConnectFailed {
        host: "10.0.0.1".to_string(),
        port: 2222,
        cause: "Connection refused".to_string(),
    };
    assert_eq!(refused.to_string(), "failed to connect to 10.0.0.1:2222: Connection refused");
    assert_eq!(Error::InvalidRequest("eof".to_string()).to_string(), "invalid request: eof");
    assert_eq!(Error::NoHome.to_string(), "could not locate home directory");
    assert_eq!(Error::Outside("as it is".to_string()).to_string(), "as it is");
}
