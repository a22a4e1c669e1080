use agentssh::cli::ConnectArgs;
use agentssh::output::{OutputBuffer, MAX_BUFFER};
use agentssh::session::{
    exit_code_of, normalize_input, output_matches_given, output_matches_str, ChannelEvent,
    DrainAction, ExitSignal, SessionCell, SessionCmd, SessionHandle, SessionStatus,
};
use agentssh::sorted::SortedMap;

#[test]
fn session_status_display_running() {
    assert_eq!(SessionStatus::Running.to_string(), "running");
}

#[test]
fn session_status_display_exited() {
    assert_eq!(SessionStatus::Exited.to_string(), "exited");
}

#[test]
fn session_status_display_closed() {
    assert_eq!(SessionStatus::Closed.to_string(), "closed");
}

#[test]
fn session_status_display_disconnected() {
    assert_eq!(SessionStatus::Disconnected.to_string(), "disconnected");
}

#[test]
fn session_status_display_error() {
    assert_eq!(SessionStatus::Error("timeout".into()).to_string(), "error: timeout");
}

// In JSON a status is its words, as a plain string.
#[test]
fn session_status_serialize_running() {
    let json = serde_json::to_string(&SessionStatus::Running.to_string()).unwrap();
    assert_eq!(json, "\"running\"");
}

#[test]
fn session_status_serialize_error() {
    let json = serde_json::to_string(&SessionStatus::Error("killed".into()).to_string()).unwrap();
    assert_eq!(json, "\"error: killed\"");
}

#[test]
fn session_status_deserialize_roundtrip() {
    for status in [
        SessionStatus::Running,
        SessionStatus::Exited,
        SessionStatus::Closed,
        SessionStatus::Disconnected,
    ] {
        let json = serde_json::to_string(&status.to_string()).unwrap();
        let word: String = serde_json::from_str(&json).unwrap();
        let deserialized = SessionStatus::from_name(&word).unwrap();
        assert_eq!(deserialized, status);
    }
    assert_eq!(SessionStatus::from_name("Running"), None);
    assert_eq!(SessionStatus::from_name("error: x"), None);
}

#[test]
fn session_status_equality() {
    assert_eq!(SessionStatus::Running, SessionStatus::Running);
    assert_ne!(SessionStatus::Running, SessionStatus::Exited);
    assert_eq!(SessionStatus::Error("x".into()), SessionStatus::Error("x".into()));
    assert_ne!(SessionStatus::Error("x".into()), SessionStatus::Error("y".into()));
}

#[test]
fn session_status_clone() {
    let original = SessionStatus::Error("test".into());
    let cloned = original.clone();
    assert_eq!(original, cloned);
}

#[test]
fn buffer_keeps_the_newest_megabyte() {
    let mut buffer = OutputBuffer::new();
    buffer.extend(&vec![b'a'; MAX_BUFFER]);
    assert_eq!(buffer.data.len(), 1024 * 1024);
    buffer.cursor = 10;
    buffer.extend(b"bcd");
    assert_eq!(buffer.data.len(), MAX_BUFFER);
    assert_eq!(&buffer.data[MAX_BUFFER - 3..], b"bcd");
    assert_eq!(buffer.cursor, 7);
    buffer.extend(&vec![b'e'; 20]);
    assert_eq!(buffer.cursor, 0);
}

#[test]
fn pages_begin_at_the_cursor() {
    let mut buffer = OutputBuffer::new();
    buffer.extend(b"0123456789");
    assert_eq!(buffer.page(0, 4, false), ("0123".to_string(), 4, 10));
    assert_eq!(buffer.page(8, 100, false), ("89".to_string(), 10, 10));
    assert_eq!(buffer.page(8, usize::MAX, false), ("89".to_string(), 10, 10));
    assert_eq!(buffer.page(25, 4, false), (String::new(), 25, 10));
    buffer.cursor = 6;
    assert_eq!(buffer.page(2, 2, false), ("67".to_string(), 8, 10));
}

#[test]
fn reads_give_only_fresh_data() {
    let mut buffer = OutputBuffer::new();
    buffer.extend(b"first ");
    assert_eq!(buffer.read_page(0, 4, true), ("firs".to_string(), 4, 6));
    buffer.extend(b"\x1b[1msecond\x1b[0m");
    assert_eq!(buffer.read_page(0, 100, true).0, "t second");
    assert_eq!(buffer.read_page(0, 100, true).0, "");
    buffer.extend(b"\x1b[1m!");
    assert_eq!(buffer.read_page(0, 100, false).0, "\x1b[1m!");
    assert_eq!(buffer.read_page(500, 100, false), (String::new(), 500, 25));
    assert_eq!(buffer.cursor, 25);
}

#[test]
fn invalid_bytes_are_shown_as_replacements() {
    let mut buffer = OutputBuffer::new();
    buffer.extend(b"a\xffb");
    assert_eq!(buffer.page(0, 10, false).0, "a\u{fffd}b");
}

#[test]
fn output_arrives_in_the_buffer() {
    let mut cell = SessionCell::new(100);
    assert!(cell.on_event(ChannelEvent::Data(b"out".to_vec()), 200, false));
    assert!(cell.on_event(ChannelEvent::ExtendedData { ext: 1, data: b"err".to_vec() }, 300, false));
    assert!(cell.on_event(ChannelEvent::ExtendedData { ext: 2, data: b"xxx".to_vec() }, 400, false));
    assert!(cell.on_event(ChannelEvent::Other, 500, false));
    assert_eq!(cell.output.data, b"outerr");
    assert_eq!(cell.updated_at, 300);
    assert_eq!(cell.status, SessionStatus::Running);
}

#[test]
fn exit_code_outlives_the_end_of_the_channel() {
    let mut cell = SessionCell::new(0);
    assert!(cell.on_event(ChannelEvent::ExitStatus(3), 1, false));
    assert!(!cell.on_event(ChannelEvent::Close, 2, false));
    assert_eq!(cell.status, SessionStatus::Exited);
    assert_eq!(cell.exit_status, Some(3));
    assert!(cell.drain_dead);
    assert_eq!(cell.updated_at, 2);
}

#[test]
fn channel_end_leaves_no_session_running() {
    let mut eof = SessionCell::new(0);
    assert!(!eof.on_event(ChannelEvent::Eof, 5, false));
    assert_eq!((eof.status, eof.updated_at), (SessionStatus::Closed, 5));
    let mut ended = SessionCell::new(0);
    assert!(!ended.on_event(ChannelEvent::Ended, 5, false));
    assert_eq!((ended.status, ended.updated_at), (SessionStatus::Closed, 0));
    assert!(ended.drain_dead);
    let mut dropped = SessionCell::new(0);
    assert!(!dropped.on_event(ChannelEvent::Ended, 5, true));
    assert_eq!((dropped.status, dropped.updated_at), (SessionStatus::Disconnected, 0));
    assert!(dropped.drain_dead);
    let mut disconnected = SessionCell::new(0);
    disconnected.status = SessionStatus::Disconnected;
    assert!(!disconnected.on_event(ChannelEvent::Ended, 5, false));
    assert_eq!(disconnected.status, SessionStatus::Disconnected);
}

#[test]
fn signals_that_end_a_process_are_noted() {
    let mut cell = SessionCell::new(0);
    let event = ChannelEvent::ExitSignal {
        signal: ExitSignal::Segv,
        error_message: "core dumped".to_string(),
    };
    assert!(cell.on_event(event, 9, false));
    assert_eq!(cell.exit_signal.as_deref(), Some("SEGV"));
    assert_eq!(cell.status, SessionStatus::Exited);
    assert_eq!(cell.output.data, b"\r\n[signal: core dumped]\r\n");
    let quiet = ChannelEvent::ExitSignal {
        signal: ExitSignal::Custom("STOP".to_string()),
        error_message: String::new(),
    };
    assert!(cell.on_event(quiet, 10, false));
    assert_eq!(cell.exit_signal.as_deref(), Some("STOP"));
    assert_eq!(cell.output.data.len(), 25);
}

#[test]
fn exit_codes_wrap_into_signed_numbers() {
    assert_eq!(exit_code_of(0), 0);
    assert_eq!(exit_code_of(255), 255);
    assert_eq!(exit_code_of(u32::MAX), -1);
    assert_eq!(exit_code_of(0x8000_0000), i32::MIN);
}

fn signal(cell: &mut SessionCell, name: &str) -> (DrainAction, bool) {
    cell.on_command(Some(SessionCmd::Signal { signal: name.to_string() }))
}

#[test]
fn terminal_signals_are_typed() {
    let mut cell = SessionCell::new(0);
    assert!(matches!(signal(&mut cell, "INT"), (DrainAction::Type(0x03), true)));
    assert!(matches!(signal(&mut cell, "QUIT"), (DrainAction::Type(0x1c), true)));
    assert!(matches!(signal(&mut cell, "TSTP"), (DrainAction::Type(0x1a), true)));
    assert!(matches!(signal(&mut cell, "HUP"), (DrainAction::Nothing, true)));
    assert_eq!(cell.status, SessionStatus::Running);
    assert!(matches!(signal(&mut cell, "KILL"), (DrainAction::Eof, false)));
    assert_eq!(cell.status, SessionStatus::Closed);
    assert!(cell.drain_dead);
}

#[test]
fn commands_reach_the_channel() {
    let mut cell = SessionCell::new(0);
    match cell.on_command(Some(SessionCmd::Send { data: b"ls\n".to_vec() })) {
        (DrainAction::Send(data), true) => assert_eq!(data, b"ls\n"),
        other => panic!("unexpected: {other:?}"),
    }
    assert!(matches!(
        cell.on_command(Some(SessionCmd::Resize { cols: 80, rows: 24 })),
        (DrainAction::WindowChange { cols: 80, rows: 24 }, true)
    ));
    assert!(matches!(cell.on_command(Some(SessionCmd::Close)), (DrainAction::Eof, false)));
    assert_eq!(cell.status, SessionStatus::Closed);
    let mut orphan = SessionCell::new(0);
    assert!(matches!(orphan.on_command(None), (DrainAction::Nothing, false)));
    assert_eq!(orphan.status, SessionStatus::Running);
    assert!(orphan.drain_dead);
    assert_eq!(orphan.reachable().unwrap_err().to_string(), "drain task dead");
}

#[test]
fn failed_input_fails_the_session() {
    let mut cell = SessionCell::new(0);
    assert!(cell.reachable().is_ok());
    cell.on_send_failed("channel closed".to_string());
    assert_eq!(cell.status.to_string(), "error: channel closed");
    assert!(cell.drain_dead);
    cell.on_reconnected();
    assert_eq!(cell.status, SessionStatus::Running);
    assert!(!cell.drain_dead);
    assert!(String::from_utf8_lossy(&cell.output.data).contains("[AgentSSH]"));
}

#[test]
fn line_feeds_are_typed_as_asked() {
    assert_eq!(normalize_input("a\nb\n", true), "a\r\nb\r\n");
    assert_eq!(normalize_input("a\r\n", true), "a\r\r\n");
    assert_eq!(normalize_input("a\nb\n", false), "a\nb\n");
}

#[test]
fn patterns_match_as_regex_or_as_text() {
    assert!(output_matches_str("[sudo] password for bob:", "[sudo] password"));
    assert!(output_matches_str("[SUDO] PASSWORD for bob:", "[sudo] password"));
    assert!(output_matches_str("Continue? (y/n)", "continue\\? \\(."));
    assert!(output_matches_str("build 123 done", "build \\d+ DONE"));
    assert!(!output_matches_str("build x done", "build \\d+ done"));
    assert!(output_matches_str("an (open bracket", "(open"));
    assert!(!output_matches_str("", "x"));
    assert!(output_matches_given("abc", "zzz", Some(true)));
    assert!(!output_matches_given("abc", "zzz", Some(false)));
    assert!(output_matches_given("xABCx", "abc", None));
}

fn session(id: &str, connection_id: &str) -> SessionHandle {
    SessionHandle {
        id: id.to_string(),
        connection_id: connection_id.to_string(),
        host: "example.com".to_string(),
        port: 22,
        username: "root".to_string(),
        cols: 120,
        rows: 40,
        reconnect: true,
        connect_args: ConnectArgs::default(),
        created_at: 1000,
        cell: SessionCell::new(1000),
    }
}

#[test]
fn summary_names_the_siblings() {
    let mut all = SortedMap::new();
    for (id, c) in [("s3", "c1"), ("s1", "c1"), ("s10", "c1"), ("s2", "c2")] {
        all.insert(id.to_string(), session(id, c));
    }
    let value = all.get("s1").unwrap().summary(&all);
    let names: Vec<&str> = value
        .get("siblings")
        .unwrap()
        .as_array()
        .unwrap()
        .iter()
        .map(|v| v.as_str().unwrap())
        .collect();
    assert_eq!(names, vec!["s10", "s3"]);
    assert_eq!(value.get("id").unwrap().as_str(), Some("s1"));
    assert_eq!(value.get("port").unwrap().as_u64(), Some(22));
    assert_eq!(value.get("status").unwrap().as_str(), Some("running"));
    assert_eq!(value.get("exit_signal").unwrap().as_str(), Some(""));
    assert_eq!(value.get("reconnect").unwrap().as_bool(), Some(true));
    assert_eq!(value.get("created_at").unwrap().as_u64(), Some(1000));
}
