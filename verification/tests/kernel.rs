use agentssh::cli::{
    ConnectArgs, ConnectCommand, FileOnce, ProxyCloseCommand, ProxyCreateCommand,
    ProxyPingCommand, ReadCommand, ReadFileCommand, ResizeCommand, SessionExecCommand,
    SessionInputCommand, SignalCommand, SpawnCommand, StatusCommand,
};
use agentssh::client::{
    daemon_not_running, ensure_daemon, request_line, run_client, run_read_command, DaemonWait,
    ReadPlan,
};
use agentssh::daemon::daemon_signal_as_is;
use agentssh::error::Error;
use agentssh::exec::ExecOutput;
use agentssh::json::Json;
use agentssh::kernel::{finish_exec, finish_file, PendingProxy, Step};
use agentssh::printing::Printout;
use agentssh::profile::ProfileStore;
use agentssh::protocol::{WireRequest, WireResponse};
use agentssh::proxy::ProxyStatus;
use agentssh::send::{PendingSend, SendStep};
use agentssh::session::{ChannelEvent, DrainAction, SessionCmd, SessionStatus};
use agentssh::state::ServerState;

const NOW: u64 = 1_000_000;

fn args() -> ConnectArgs {
    ConnectArgs {
        host: Some("example.com".to_string()),
        username: Some("root".to_string()),
        ..ConnectArgs::default()
    }
}

fn no_profiles() -> Result<ProfileStore, Error> {
    Ok(ProfileStore::new())
}

fn ask(state: &mut ServerState, request: WireRequest) -> Step {
    state.handle_request(request, &no_profiles(), NOW, 4242)
}

fn answered(step: Step) -> WireResponse {
    match step {
        Step::Reply(reply) => reply,
        other => panic!("expected an answer, got {other:?}"),
    }
}

fn refused(step: Step) -> String {
    let reply = answered(step);
    assert!(!reply.ok && reply.data.is_none());
    reply.error.expect("a message")
}

fn data(reply: WireResponse) -> Json {
    assert!(reply.ok && reply.error.is_none());
    reply.data.expect("data")
}

fn text(value: &Json, key: &str) -> String {
    value.get(key).and_then(|v| v.as_str()).expect("a text").to_string()
}

fn number(value: &Json, key: &str) -> u64 {
    value.get(key).and_then(|v| v.as_u64()).expect("a number")
}

fn connect_request(connect: ConnectArgs, reconnect: bool) -> WireRequest {
    WireRequest::Connect(ConnectCommand {
        connect,
        cols: 100,
        rows: 30,
        wait_ms: 250,
        limit: 8000,
        reconnect,
    })
}

fn connect(state: &mut ServerState, handle: u64, reconnect: bool) -> String {
    match ask(state, connect_request(args(), reconnect)) {
        Step::Connect(pending) => {
            let value = data(state.finish_connect(pending, Ok(handle), NOW));
            text(&value, "session_id")
        }
        other => panic!("expected a connection to open, got {other:?}"),
    }
}

fn spawn(state: &mut ServerState, from: &str) -> String {
    let request = WireRequest::Spawn(SpawnCommand {
        from: from.to_string(),
        cols: 80,
        rows: 24,
        wait_ms: 0,
        limit: 10,
    });
    match ask(state, request) {
        Step::Spawn(pending) => {
            text(&data(state.finish_spawn(pending, Ok(()), NOW)), "session_id")
        }
        other => panic!("expected a terminal to open, got {other:?}"),
    }
}

fn close(state: &mut ServerState, id: &str) {
    let request = WireRequest::Close(StatusCommand { session_id: id.to_string() });
    match ask(state, request) {
        Step::Tell { session_id, command: SessionCmd::Close, reply } => {
            assert_eq!(session_id, id);
            assert_eq!(text(&data(reply), "closed"), id);
        }
        other => panic!("expected a close, got {other:?}"),
    }
}

fn status(id: &str) -> StatusCommand {
    StatusCommand { session_id: id.to_string() }
}

#[test]
fn sessions_are_numbered_and_described() {
    let mut state = ServerState::new(NOW);
    assert_eq!(connect(&mut state, 7, false), "s1");
    assert_eq!(connect(&mut state, 8, true), "s2");
    let value = data(answered(ask(&mut state, WireRequest::Status(status("s2")))));
    let session = value.get("session").unwrap();
    assert_eq!(text(session, "connection_id"), "c2");
    assert_eq!(text(session, "host"), "example.com");
    assert_eq!(number(session, "port"), 22);
    assert_eq!(number(session, "cols"), 100);
    assert_eq!(session.get("reconnect").unwrap().as_bool(), Some(true));
}

#[test]
fn refused_connections_use_up_ids_and_leave_nothing() {
    let mut state = ServerState::new(NOW);
    assert_eq!(
        refused(ask(&mut state, connect_request(ConnectArgs::default(), false))),
        "--host is required"
    );
    match ask(&mut state, connect_request(args(), false)) {
        Step::Connect(pending) => {
            assert_eq!((pending.session_id.as_str(), pending.connection_id.as_str()), ("s2", "c2"));
            let failure = Error::ConnectFailed {
                host: "example.com".to_string(),
                port: 22,
                cause: "Connection refused".to_string(),
            };
            let reply = state.finish_connect(pending, Err(failure), NOW);
            assert_eq!(
                reply.error.as_deref(),
                Some("failed to connect to example.com:22: Connection refused")
            );
        }
        other => panic!("unexpected: {other:?}"),
    }
    assert_eq!((state.sessions.len(), state.connections.len()), (0, 0));
    assert_eq!(connect(&mut state, 1, false), "s3");
}

#[test]
fn connections_are_shared_and_go_with_their_last_user() {
    let mut state = ServerState::new(NOW);
    let first = connect(&mut state, 7, false);
    let second = spawn(&mut state, &first);
    assert_eq!(second, "s2");
    assert_eq!(state.connections.get("c1").unwrap().refcount, 2);
    let value = data(answered(ask(&mut state, WireRequest::Status(status("s1")))));
    let siblings = value.get("session").unwrap().get("siblings").unwrap();
    assert_eq!(siblings.as_array().unwrap()[0].as_str(), Some("s2"));
    close(&mut state, &first);
    assert_eq!(state.connections.get("c1").unwrap().refcount, 1);
    let third = spawn(&mut state, &second);
    close(&mut state, &second);
    close(&mut state, &third);
    assert_eq!(state.connections.len(), 0);
    assert_eq!(
        refused(ask(&mut state, WireRequest::Close(status("s1")))),
        "session s1 not found"
    );
}

#[test]
fn spawning_needs_a_session_and_its_connection() {
    let mut state = ServerState::new(NOW);
    let spawn_from = |from: &str| {
        WireRequest::Spawn(SpawnCommand {
            from: from.to_string(),
            cols: 1,
            rows: 1,
            wait_ms: 0,
            limit: 0,
        })
    };
    assert_eq!(refused(ask(&mut state, spawn_from("s9"))), "session s9 not found");
    connect(&mut state, 7, false);
    match ask(&mut state, spawn_from("s1")) {
        Step::Spawn(pending) => {
            assert_eq!(pending.handle, 7);
            close(&mut state, "s1");
            let reply = state.finish_spawn(pending, Ok(()), NOW);
            assert_eq!(reply.error.as_deref(), Some("connection c1 not found"));
        }
        other => panic!("unexpected: {other:?}"),
    }
    assert_eq!(state.sessions.len(), 0);
}

#[test]
fn listing_holds_all_sessions_in_order() {
    let mut state = ServerState::new(NOW);
    for handle in 0..11 {
        connect(&mut state, handle, false);
    }
    let value = data(answered(ask(&mut state, WireRequest::List)));
    let ids: Vec<String> =
        value.as_array().unwrap().iter().map(|session| text(session, "id")).collect();
    assert_eq!(ids[..4], ["s1", "s10", "s11", "s2"]);
    assert_eq!(ids.len(), 11);
}

#[test]
fn ping_says_whether_a_session_is_alive() {
    let mut state = ServerState::new(NOW);
    connect(&mut state, 7, false);
    let ping = |state: &mut ServerState| data(answered(ask(state, WireRequest::Ping(status("s1")))));
    let value = ping(&mut state);
    assert_eq!(value.get("alive").unwrap().as_bool(), Some(true));
    assert_eq!(text(&value, "status"), "running");
    assert!(!state.on_channel_event("s1", ChannelEvent::Eof, NOW + 5));
    let value = ping(&mut state);
    assert_eq!(value.get("alive").unwrap().as_bool(), Some(false));
    assert_eq!(text(&value, "status"), "closed");
    assert_eq!(
        refused(ask(&mut state, WireRequest::Ping(status("s2")))),
        "session s2 not found"
    );
}

#[test]
fn resizing_is_noted_even_for_the_dead() {
    let mut state = ServerState::new(NOW);
    connect(&mut state, 7, false);
    let resize = || {
        WireRequest::Resize(ResizeCommand { session_id: "s1".to_string(), cols: 200, rows: 50 })
    };
    match ask(&mut state, resize()) {
        Step::Tell { command: SessionCmd::Resize { cols: 200, rows: 50 }, reply, .. } => {
            assert_eq!(number(&data(reply), "cols"), 200);
        }
        other => panic!("unexpected: {other:?}"),
    }
    state.on_channel_event("s1", ChannelEvent::Ended, NOW);
    assert_eq!(refused(ask(&mut state, resize())), "drain task dead");
    assert_eq!(state.sessions.get("s1").unwrap().rows, 50);
}

#[test]
fn signals_are_sent_in_upper_case() {
    let mut state = ServerState::new(NOW);
    connect(&mut state, 7, false);
    let request = WireRequest::Signal(SignalCommand {
        session_id: "s1".to_string(),
        signal: "int".to_string(),
    });
    match ask(&mut state, request) {
        Step::Tell { command: SessionCmd::Signal { signal }, reply, .. } => {
            assert_eq!(signal, "INT");
            assert_eq!(text(&data(reply), "signal"), "INT");
        }
        other => panic!("unexpected: {other:?}"),
    }
    match daemon_signal_as_is("s1", "usr1".to_string(), &state) {
        Ok((SessionCmd::Signal { signal }, _)) => assert_eq!(signal, "usr1"),
        other => panic!("unexpected: {other:?}"),
    }
}

fn exec_request(detach: bool) -> WireRequest {
    WireRequest::Exec(SessionExecCommand {
        session_id: "s1".to_string(),
        command: vec!["uname".to_string(), "-a".to_string()],
        timeout: 60_000,
        detach,
    })
}

#[test]
fn commands_run_on_the_connection_of_a_session() {
    let mut state = ServerState::new(NOW);
    assert_eq!(refused(ask(&mut state, exec_request(false))), "session s1 not found");
    connect(&mut state, 7, false);
    match ask(&mut state, exec_request(false)) {
        Step::Exec { handle, command, timeout_ms } => {
            assert_eq!((handle, command.as_str(), timeout_ms), (7, "uname -a", 60_000));
        }
        other => panic!("unexpected: {other:?}"),
    }
    let output = ExecOutput { stdout: "Linux\n".into(), stderr: String::new(), exit_code: -1 };
    let value = data(finish_exec(Ok(output)));
    assert_eq!(value.get("exit_code"), Some(&Json::Int(-1)));
    assert_eq!(text(&value, "stdout"), "Linux\n");
    let timed_out = finish_exec(Err(Error::CommandTimedOut(60_000)));
    assert_eq!(timed_out.error.as_deref(), Some("command timed out after 60000ms"));
}

#[test]
fn detached_commands_are_typed_and_not_waited_for() {
    let mut state = ServerState::new(NOW);
    connect(&mut state, 7, false);
    match ask(&mut state, exec_request(true)) {
        Step::Tell { command: SessionCmd::Send { data: bytes }, reply, .. } => {
            assert_eq!(bytes, b"uname -a\n");
            assert_eq!(text(&data(reply), "status"), "dispatched");
        }
        other => panic!("unexpected: {other:?}"),
    }
}

fn read_command(offset: Option<usize>, limit: usize, raw: bool) -> ReadCommand {
    ReadCommand {
        session_id: "s1".to_string(),
        offset,
        limit,
        wait_ms: 0,
        follow: false,
        raw,
        strip_ansi: false,
        timeout: None,
    }
}

fn page(state: &mut ServerState, offset: Option<usize>, limit: usize, raw: bool) -> String {
    let value = data(state.finish_read(read_command(offset, limit, raw)));
    text(value.get("output").unwrap(), "text")
}

#[test]
fn output_is_read_once() {
    let mut state = ServerState::new(NOW);
    connect(&mut state, 7, false);
    assert!(matches!(
        ask(&mut state, WireRequest::Read(read_command(None, 10, false))),
        Step::Read(_)
    ));
    state.on_channel_event("s1", ChannelEvent::Data(b"\x1b[1mhello world".to_vec()), NOW);
    assert_eq!(page(&mut state, None, 9, false), "hello");
    assert_eq!(page(&mut state, None, 100, true), " world");
    assert_eq!(page(&mut state, Some(0), 100, true), "");
    let missing = state.finish_read(ReadCommand {
        session_id: "s2".to_string(),
        ..read_command(None, 1, false)
    });
    assert_eq!(missing.error.as_deref(), Some("session s2 not found"));
}

fn send_command(expect: Option<&str>, respond: Option<&str>, exit: bool) -> SessionInputCommand {
    SessionInputCommand {
        session_id: "s1".to_string(),
        input: "sudo ls\n".to_string(),
        crlf: true,
        wait_ms: 250,
        limit: 8000,
        raw: false,
        strip_ansi: false,
        wait_for_exit: exit,
        timeout: None,
        expect: expect.map(|s| s.to_string()),
        respond: respond.map(|s| s.to_string()),
        expect2: None,
        respond2: None,
        expect3: None,
        respond3: None,
    }
}

fn begin(state: &mut ServerState, command: SessionInputCommand) -> PendingSend {
    match ask(state, WireRequest::Send(command)) {
        Step::Send { command: SessionCmd::Send { data }, wait_ms, pending } => {
            assert_eq!((data.as_slice(), wait_ms), (&b"sudo ls\r\n"[..], 250));
            pending
        }
        other => panic!("unexpected: {other:?}"),
    }
}

#[test]
fn input_is_sent_and_answered_with_what_is_new() {
    let mut state = ServerState::new(NOW);
    connect(&mut state, 7, false);
    let mut pending = begin(&mut state, send_command(None, None, false));
    state.on_channel_event("s1", ChannelEvent::Data(b"file.txt\r\n".to_vec()), NOW);
    match state.poll_send(&mut pending, 0) {
        SendStep::Reply(reply) => {
            let value = data(reply);
            assert_eq!(text(value.get("output").unwrap(), "text"), "file.txt\r\n");
            assert_eq!(text(&value, "status"), "running");
            assert_eq!(value.get("exit_status"), Some(&Json::Null));
        }
        other => panic!("unexpected: {other:?}"),
    }
    assert_eq!(page(&mut state, None, 100, false), "");
}

#[test]
fn an_answer_keeps_to_the_limit_of_its_request() {
    let mut state = ServerState::new(NOW);
    connect(&mut state, 7, false);
    let command = SessionInputCommand { limit: 4, ..send_command(None, None, false) };
    let mut pending = begin(&mut state, command);
    state.on_channel_event("s1", ChannelEvent::Data(b"file.txt".to_vec()), NOW);
    match state.poll_send(&mut pending, 0) {
        SendStep::Reply(reply) => {
            assert_eq!(text(data(reply).get("output").unwrap(), "text"), "file");
        }
        other => panic!("unexpected: {other:?}"),
    }
    assert_eq!(page(&mut state, None, 100, false), ".txt");
}

#[test]
fn patterns_are_awaited_and_answered() {
    let mut state = ServerState::new(NOW);
    connect(&mut state, 7, false);
    let mut pending =
        begin(&mut state, send_command(Some("[sudo] password"), Some("secret\n"), true));
    assert!(matches!(state.poll_send(&mut pending, 0), SendStep::Sleep(100)));
    state.on_channel_event("s1", ChannelEvent::Data(b"[sudo] password for u:".to_vec()), NOW);
    match state.poll_send(&mut pending, 29_999) {
        SendStep::Respond(SessionCmd::Send { data }) => assert_eq!(data, b"secret\r\n"),
        other => panic!("unexpected: {other:?}"),
    }
    assert!(matches!(state.poll_send(&mut pending, 0), SendStep::Restart));
    assert!(matches!(state.poll_send(&mut pending, 59_999), SendStep::Sleep(100)));
    state.on_channel_event("s1", ChannelEvent::ExitStatus(0), NOW);
    match state.poll_send(&mut pending, 100) {
        SendStep::Reply(reply) => assert_eq!(text(&data(reply), "status"), "exited"),
        other => panic!("unexpected: {other:?}"),
    }
}

#[test]
fn patterns_that_do_not_turn_up_are_given_up() {
    let mut state = ServerState::new(NOW);
    connect(&mut state, 7, false);
    let mut pending = begin(&mut state, send_command(Some("never"), Some("x"), false));
    match state.poll_send(&mut pending, 30_000) {
        SendStep::Reply(reply) => assert_eq!(
            reply.error.as_deref(),
            Some("timeout waiting for expect pattern: never")
        ),
        other => panic!("unexpected: {other:?}"),
    }
    assert!(matches!(
        state.poll_send_given(&mut pending, true, 30_000),
        SendStep::Respond(_)
    ));
    let mut waiting = begin(&mut state, send_command(None, None, true));
    assert!(matches!(state.poll_send(&mut waiting, 0), SendStep::Restart));
    assert!(matches!(state.poll_send(&mut waiting, 60_000), SendStep::Reply(_)));
}

#[test]
fn closed_sessions_answer_those_who_wait() {
    let mut state = ServerState::new(NOW);
    connect(&mut state, 7, false);
    let mut pending = begin(&mut state, send_command(Some("ready"), Some("x"), false));
    close(&mut state, "s1");
    assert!(matches!(state.poll_send(&mut pending, 0), SendStep::Sleep(_)));
    state.on_channel_event("s1", ChannelEvent::Data(b"ready".to_vec()), NOW);
    state.on_session_command("s1", Some(SessionCmd::Close));
    match state.poll_send(&mut pending, 0) {
        SendStep::Reply(reply) => assert_eq!(reply.error.as_deref(), Some("drain task dead")),
        other => panic!("unexpected: {other:?}"),
    }
    state.forget("s1");
    match state.poll_send(&mut pending, 0) {
        SendStep::Reply(reply) => assert_eq!(reply.error.as_deref(), Some("session s1 not found")),
        other => panic!("unexpected: {other:?}"),
    }
    assert!(!state.on_channel_event("s1", ChannelEvent::Other, NOW));
}

#[test]
fn input_that_cannot_be_sent_is_refused() {
    let mut state = ServerState::new(NOW);
    let incomplete = || WireRequest::Send(send_command(Some("password"), None, false));
    assert_eq!(
        refused(ask(&mut state, incomplete())),
        "--expect requires matching --respond"
    );
    let complete = || WireRequest::Send(send_command(None, None, false));
    assert_eq!(refused(ask(&mut state, complete())), "session s1 not found");
    connect(&mut state, 7, false);
    state.on_session_send_failed("s1", "broken pipe".to_string());
    assert_eq!(refused(ask(&mut state, complete())), "drain task dead");
    assert_eq!(
        state.sessions.get("s1").unwrap().cell.status,
        SessionStatus::Error("broken pipe".to_string())
    );
}

fn read_file(session_id: Option<&str>) -> WireRequest {
    WireRequest::ReadFile(ReadFileCommand {
        connect: ConnectArgs::default(),
        session_id: session_id.map(|s| s.to_string()),
        remote: "/etc/hosts".to_string(),
    })
}

#[test]
fn files_are_reached_through_a_session() {
    let mut state = ServerState::new(NOW);
    assert_eq!(
        refused(ask(&mut state, read_file(None))),
        "session-id required for daemon file operations"
    );
    assert_eq!(refused(ask(&mut state, read_file(Some("s1")))), "session s1 not found");
    connect(&mut state, 7, false);
    match ask(&mut state, read_file(Some("s1"))) {
        Step::File { handle: 7, request: FileOnce::Read(command) } => {
            assert_eq!(command.remote, "/etc/hosts");
        }
        other => panic!("unexpected: {other:?}"),
    }
    assert!(finish_file(Ok(Json::Null)).ok);
    assert_eq!(
        finish_file(Err(Error::Outside("no such file".to_string()))).error.as_deref(),
        Some("no such file")
    );
}

fn proxy_request(socks5: Option<&str>, connect: ConnectArgs) -> WireRequest {
    WireRequest::ProxyCreate(ProxyCreateCommand {
        connect,
        local: None,
        remote: None,
        socks5: socks5.map(|s| s.to_string()),
        name: None,
    })
}

fn named_request(name: &str) -> WireRequest {
    WireRequest::ProxyCreate(ProxyCreateCommand {
        connect: args(),
        local: Some("127.0.0.1:5432".to_string()),
        remote: Some("127.0.0.1:5432".to_string()),
        socks5: None,
        name: Some(name.to_string()),
    })
}

fn pending_named(state: &mut ServerState, name: &str) -> PendingProxy {
    match ask(state, named_request(name)) {
        Step::Proxy(pending) => pending,
        other => panic!("unexpected: {other:?}"),
    }
}

#[test]
fn a_proxy_goes_by_its_name() {
    let mut state = ServerState::new(NOW);
    let pending = pending_named(&mut state, "pg-tunnel");
    let late = pending_named(&mut state, "pg-tunnel");
    let value = data(state.finish_proxy(pending, Ok(1)));
    assert_eq!(text(&value, "proxy_id"), "pg-tunnel");
    assert_eq!(text(&value, "connection_id"), "c1");
    let refusal = state.finish_proxy(late, Ok(2));
    assert_eq!(refusal.error.as_deref(), Some("proxy pg-tunnel already exists"));
    assert_eq!(state.connections.len(), 1);
    assert_eq!(
        refused(ask(&mut state, named_request("pg-tunnel"))),
        "proxy pg-tunnel already exists"
    );
    assert_eq!(refused(ask(&mut state, named_request("p1"))), "proxy name p1 is reserved");
    assert_eq!(pending_named(&mut state, "p").proxy_id, "p");
    assert_eq!(pending_named(&mut state, "p1a").proxy_id, "p1a");
    assert_eq!(proxy(&mut state, 3), "p1");
    assert_eq!(close_proxies(&mut state, Some("pg-tunnel"), false), ["pg-tunnel"]);
    assert_eq!(pending_named(&mut state, "pg-tunnel").proxy_id, "pg-tunnel");
}

fn proxy(state: &mut ServerState, handle: u64) -> String {
    match ask(state, proxy_request(Some("127.0.0.1:1080"), args())) {
        Step::Proxy(pending) => {
            let value = data(state.finish_proxy(pending, Ok(handle)));
            assert_eq!(text(&value, "local_addr"), "127.0.0.1:1080");
            text(&value, "proxy_id")
        }
        other => panic!("unexpected: {other:?}"),
    }
}

fn close_proxies(state: &mut ServerState, id: Option<&str>, all: bool) -> Vec<String> {
    let request =
        WireRequest::ProxyClose(ProxyCloseCommand { proxy_id: id.map(|s| s.to_string()), all });
    match ask(state, request) {
        Step::StopProxies { proxies, reply } => {
            let listed = data(reply);
            assert_eq!(listed.get("closed").unwrap().as_array().unwrap().len(), proxies.len());
            proxies
        }
        other => panic!("unexpected: {other:?}"),
    }
}

#[test]
fn proxies_come_and_go_with_their_connections() {
    let mut state = ServerState::new(NOW);
    assert_eq!(
        refused(ask(&mut state, proxy_request(None, args()))),
        "specify --local + --remote for port forwarding, or --socks5 for SOCKS5 proxy"
    );
    assert_eq!(proxy(&mut state, 1), "p1");
    assert_eq!(proxy(&mut state, 2), "p2");
    assert_eq!(connect(&mut state, 3, false), "s3");
    assert_eq!(state.connections.len(), 3);
    state.set_proxy_status("p1", ProxyStatus::Error("bind failed".to_string()));
    let ping = WireRequest::ProxyPing(ProxyPingCommand { proxy_id: "p1".to_string() });
    assert_eq!(text(&data(answered(ask(&mut state, ping))), "status"), "bind failed");
    let list = data(answered(ask(&mut state, WireRequest::ProxyList)));
    assert_eq!(list.get("proxies").unwrap().as_array().unwrap().len(), 2);
    assert_eq!(close_proxies(&mut state, Some("p9"), false), Vec::<String>::new());
    assert_eq!(close_proxies(&mut state, Some("p2"), false), vec!["p2"]);
    assert_eq!(state.connections.len(), 2);
    assert_eq!(close_proxies(&mut state, None, true), vec!["p1"]);
    assert_eq!(state.connections.len(), 1);
    assert_eq!(close_proxies(&mut state, None, false), Vec::<String>::new());
}

#[test]
fn failed_proxies_leave_nothing() {
    let mut state = ServerState::new(NOW);
    match ask(&mut state, proxy_request(Some("nowhere"), args())) {
        Step::Proxy(pending) => {
            let reply = state
                .finish_proxy(pending, Err(Error::Outside("binding to nowhere".to_string())));
            assert_eq!(reply.error.as_deref(), Some("binding to nowhere"));
        }
        other => panic!("unexpected: {other:?}"),
    }
    assert_eq!((state.proxies.len(), state.connections.len()), (0, 0));
    let ping = WireRequest::ProxyPing(ProxyPingCommand { proxy_id: "p1".to_string() });
    assert_eq!(refused(ask(&mut state, ping)), "proxy p1 not found");
}

#[test]
fn heartbeat_marks_and_revives() {
    let mut state = ServerState::new(NOW);
    connect(&mut state, 7, true);
    connect(&mut state, 8, false);
    let check = state.heartbeat_check("s1");
    assert!(!check.marked && check.reconnect.is_none());
    for id in ["s1", "s2"] {
        assert!(matches!(state.on_session_command(id, None), (DrainAction::Nothing, false)));
    }
    let check = state.heartbeat_check("s1");
    assert!(check.marked);
    let target = check.reconnect.expect("asks for it");
    assert_eq!((target.session_id.as_str(), target.connection_id.as_str()), ("s1", "c1"));
    assert_eq!((target.cols, target.rows), (100, 30));
    let other = state.heartbeat_check("s2");
    assert!(other.marked && other.reconnect.is_none());
    state.heartbeat_reconnected(&target, 99);
    assert_eq!(state.connections.get("c1").unwrap().handle, 99);
    let cell = &state.sessions.get("s1").unwrap().cell;
    assert_eq!((&cell.status, cell.drain_dead), (&SessionStatus::Running, false));
    assert!(page(&mut state, None, 100, false).contains("[AgentSSH]"));
    assert!(!state.heartbeat_check("s9").marked);
    assert_eq!(state.session_ids(), vec!["s1", "s2"]);
}

#[test]
fn daemon_says_what_it_holds() {
    let mut state = ServerState::new(NOW - 600_500);
    connect(&mut state, 7, false);
    proxy(&mut state, 8);
    let value = data(answered(ask(&mut state, WireRequest::DaemonStatus)));
    assert_eq!(value.get("running").unwrap().as_bool(), Some(true));
    assert_eq!(number(&value, "pid"), 4242);
    assert_eq!(number(&value, "uptime_seconds"), 600);
    assert_eq!(number(&value, "sessions"), 1);
    assert_eq!(number(&value, "connections"), 2);
    assert_eq!(number(&value, "proxies"), 1);
    assert!(matches!(ask(&mut state, WireRequest::Shutdown), Step::Shutdown(_)));
}

fn granted(value: Json) -> WireResponse {
    WireResponse { ok: true, data: Some(value), error: None }
}

fn object(fields: Vec<(&str, Json)>) -> Json {
    Json::Object(fields.into_iter().map(|(k, v)| (k.to_string(), v)).collect())
}

#[test]
fn answers_are_printed() {
    let output = || object(vec![("output", object(vec![("text", Json::text("hi"))]))]);
    let plain = run_client(granted(output()), false);
    assert_eq!(plain.stdout, vec![Printout::Raw("hi".to_string())]);
    let json = run_client(granted(output()), true);
    assert!(matches!(&json.stdout[0], Printout::Pretty(v) if v.get("data").is_some()));
    let ran = object(vec![
        ("stdout", Json::text("")),
        ("stderr", Json::text("oops\n")),
        ("exit_code", Json::Int(3)),
    ]);
    let exec = run_client(granted(ran), false);
    assert!(exec.stdout.is_empty());
    assert_eq!((exec.stderr.as_str(), exec.exit_code), ("oops\n", 3));
    let file = run_client(granted(object(vec![("content", Json::text("text\n"))])), false);
    assert_eq!(file.stdout, vec![Printout::Raw("text\n".to_string())]);
    let other = run_client(granted(object(vec![("alive", Json::Bool(true))])), false);
    assert!(matches!(&other.stdout[0], Printout::Pretty(_)));
}

#[test]
fn refusals_and_empty_answers_are_printed() {
    let refusal =
        || WireResponse { ok: false, data: None, error: Some("session s1 not found".to_string()) };
    let plain = run_client(refusal(), false);
    assert_eq!((plain.stderr.as_str(), plain.exit_code), ("error: session s1 not found\n", 1));
    let json = run_client(refusal(), true);
    assert!(matches!(&json.stdout[0], Printout::Compact(v)
        if v.get("error").unwrap().as_str() == Some("session s1 not found")));
    assert_eq!(json.exit_code, 1);
    let empty = WireResponse { ok: true, data: None, error: None };
    assert!(run_client(empty, false).stdout.is_empty());
    let empty = WireResponse { ok: true, data: None, error: None };
    assert!(matches!(&run_client(empty, true).stdout[0], Printout::Compact(_)));
    let odd = WireResponse { ok: false, data: None, error: None };
    assert!(run_client(odd, true).stdout.is_empty());
}

fn running(word: &str, output: &str) -> WireResponse {
    granted(object(vec![
        ("status", Json::text(word)),
        ("output", object(vec![("text", Json::text(output))])),
    ]))
}

#[test]
fn following_goes_on_until_the_session_ends() {
    let command = ReadCommand { follow: true, timeout: Some(2000), ..read_command(Some(5), 9, true) };
    let mut follow = match run_read_command(command) {
        ReadPlan::Follow(follow) => follow,
        other => panic!("unexpected: {other:?}"),
    };
    let first = follow.request();
    assert_eq!((first.offset, first.limit, first.wait_ms), (Some(5), 9, 500));
    assert!(!first.follow && first.raw);
    let (printed, goes_on) = follow.on_response(running("running", "abc"), false, 2000);
    assert_eq!(printed.stdout, vec![Printout::Raw("abc".to_string())]);
    assert!(goes_on);
    assert_eq!(follow.request().offset, None);
    assert!(!follow.on_response(running("running", ""), false, 2001).1);
    let (printed, goes_on) = follow.on_response(running("exited", "end"), true, 10);
    assert!(matches!(&printed.stdout[0], Printout::Compact(_)) && !goes_on);
    let refusal = WireResponse { ok: false, data: None, error: Some("gone".to_string()) };
    let (printed, goes_on) = follow.on_response(refusal, false, 10);
    assert_eq!((printed.stderr.as_str(), printed.exit_code, goes_on), ("error: gone\n", 0, false));
    assert!(matches!(run_read_command(read_command(None, 1, false)), ReadPlan::Once(_)));
}

#[test]
fn daemon_is_waited_for_five_seconds() {
    assert_eq!(ensure_daemon(true, 9999).unwrap(), DaemonWait::Ready);
    assert_eq!(ensure_daemon(false, 5000).unwrap(), DaemonWait::Sleep(100));
    assert_eq!(
        ensure_daemon(false, 5001).unwrap_err().to_string(),
        "daemon did not start within 5 seconds"
    );
}

#[test]
fn absent_daemon_is_no_failure() {
    let plain = daemon_not_running(false);
    assert_eq!(plain.stdout, vec![Printout::Line("Daemon is not running".to_string())]);
    assert_eq!(plain.exit_code, 0);
    match &daemon_not_running(true).stdout[0] {
        Printout::Compact(value) => {
            assert_eq!(value.get("running").unwrap().as_bool(), Some(false));
        }
        other => panic!("unexpected: {other:?}"),
    }
}

#[test]
fn empty_lines_hold_no_request() {
    assert_eq!(request_line(" {\"action\":\"list\"}\r\n").as_deref(), Some("{\"action\":\"list\"}"));
    assert_eq!(request_line(" \t\n"), None);
}

#[test]
fn closing_undoes_opening() {
    let mut state = ServerState::new(NOW);
    connect(&mut state, 7, false);
    let second = spawn(&mut state, "s1");
    proxy(&mut state, 9);
    close(&mut state, &second);
    close_proxies(&mut state, None, true);
    assert_eq!(state.connections.keys(), vec!["c1"]);
    let left = state.connections.get("c1").unwrap();
    assert_eq!((left.handle, left.refcount), (7, 1));
    assert_eq!(state.session_ids(), vec!["s1"]);
    close(&mut state, "s1");
    assert_eq!(state.connections.len() + state.sessions.len() + state.proxies.len(), 0);
    assert_eq!(connect(&mut state, 1, false), "s4");
}

#[test]
fn siblings_name_each_other() {
    let mut state = ServerState::new(NOW);
    connect(&mut state, 7, false);
    spawn(&mut state, "s1");
    connect(&mut state, 8, false);
    for (id, others) in [("s1", vec!["s2"]), ("s2", vec!["s1"]), ("s3", vec![])] {
        let value = data(answered(ask(&mut state, WireRequest::Status(status(id)))));
        let siblings = value.get("session").unwrap().get("siblings").unwrap();
        let names: Vec<&str> =
            siblings.as_array().unwrap().iter().map(|s| s.as_str().unwrap()).collect();
        assert_eq!(names, others);
    }
}

#[test]
fn requests_about_missing_sessions_change_nothing() {
    let requests = vec![
        WireRequest::Close(status("s1")),
        WireRequest::Status(status("s1")),
        WireRequest::Ping(status("s1")),
        WireRequest::Send(send_command(None, None, false)),
        exec_request(false),
        exec_request(true),
        read_file(Some("s1")),
        WireRequest::Resize(ResizeCommand { session_id: "s1".to_string(), cols: 1, rows: 1 }),
        WireRequest::Signal(SignalCommand {
            session_id: "s1".to_string(),
            signal: "INT".to_string(),
        }),
    ];
    let mut state = ServerState::new(NOW);
    for request in requests {
        assert_eq!(refused(ask(&mut state, request)), "session s1 not found");
    }
    assert_eq!((state.next_id, state.next_connection_id), (1, 1));
}

#[test]
fn requests_without_ids_work_when_ids_run_out() {
    let mut state = ServerState::new(NOW);
    state.next_id = u64::MAX;
    state.next_connection_id = u64::MAX;
    let value = data(answered(ask(&mut state, WireRequest::List)));
    assert!(value.as_array().unwrap().is_empty());
    assert!(state.has_ids(&WireRequest::List));
    assert!(!state.has_ids(&proxy_request(None, args())));
    assert!(!state.has_ids(&named_request("tunnel")));
    state.next_connection_id = 7;
    assert!(!state.has_ids(&proxy_request(None, args())));
    assert!(state.has_ids(&named_request("tunnel")));
}

#[test]
fn a_dropped_session_is_opened_again_if_it_asks_for_it() {
    let mut state = ServerState::new(NOW);
    connect(&mut state, 7, true);
    connect(&mut state, 8, false);
    state.on_channel_event("s1", ChannelEvent::Data(b"kept".to_vec()), NOW);
    let ends = [("s1", SessionStatus::Disconnected), ("s2", SessionStatus::Closed)];
    for (id, status) in ends {
        assert!(!state.on_channel_event(id, ChannelEvent::Ended, NOW));
        let cell = &state.sessions.get(id).unwrap().cell;
        assert_eq!((&cell.status, cell.drain_dead), (&status, true));
    }
    assert!(state.heartbeat_check("s2").reconnect.is_none());
    let target = state.heartbeat_check("s1").reconnect.expect("asks for it");
    assert!(state.heartbeat_reconnected(&target, 9));
    let session = state.sessions.get("s1").unwrap();
    assert_eq!(session.connection_id, "c1");
    assert_eq!(session.cell.status, SessionStatus::Running);
    assert!(!session.cell.drain_dead);
    assert_eq!(state.connections.get("c1").unwrap().handle, 9);
    assert_eq!(state.connections.get("c2").unwrap().handle, 8);
    assert_eq!(
        page(&mut state, None, 100, true),
        "kept\r\n[AgentSSH] session reconnected\r\n"
    );
}

#[test]
fn a_session_closed_meanwhile_stays_closed() {
    let mut state = ServerState::new(NOW);
    connect(&mut state, 7, true);
    state.on_channel_event("s1", ChannelEvent::Ended, NOW);
    let target = state.heartbeat_check("s1").reconnect.expect("asks for it");
    assert!(state.remove_session("s1").is_ok());
    assert!(!state.heartbeat_reconnected(&target, 9));
    assert_eq!((state.sessions.len(), state.connections.len()), (0, 0));
    assert_eq!(state.session_cell("s1").unwrap().status, SessionStatus::Disconnected);
}

#[test]
fn reconnected_sessions_are_left_alone() {
    let mut state = ServerState::new(NOW);
    connect(&mut state, 7, true);
    state.on_session_command("s1", None);
    let target = state.heartbeat_check("s1").reconnect.unwrap();
    let again = state.heartbeat_check("s1");
    assert!(!again.marked && again.reconnect.is_some());
    state.heartbeat_reconnected(&target, 8);
    let alive = state.heartbeat_check("s1");
    assert!(!alive.marked && alive.reconnect.is_none());
    state.on_channel_event("s1", ChannelEvent::ExitStatus(0), NOW);
    state.on_channel_event("s1", ChannelEvent::Close, NOW);
    let exited = state.heartbeat_check("s1");
    assert!(!exited.marked && exited.reconnect.is_none());
    assert_eq!(state.sessions.get("s1").unwrap().cell.status, SessionStatus::Exited);
}
