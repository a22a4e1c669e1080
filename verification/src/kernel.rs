//! How the daemon answers requests.
//!
//! A request is answered at once, or it leads to a step that has to be taken
//! outside of this library: a connection to open, a file to transfer, a time to
//! wait. Such a step comes with all that is needed to take it, and its outcome
//! is handed back to finish the request.

use crate::cli::{
    pairs_of, ConnectArgs, ConnectCommand, ConnectView, FileOnce, ProxyCloseCommand,
    ProxyCreateCommand, ReadCommand, SessionExecCommand, SpawnCommand,
};
use crate::connection::{prepare_connect, prepared, ConnectTarget, TargetView};
use crate::daemon::{
    close_answer, daemon_close, daemon_list, daemon_ping, daemon_read, daemon_resize,
    daemon_signal, daemon_status, ping_answer, read_answer, reading_keeps_consistency,
    resize_answer, session_list, signal_answer, status_answer,
};
use crate::error::Error;
use crate::exec::ExecOutput;
use crate::interactive::first_incomplete;
use crate::json::{lemma_items, Fields, Json, JsonValue};
use crate::number::decimal;
use crate::profile::ProfileStore;
use crate::protocol::{err, granted, ok, refused, ResponseView, WireRequest, WireResponse};
use crate::proxy::{
    given, listed_proxies, mode_asked, proxy_list, proxy_mode_from_command, proxy_ping, ModeView,
    ProxyMode, ProxyState, ProxyStatus, ProxyStatusView, ProxyView,
};
use crate::send::{
    begin_send, polling_keeps_consistency, send_begun, send_polled, PendingSend, SendView,
};
use crate::session::{
    summary_json, text_list, CellView, CommandView, SessionCell, SessionCmd, SessionHandle,
    SessionView,
};
use crate::sorted::{in_order, lemma_in_order, viewed, SortedMap};
use crate::state::{
    changed_session_keeps_consistency, closed_proxy_keeps_consistency,
    closed_session_keeps_consistency, connected_session_keeps_consistency, ids_are_numbered,
    is_numbered, issuing_keeps_consistency, lemma_issued, looks_numbered,
    new_proxy_keeps_consistency, next_ids_are_fresh, numbered, spawned_session_keeps_consistency,
    suits_proxy, ServerState, ServerView,
};
use crate::text::{cat2, join, joined, text_of, texts, uppercase_text};
use vstd::prelude::*;
use vstd::string::*;
use vstd::utf8::encode_utf8;

verus! {

// ---------------------------------------------------------------------------
// Steps
// ---------------------------------------------------------------------------

/// A session that waits for its connection.
#[derive(Debug)]
pub struct PendingConnect {
    pub session_id: String,
    pub connection_id: String,
    pub args: ConnectArgs,
    pub target: ConnectTarget,
    pub cols: u32,
    pub rows: u32,
    pub reconnect: bool,
}

/// What a [`PendingConnect`] says.
pub struct PendingConnectView {
    pub session_id: Seq<char>,
    pub connection_id: Seq<char>,
    pub args: ConnectView,
    pub target: TargetView,
    pub cols: u32,
    pub rows: u32,
    pub reconnect: bool,
}

impl View for PendingConnect {
    type V = PendingConnectView;

    open spec fn view(&self) -> PendingConnectView {
        PendingConnectView {
            session_id: self.session_id@,
            connection_id: self.connection_id@,
            args: self.args@,
            target: self.target@,
            cols: self.cols,
            rows: self.rows,
            reconnect: self.reconnect,
        }
    }
}

/// A session that waits for its channel on a connection that there is.
#[derive(Debug)]
pub struct PendingSpawn {
    pub session_id: String,
    pub connection_id: String,
    /// By which the connection is found.
    pub handle: u64,
    pub args: ConnectArgs,
    pub target: ConnectTarget,
    pub cols: u32,
    pub rows: u32,
}

/// What a [`PendingSpawn`] says.
pub struct PendingSpawnView {
    pub session_id: Seq<char>,
    pub connection_id: Seq<char>,
    pub handle: u64,
    pub args: ConnectView,
    pub target: TargetView,
    pub cols: u32,
    pub rows: u32,
}

impl View for PendingSpawn {
    type V = PendingSpawnView;

    open spec fn view(&self) -> PendingSpawnView {
        PendingSpawnView {
            session_id: self.session_id@,
            connection_id: self.connection_id@,
            handle: self.handle,
            args: self.args@,
            target: self.target@,
            cols: self.cols,
            rows: self.rows,
        }
    }
}

/// A proxy that waits for its connection and its listener.
#[derive(Debug)]
pub struct PendingProxy {
    pub proxy_id: String,
    pub connection_id: String,
    pub args: ConnectArgs,
    pub target: ConnectTarget,
    pub mode: ProxyMode,
}

/// What a [`PendingProxy`] says.
pub struct PendingProxyView {
    pub proxy_id: Seq<char>,
    pub connection_id: Seq<char>,
    pub args: ConnectView,
    pub target: TargetView,
    pub mode: ModeView,
}

impl View for PendingProxy {
    type V = PendingProxyView;

    open spec fn view(&self) -> PendingProxyView {
        PendingProxyView {
            proxy_id: self.proxy_id@,
            connection_id: self.connection_id@,
            args: self.args@,
            target: self.target@,
            mode: self.mode@,
        }
    }
}

/// What the daemon does about a request.
#[derive(Debug)]
pub enum Step {
    /// Answer.
    Reply(WireResponse),
    /// Pass a command to the task of a session, and answer.
    Tell { session_id: String, command: SessionCmd, reply: WireResponse },
    /// Connect and open a terminal, then [`ServerState::finish_connect`].
    Connect(PendingConnect),
    /// Open a terminal, then [`ServerState::finish_spawn`].
    Spawn(PendingSpawn),
    /// Run a command on the connection, then [`finish_exec`].
    Exec { handle: u64, command: String, timeout_ms: u64 },
    /// Pass a command to the task of a session and wait so long, then
    /// [`ServerState::poll_send`].
    Send { command: SessionCmd, wait_ms: u64, pending: PendingSend },
    /// Wait as long as the request says, then [`ServerState::finish_read`].
    Read(ReadCommand),
    /// Carry out a file command on the connection, then [`finish_file`].
    File { handle: u64, request: FileOnce },
    /// Connect and listen, then [`ServerState::finish_proxy`].
    Proxy(PendingProxy),
    /// Stop the listeners of proxies, and answer.
    StopProxies { proxies: Vec<String>, reply: WireResponse },
    /// Answer, and stop.
    Shutdown(WireResponse),
}

/// What a [`Step`] says.
pub enum StepView {
    Reply(ResponseView),
    Tell { session_id: Seq<char>, command: CommandView, reply: ResponseView },
    Connect(PendingConnectView),
    Spawn(PendingSpawnView),
    Exec { handle: u64, command: Seq<char>, timeout_ms: u64 },
    Send { command: CommandView, wait_ms: u64, pending: SendView },
    Read(ReadCommand),
    File { handle: u64, request: FileOnce },
    Proxy(PendingProxyView),
    StopProxies { proxies: Seq<Seq<char>>, reply: ResponseView },
    Shutdown(ResponseView),
}

impl View for Step {
    type V = StepView;

    open spec fn view(&self) -> StepView {
        match self {
            Step::Reply(reply) => StepView::Reply(reply@),
            Step::Tell { session_id, command, reply } => StepView::Tell {
                session_id: session_id@,
                command: command@,
                reply: reply@,
            },
            Step::Connect(pending) => StepView::Connect(pending@),
            Step::Spawn(pending) => StepView::Spawn(pending@),
            Step::Exec { handle, command, timeout_ms } => StepView::Exec {
                handle: *handle,
                command: command@,
                timeout_ms: *timeout_ms,
            },
            Step::Send { command, wait_ms, pending } => StepView::Send {
                command: command@,
                wait_ms: *wait_ms,
                pending: pending@,
            },
            Step::Read(request) => StepView::Read(*request),
            Step::File { handle, request } => StepView::File { handle: *handle, request: *request },
            Step::Proxy(pending) => StepView::Proxy(pending@),
            Step::StopProxies { proxies, reply } => StepView::StopProxies {
                proxies: texts(proxies@),
                reply: reply@,
            },
            Step::Shutdown(reply) => StepView::Shutdown(reply@),
        }
    }
}

/// The step that refuses a request.
pub open spec fn refusal(message: Seq<char>) -> StepView {
    StepView::Reply(refused(message))
}

/// The message that there is no such session.
pub open spec fn session_missing(id: Seq<char>) -> Seq<char> {
    "session "@ + id + " not found"@
}

/// The message that there is no such connection.
pub open spec fn connection_missing(id: Seq<char>) -> Seq<char> {
    "connection "@ + id + " not found"@
}

/// The message that there is no such proxy.
pub open spec fn proxy_missing(id: Seq<char>) -> Seq<char> {
    "proxy "@ + id + " not found"@
}

/// The connection of the session `id`, or the message why there is none.
pub open spec fn handle_of(v: ServerView, id: Seq<char>) -> Result<u64, Seq<char>> {
    if !v.sessions.contains_key(id) {
        Err(session_missing(id))
    } else {
        let c = v.sessions[id].connection_id;
        if !v.connections.contains_key(c) {
            Err(connection_missing(c))
        } else {
            Ok(v.connections[c].handle)
        }
    }
}

fn session_handle(state: &ServerState, session_id: &str) -> (r: Result<u64, Error>)
    ensures
        match r {
            Ok(handle) => handle_of(state@, session_id@) == Ok::<u64, Seq<char>>(handle),
            Err(e) => handle_of(state@, session_id@) == Err::<u64, Seq<char>>(e.text()),
        },
{
    match state.sessions.get(session_id) {
        None => Err(Error::SessionNotFound(session_id.to_owned())),
        Some(session) => match state.connections.get(session.connection_id.as_str()) {
            None => Err(Error::ConnectionNotFound(session.connection_id.clone())),
            Some(connection) => Ok(connection.handle),
        },
    }
}

// ---------------------------------------------------------------------------
// Connect
// ---------------------------------------------------------------------------

/// What the daemon does about a request for a session on a connection of its
/// own. Ids are issued even where the request is then refused.
pub open spec fn connect_begun(
    v: ServerView,
    cmd: ConnectCommand,
    profiles: Result<ProfileStore, Error>,
) -> (StepView, ServerView) {
    let step = match prepared(cmd.connect@, profiles) {
        Err(message) => refusal(message),
        Ok((args, target)) => StepView::Connect(
            PendingConnectView {
                session_id: numbered("s"@, v.next_id as int),
                connection_id: numbered("c"@, v.next_connection_id as int),
                args,
                target,
                cols: cmd.cols,
                rows: cmd.rows,
                reconnect: cmd.reconnect,
            },
        ),
    };
    (
        step,
        ServerView {
            next_id: (v.next_id + 1) as u64,
            next_connection_id: (v.next_connection_id + 1) as u64,
            ..v
        },
    )
}

/// The answer to a request for a session.
pub open spec fn session_answer(s: SessionView) -> JsonValue {
    JsonValue::Object(
        seq![
            ("ok"@, JsonValue::Bool(true)),
            ("session_id"@, JsonValue::Text(s.id)),
            ("connection_id"@, JsonValue::Text(s.connection_id)),
            ("session"@, summary_json(s, Map::empty())),
        ],
    )
}

/// The session that has got its connection.
pub open spec fn connected_session(p: PendingConnectView, now: u64) -> SessionView {
    SessionView {
        id: p.session_id,
        connection_id: p.connection_id,
        host: p.target.host,
        port: p.target.port,
        username: p.target.username,
        cols: p.cols,
        rows: p.rows,
        reconnect: p.reconnect,
        connect_args: p.args,
        created_at: now,
        cell: CellView::opened(now),
    }
}

/// What a request for a session is answered when its connection was made, or was
/// not; and the state after it.
pub open spec fn connect_finished(
    v: ServerView,
    p: PendingConnectView,
    outcome: Result<u64, Error>,
    now: u64,
) -> (ResponseView, ServerView) {
    match outcome {
        Err(e) => (refused(e.text()), v),
        Ok(handle) => {
            let s = connected_session(p, now);
            (granted(session_answer(s)), v.with_connected(handle, s))
        },
    }
}

/// What a request for a session on the connection of another is answered when
/// its channel was opened, or was not; and the state after it.
pub open spec fn spawn_finished(
    v: ServerView,
    p: PendingSpawnView,
    outcome: Result<(), Error>,
    now: u64,
) -> (ResponseView, ServerView) {
    match outcome {
        Err(e) => (refused(e.text()), v),
        Ok(_) => if v.connections.contains_key(p.connection_id) {
            let s = spawned_session(p, now);
            (granted(session_answer(s)), v.with_spawned(s))
        } else {
            (refused(connection_missing(p.connection_id)), v)
        },
    }
}

/// The session that has got its channel.
pub open spec fn spawned_session(p: PendingSpawnView, now: u64) -> SessionView {
    SessionView {
        id: p.session_id,
        connection_id: p.connection_id,
        host: p.target.host,
        port: p.target.port,
        username: p.target.username,
        cols: p.cols,
        rows: p.rows,
        reconnect: false,
        connect_args: p.args,
        created_at: now,
        cell: CellView::opened(now),
    }
}

fn session_reply(session: &SessionHandle) -> (r: WireResponse)
    ensures
        r@ == granted(session_answer(session@)),
{
    let none: SortedMap<SessionHandle> = SortedMap::new();
    assert(viewed(none@) =~= Map::<Seq<char>, SessionView>::empty());
    let mut f = Fields::new();
    f.put_bool("ok", true);
    f.put_text("session_id", session.id.as_str());
    f.put_text("connection_id", session.connection_id.as_str());
    f.put("session", session.summary(&none));
    let answer = f.object();
    assert(answer@->Object_0 =~= session_answer(session@)->Object_0);
    ok(answer)
}

impl ServerState {
    fn begin_connect(
        &mut self,
        cmd: ConnectCommand,
        profiles: &Result<ProfileStore, Error>,
    ) -> (step: Step)
        requires
            old(self).next_id < u64::MAX,
            old(self).next_connection_id < u64::MAX,
        ensures
            (step@, final(self)@) == connect_begun(old(self)@, cmd, *profiles),
            old(self)@.consistent() ==> final(self)@.consistent(),
            old(self)@.consistent() ==> (step@ matches StepView::Connect(p)
                ==> final(self)@.expects_session(p.session_id)
                && final(self)@.expects_connection(p.connection_id)),
    {
        let connection_id = self.issue_connection_id();
        let session_id = self.issue_session_id();
        match prepare_connect(&cmd.connect, profiles) {
            Err(e) => Step::Reply(err(e)),
            Ok((args, target)) => Step::Connect(
                PendingConnect {
                    session_id,
                    connection_id,
                    args,
                    target,
                    cols: cmd.cols,
                    rows: cmd.rows,
                    reconnect: cmd.reconnect,
                },
            ),
        }
    }

    /// Finishes a request for a session on a connection of its own: with the
    /// connection, under which it is found again, or with what went wrong.
    pub fn finish_connect(
        &mut self,
        pending: PendingConnect,
        outcome: Result<u64, Error>,
        now: u64,
    ) -> (r: WireResponse)
        ensures
            (r@, final(self)@) == connect_finished(old(self)@, pending@, outcome, now),
            old(self)@.consistent() && old(self)@.expects_session(pending@.session_id)
                && old(self)@.expects_connection(pending@.connection_id)
                ==> final(self)@.consistent(),
    {
        match outcome {
            Err(e) => err(e),
            Ok(handle) => {
                let session = SessionHandle {
                    id: pending.session_id,
                    connection_id: pending.connection_id,
                    host: pending.target.host,
                    port: pending.target.port,
                    username: pending.target.username,
                    cols: pending.cols,
                    rows: pending.rows,
                    reconnect: pending.reconnect,
                    connect_args: pending.args,
                    created_at: now,
                    cell: SessionCell::new(now),
                };
                let reply = session_reply(&session);
                self.add_connected(handle, session);
                reply
            },
        }
    }
}

// ---------------------------------------------------------------------------
// Spawn
// ---------------------------------------------------------------------------

/// What the daemon does about a request for a session on the connection of
/// another.
pub open spec fn spawn_begun(v: ServerView, cmd: SpawnCommand) -> (StepView, ServerView) {
    match handle_of(v, cmd.from@) {
        Err(message) => (refusal(message), v),
        Ok(handle) => {
            let source = v.sessions[cmd.from@];
            (
                StepView::Spawn(
                    PendingSpawnView {
                        session_id: numbered("s"@, v.next_id as int),
                        connection_id: source.connection_id,
                        handle,
                        args: source.connect_args,
                        target: TargetView {
                            host: source.host,
                            port: source.port,
                            username: source.username,
                        },
                        cols: cmd.cols,
                        rows: cmd.rows,
                    },
                ),
                ServerView { next_id: (v.next_id + 1) as u64, ..v },
            )
        },
    }
}

impl ServerState {
    fn begin_spawn(&mut self, cmd: SpawnCommand) -> (step: Step)
        requires
            old(self).next_id < u64::MAX,
        ensures
            (step@, final(self)@) == spawn_begun(old(self)@, cmd),
            old(self)@.consistent() ==> final(self)@.consistent(),
            old(self)@.consistent() ==> (step@ matches StepView::Spawn(p)
                ==> final(self)@.expects_session(p.session_id)),
    {
        let handle: u64 = match session_handle(self, cmd.from.as_str()) {
            Ok(handle) => handle,
            Err(e) => return Step::Reply(err(e)),
        };
        match self.sessions.get(cmd.from.as_str()) {
            None => Step::Reply(err(Error::SessionNotFound(cmd.from))),
            Some(source) => {
                let connection_id = source.connection_id.clone();
                let args = source.connect_args.clone();
                let target = ConnectTarget {
                    host: source.host.clone(),
                    port: source.port,
                    username: source.username.clone(),
                };
                let session_id = self.issue_session_id();
                Step::Spawn(
                    PendingSpawn {
                        session_id,
                        connection_id,
                        handle,
                        args,
                        target,
                        cols: cmd.cols,
                        rows: cmd.rows,
                    },
                )
            },
        }
    }

    /// Finishes a request for a session on the connection of another: its
    /// terminal is open, or something went wrong. A connection that was closed
    /// meanwhile refuses the request.
    pub fn finish_spawn(
        &mut self,
        pending: PendingSpawn,
        outcome: Result<(), Error>,
        now: u64,
    ) -> (r: WireResponse)
        requires
            old(self)@.connections.contains_key(pending@.connection_id)
                ==> old(self)@.connections[pending@.connection_id].refcount < u32::MAX,
        ensures
            (r@, final(self)@) == spawn_finished(old(self)@, pending@, outcome, now),
            old(self)@.consistent() && old(self)@.expects_session(pending@.session_id)
                ==> final(self)@.consistent(),
    {
        match outcome {
            Err(e) => err(e),
            Ok(_) => {
                let session = SessionHandle {
                    id: pending.session_id,
                    connection_id: pending.connection_id,
                    host: pending.target.host,
                    port: pending.target.port,
                    username: pending.target.username,
                    cols: pending.cols,
                    rows: pending.rows,
                    reconnect: false,
                    connect_args: pending.args,
                    created_at: now,
                    cell: SessionCell::new(now),
                };
                let reply = session_reply(&session);
                match self.add_spawned(session) {
                    Ok(_) => reply,
                    Err(e) => err(e),
                }
            },
        }
    }
}

// ---------------------------------------------------------------------------
// Exec
// ---------------------------------------------------------------------------

/// The answer to a command that is typed into a session and not waited for.
pub open spec fn dispatched() -> JsonValue {
    JsonValue::Object(
        seq![
            ("detached"@, JsonValue::Bool(true)),
            ("status"@, JsonValue::Text("dispatched"@)),
        ],
    )
}

/// What the daemon does about a request to run a command.
pub open spec fn exec_begun(v: ServerView, cmd: SessionExecCommand) -> StepView {
    let command = joined(texts(cmd.command@), " "@);
    match handle_of(v, cmd.session_id@) {
        Err(message) => refusal(message),
        Ok(handle) => if !cmd.detach {
            StepView::Exec { handle, command, timeout_ms: cmd.timeout }
        } else if v.sessions[cmd.session_id@].cell.drain_dead {
            refusal(Error::DrainTaskDead.text())
        } else {
            StepView::Tell {
                session_id: cmd.session_id@,
                command: CommandView::Send { data: encode_utf8(command + "\n"@) },
                reply: granted(dispatched()),
            }
        },
    }
}

/// The answer to a command that has run.
pub open spec fn exec_answer(stdout: Seq<char>, stderr: Seq<char>, exit_code: i32) -> JsonValue {
    JsonValue::Object(
        seq![
            ("ok"@, JsonValue::Bool(true)),
            ("stdout"@, JsonValue::Text(stdout)),
            ("stderr"@, JsonValue::Text(stderr)),
            ("exit_code"@, JsonValue::Number(exit_code as int)),
            ("exit_status"@, JsonValue::Number(exit_code as int)),
        ],
    )
}

/// The answer to a command that has run, in JSON.
pub fn exec_json(output: &ExecOutput) -> (r: Json)
    ensures
        r@ == exec_answer(output.stdout@, output.stderr@, output.exit_code),
{
    let mut f = Fields::new();
    f.put_bool("ok", true);
    f.put_text("stdout", output.stdout.as_str());
    f.put_text("stderr", output.stderr.as_str());
    f.put("exit_code", Json::Int(output.exit_code as i64));
    f.put("exit_status", Json::Int(output.exit_code as i64));
    let r = f.object();
    assert(r@->Object_0 =~= exec_answer(
        output.stdout@,
        output.stderr@,
        output.exit_code,
    )->Object_0);
    r
}

/// What a command that was run is answered.
pub open spec fn exec_finished(outcome: Result<ExecOutput, Error>) -> ResponseView {
    match outcome {
        Ok(output) => granted(exec_answer(output.stdout@, output.stderr@, output.exit_code)),
        Err(e) => refused(e.text()),
    }
}

/// Finishes a request to run a command.
pub fn finish_exec(outcome: Result<ExecOutput, Error>) -> (r: WireResponse)
    ensures
        r@ == exec_finished(outcome),
{
    match outcome {
        Ok(output) => ok(exec_json(&output)),
        Err(e) => err(e),
    }
}

fn begin_exec(state: &ServerState, cmd: SessionExecCommand) -> (step: Step)
    ensures
        step@ == exec_begun(state@, cmd),
{
    let handle: u64 = match session_handle(state, cmd.session_id.as_str()) {
        Ok(handle) => handle,
        Err(e) => return Step::Reply(err(e)),
    };
    let command = join(&cmd.command, " ");
    if !cmd.detach {
        return Step::Exec { handle, command, timeout_ms: cmd.timeout };
    }
    match state.sessions.get(cmd.session_id.as_str()) {
        None => Step::Reply(err(Error::SessionNotFound(cmd.session_id))),
        Some(session) => {
            if session.cell.drain_dead {
                return Step::Reply(err(Error::DrainTaskDead));
            }
            let line = cat2(command.as_str(), "\n");
            let data = line.as_str().as_bytes_vec();
            let mut f = Fields::new();
            f.put_bool("detached", true);
            f.put_text("status", "dispatched");
            let answer = f.object();
            assert(answer@->Object_0 =~= dispatched()->Object_0);
            Step::Tell {
                session_id: cmd.session_id,
                command: SessionCmd::Send { data },
                reply: ok(answer),
            }
        },
    }
}

// ---------------------------------------------------------------------------
// Read
// ---------------------------------------------------------------------------

/// What a read is answered, and the state after it.
pub open spec fn read_finished(v: ServerView, cmd: ReadCommand) -> (ResponseView, ServerView) {
    let id = cmd.session_id@;
    let offset = match cmd.offset {
        Some(offset) => offset as int,
        None => 0,
    };
    if v.sessions.contains_key(id) {
        (
            granted(
                read_answer(id, v.sessions[id].cell, offset, cmd.limit as int, !cmd.raw),
            ),
            crate::daemon::after_read(v, id, offset, cmd.limit as int),
        )
    } else {
        (refused(session_missing(id)), v)
    }
}

impl ServerState {
    /// Finishes a read, when it has been waited for as long as it asked.
    pub fn finish_read(&mut self, cmd: ReadCommand) -> (r: WireResponse)
        ensures
            (r@, final(self)@) == read_finished(old(self)@, cmd),
            old(self)@.consistent() ==> final(self)@.consistent(),
    {
        let offset: usize = match cmd.offset {
            Some(offset) => offset,
            None => 0,
        };
        match daemon_read(cmd.session_id.as_str(), offset, cmd.limit, !cmd.raw, self) {
            Ok(answer) => ok(answer),
            Err(e) => err(e),
        }
    }
}

// ---------------------------------------------------------------------------
// Files
// ---------------------------------------------------------------------------

/// The connection for a file command, or the message why there is none: the
/// command has to name a session.
pub open spec fn file_handle(v: ServerView, session_id: Option<Seq<char>>) -> Result<u64, Seq<char>> {
    match session_id {
        None => Err(Error::SessionIdRequired.text()),
        Some(id) => handle_of(v, id),
    }
}

/// The connection for a file command.
pub fn daemon_handle_for_session(state: &ServerState, session_id: &Option<String>) -> (r: Result<
    u64,
    Error,
>)
    ensures
        match r {
            Ok(handle) => file_handle(state@, text_of(*session_id)) == Ok::<u64, Seq<char>>(handle),
            Err(e) => file_handle(state@, text_of(*session_id)) == Err::<u64, Seq<char>>(e.text()),
        },
{
    match session_id {
        None => Err(Error::SessionIdRequired),
        Some(id) => session_handle(state, id.as_str()),
    }
}

/// The session that a file command names.
pub open spec fn file_session(request: FileOnce) -> Option<String> {
    match request {
        FileOnce::Upload(c) => c.session_id,
        FileOnce::Download(c) => c.session_id,
        FileOnce::Ls(c) => c.session_id,
        FileOnce::Write(c) => c.session_id,
        FileOnce::Read(c) => c.session_id,
        FileOnce::Delete(c) => c.session_id,
        FileOnce::Edit(c) => c.session_id,
    }
}

/// What the daemon does about a file command.
pub open spec fn file_begun(v: ServerView, request: FileOnce) -> StepView {
    match file_handle(v, text_of(file_session(request))) {
        Ok(handle) => StepView::File { handle, request },
        Err(message) => refusal(message),
    }
}

fn begin_file(state: &ServerState, request: FileOnce) -> (step: Step)
    ensures
        step@ == file_begun(state@, request),
{
    let found = match &request {
        FileOnce::Upload(c) => daemon_handle_for_session(state, &c.session_id),
        FileOnce::Download(c) => daemon_handle_for_session(state, &c.session_id),
        FileOnce::Ls(c) => daemon_handle_for_session(state, &c.session_id),
        FileOnce::Write(c) => daemon_handle_for_session(state, &c.session_id),
        FileOnce::Read(c) => daemon_handle_for_session(state, &c.session_id),
        FileOnce::Delete(c) => daemon_handle_for_session(state, &c.session_id),
        FileOnce::Edit(c) => daemon_handle_for_session(state, &c.session_id),
    };
    match found {
        Ok(handle) => Step::File { handle, request },
        Err(e) => Step::Reply(err(e)),
    }
}

/// What a file command that was carried out is answered.
pub open spec fn file_finished(outcome: Result<Json, Error>) -> ResponseView {
    match outcome {
        Ok(answer) => granted(answer@),
        Err(e) => refused(e.text()),
    }
}

/// Finishes a file command.
pub fn finish_file(outcome: Result<Json, Error>) -> (r: WireResponse)
    ensures
        r@ == file_finished(outcome),
{
    match outcome {
        Ok(answer) => ok(answer),
        Err(e) => err(e),
    }
}

// ---------------------------------------------------------------------------
// Proxies
// ---------------------------------------------------------------------------

/// Why no proxy can be created under `name`, if so: it looks like a number, or
/// is in use.
pub open spec fn name_objection(v: ServerView, name: Option<Seq<char>>) -> Option<Seq<char>> {
    match name {
        Some(name) => if looks_numbered(name) {
            Some("proxy name "@ + name + " is reserved"@)
        } else if v.proxies.contains_key(name) {
            Some(name_taken(name))
        } else {
            None
        },
        None => None,
    }
}

/// The message that a proxy goes by the name already.
pub open spec fn name_taken(name: Seq<char>) -> Seq<char> {
    "proxy "@ + name + " already exists"@
}

/// What the daemon does about a request for a proxy. Where the flags do not
/// say what proxy is asked for, or its name cannot be had, no ids are issued. A
/// proxy with a name needs no number.
pub open spec fn proxy_begun(
    v: ServerView,
    cmd: ProxyCreateCommand,
    profiles: Result<ProfileStore, Error>,
) -> (StepView, ServerView) {
    match mode_asked(text_of(cmd.local), text_of(cmd.remote), text_of(cmd.socks5)) {
        Err(message) => (refusal(message), v),
        Ok(mode) => match name_objection(v, text_of(cmd.name)) {
            Some(message) => (refusal(message), v),
            None => {
                let step = match prepared(cmd.connect@, profiles) {
                    Err(message) => refusal(message),
                    Ok((args, target)) => StepView::Proxy(
                        PendingProxyView {
                            proxy_id: match cmd.name {
                                Some(name) => name@,
                                None => numbered("p"@, v.next_id as int),
                            },
                            connection_id: numbered("c"@, v.next_connection_id as int),
                            args,
                            target,
                            mode,
                        },
                    ),
                };
                (
                    step,
                    ServerView {
                        next_id: if cmd.name is Some {
                            v.next_id
                        } else {
                            (v.next_id + 1) as u64
                        },
                        next_connection_id: (v.next_connection_id + 1) as u64,
                        ..v
                    },
                )
            },
        },
    }
}

/// The proxy that listens.
pub open spec fn listening_proxy(p: PendingProxyView) -> ProxyView {
    ProxyView {
        id: p.proxy_id,
        connection_id: p.connection_id,
        mode: p.mode,
        local_addr: p.mode.local_addr(),
        status: Some(ProxyStatusView::Running),
        shutdown: false,
    }
}

/// The answer to a request for a proxy.
pub open spec fn proxy_answer(p: ProxyView) -> JsonValue {
    JsonValue::Object(
        seq![
            ("ok"@, JsonValue::Bool(true)),
            ("proxy_id"@, JsonValue::Text(p.id)),
            ("connection_id"@, JsonValue::Text(p.connection_id)),
            ("local_addr"@, JsonValue::Text(p.local_addr)),
            ("mode"@, p.mode.json()),
        ],
    )
}

/// What a request for a proxy is answered when it listens, or does not; and the
/// state after it.
pub open spec fn proxy_finished(
    v: ServerView,
    p: PendingProxyView,
    outcome: Result<u64, Error>,
) -> (ResponseView, ServerView) {
    match outcome {
        Err(e) => (refused(e.text()), v),
        Ok(handle) => {
            let q = listening_proxy(p);
            if v.proxies.contains_key(q.id) {
                (refused(name_taken(q.id)), v)
            } else {
                (granted(proxy_answer(q)), v.with_proxy(handle, q))
            }
        },
    }
}

fn optional_str(s: &Option<String>) -> (r: Option<&str>)
    ensures
        given(r) == text_of(*s),
{
    match s {
        Some(s) => Some(s.as_str()),
        None => None,
    }
}

impl ServerState {
    fn begin_proxy(
        &mut self,
        cmd: ProxyCreateCommand,
        profiles: &Result<ProfileStore, Error>,
    ) -> (step: Step)
        requires
            cmd.name is None ==> old(self).next_id < u64::MAX,
            old(self).next_connection_id < u64::MAX,
        ensures
            (step@, final(self)@) == proxy_begun(old(self)@, cmd, *profiles),
            old(self)@.consistent() ==> final(self)@.consistent(),
            old(self)@.consistent() ==> (step@ matches StepView::Proxy(p)
                ==> final(self)@.expects_proxy(p.proxy_id)
                && final(self)@.expects_connection(p.connection_id)),
    {
        let mode = match proxy_mode_from_command(
            optional_str(&cmd.local),
            optional_str(&cmd.remote),
            optional_str(&cmd.socks5),
        ) {
            Ok(mode) => mode,
            Err(e) => return Step::Reply(err(e)),
        };
        if let Some(name) = &cmd.name {
            if is_numbered(name.as_str()) {
                return Step::Reply(err(Error::ProxyNameReserved(name.clone())));
            }
            if self.proxies.contains_key(name.as_str()) {
                return Step::Reply(err(Error::ProxyNameTaken(name.clone())));
            }
        }
        let connection_id = self.issue_connection_id();
        let proxy_id = match cmd.name {
            Some(name) => name,
            None => self.issue_proxy_id(),
        };
        match prepare_connect(&cmd.connect, profiles) {
            Err(e) => Step::Reply(err(e)),
            Ok((args, target)) => Step::Proxy(
                PendingProxy { proxy_id, connection_id, args, target, mode },
            ),
        }
    }

    /// Finishes a request for a proxy: it listens on a connection, which is found
    /// again under a number, or something went wrong. Where another proxy took
    /// the name meanwhile, that one keeps it.
    pub fn finish_proxy(&mut self, pending: PendingProxy, outcome: Result<u64, Error>) -> (r:
        WireResponse)
        ensures
            (r@, final(self)@) == proxy_finished(old(self)@, pending@, outcome),
            old(self)@.consistent() && suits_proxy(
                pending@.proxy_id,
                old(self)@.next_id as int,
            ) && old(self)@.expects_connection(pending@.connection_id)
                ==> final(self)@.consistent(),
    {
        match outcome {
            Err(e) => err(e),
            Ok(handle) => {
                if self.proxies.contains_key(pending.proxy_id.as_str()) {
                    return err(Error::ProxyNameTaken(pending.proxy_id));
                }
                let local_addr = pending.mode.local_addr();
                let proxy = ProxyState {
                    id: pending.proxy_id,
                    connection_id: pending.connection_id,
                    mode: pending.mode,
                    local_addr,
                    status: Some(ProxyStatus::Running),
                    shutdown: false,
                };
                let mut f = Fields::new();
                f.put_bool("ok", true);
                f.put_text("proxy_id", proxy.id.as_str());
                f.put_text("connection_id", proxy.connection_id.as_str());
                f.put_text("local_addr", proxy.local_addr.as_str());
                f.put("mode", proxy.mode.json());
                let answer = f.object();
                assert(answer@->Object_0 =~= proxy_answer(proxy@)->Object_0);
                self.add_proxy(handle, proxy);
                ok(answer)
            },
        }
    }
}

/// The state after the proxies `ids` were closed, as far as there are any, and
/// the ids of those that there were.
pub open spec fn proxies_closed(v: ServerView, ids: Seq<Seq<char>>) -> (Seq<Seq<char>>, ServerView)
    decreases ids.len(),
{
    if ids.len() == 0 {
        (Seq::empty(), v)
    } else {
        let (closed, w) = proxies_closed(v, ids.drop_last());
        if w.proxies.contains_key(ids.last()) {
            (closed.push(ids.last()), w.without_proxy(ids.last()))
        } else {
            (closed, w)
        }
    }
}

/// The proxies that a request to close asks for: all, or the one that it names.
pub open spec fn proxies_to_close(v: ServerView, cmd: ProxyCloseCommand) -> Seq<Seq<char>> {
    if cmd.all {
        in_order(v.proxies.dom())
    } else {
        seq![
            match cmd.proxy_id {
                Some(id) => id@,
                None => Seq::empty(),
            },
        ]
    }
}

/// The answer to a request to close proxies.
pub open spec fn closed_answer(ids: Seq<Seq<char>>) -> JsonValue {
    JsonValue::Object(seq![("ok"@, JsonValue::Bool(true)), ("closed"@, text_list(ids))])
}

/// What the daemon does about a request to close proxies.
pub open spec fn proxy_close_begun(v: ServerView, cmd: ProxyCloseCommand) -> (StepView, ServerView) {
    let (closed, w) = proxies_closed(v, proxies_to_close(v, cmd));
    (StepView::StopProxies { proxies: closed, reply: granted(closed_answer(closed)) }, w)
}

impl ServerState {
    fn close_proxies(&mut self, cmd: ProxyCloseCommand) -> (step: Step)
        ensures
            (step@, final(self)@) == proxy_close_begun(old(self)@, cmd),
            old(self)@.consistent() ==> final(self)@.consistent(),
    {
        let ghost v = old(self)@;
        let ids: Vec<String> = if cmd.all {
            let keys = self.proxies.keys();
            assert(v.proxies.dom() =~= self.proxies@.dom());
            keys
        } else {
            let id = match cmd.proxy_id {
                Some(id) => id,
                None => {
                    proof {
                        reveal_strlit("");
                        assert(""@ =~= Seq::<char>::empty());
                    }
                    "".to_owned()
                },
            };
            let mut one: Vec<String> = Vec::new();
            one.push(id);
            one
        };
        let ghost asked = proxies_to_close(v, cmd);
        assert(texts(ids@) =~= asked);
        let mut closed: Vec<String> = Vec::new();
        let mut i: usize = 0;
        assert(asked.take(0) =~= Seq::empty());
        assert(texts(closed@) =~= Seq::<Seq<char>>::empty());
        while i < ids.len()
            invariant
                i <= ids@.len(),
                asked == texts(ids@),
                (texts(closed@), self@) == proxies_closed(v, asked.take(i as int)),
                v.consistent() ==> self@.consistent(),
            decreases ids@.len() - i,
        {
            assert(asked[i as int] == ids@[i as int]@);
            assert(asked.take(i + 1).drop_last() =~= asked.take(i as int));
            assert(asked.take(i + 1).last() == ids@[i as int]@);
            if self.remove_proxy(ids[i].as_str()).is_some() {
                let ghost before = closed@;
                closed.push(ids[i].clone());
                assert(texts(closed@) =~= texts(before).push(ids@[i as int]@));
            }
            i += 1;
        }
        assert(asked.take(i as int) =~= asked);
        let list = Json::texts(&closed);
        let ghost names = texts(closed@);
        proof {
            assert forall|j: int| 0 <= j < closed@.len() implies #[trigger] closed@[j]@
                == names[j] by {}
            assert(list@->List_0 =~= text_list(names)->List_0);
        }
        let mut f = Fields::new();
        f.put_bool("ok", true);
        f.put("closed", list);
        let answer = f.object();
        assert(answer@->Object_0 =~= closed_answer(names)->Object_0);
        Step::StopProxies { proxies: closed, reply: ok(answer) }
    }
}

// ---------------------------------------------------------------------------
// All requests
// ---------------------------------------------------------------------------

/// For how many whole seconds the daemon has been running.
pub open spec fn uptime_seconds(started_at: u64, now: u64) -> int {
    if now < started_at {
        0
    } else {
        (now - started_at) / 1000
    }
}

/// The answer to the question what the daemon holds.
pub open spec fn daemon_answer(v: ServerView, now: u64, pid: u32) -> JsonValue {
    JsonValue::Object(
        seq![
            ("running"@, JsonValue::Bool(true)),
            ("pid"@, JsonValue::Number(pid as int)),
            ("started_at"@, JsonValue::Number(v.started_at as int)),
            ("uptime_seconds"@, JsonValue::Number(uptime_seconds(v.started_at, now))),
            ("sessions"@, JsonValue::Number(v.sessions.len() as int)),
            ("connections"@, JsonValue::Number(v.connections.len() as int)),
            ("proxies"@, JsonValue::Number(v.proxies.len() as int)),
        ],
    )
}

/// The answer to a request to stop.
pub open spec fn shutdown_answer() -> JsonValue {
    JsonValue::Object(seq![("message"@, JsonValue::Text("shutting down"@))])
}

/// What the daemon does about a command for one session that its task is told.
pub open spec fn told(
    v: ServerView,
    id: Seq<char>,
    command: CommandView,
    answer: JsonValue,
) -> StepView {
    if !v.sessions.contains_key(id) {
        refusal(session_missing(id))
    } else if v.sessions[id].cell.drain_dead {
        refusal(Error::DrainTaskDead.text())
    } else {
        StepView::Tell { session_id: id, command, reply: granted(answer) }
    }
}

/// What the daemon does about a request, and the state after it.
pub open spec fn handled(
    v: ServerView,
    request: WireRequest,
    profiles: Result<ProfileStore, Error>,
    now: u64,
    pid: u32,
) -> (StepView, ServerView) {
    match request {
        WireRequest::Connect(cmd) => connect_begun(v, cmd, profiles),
        WireRequest::Spawn(cmd) => spawn_begun(v, cmd),
        WireRequest::Close(cmd) => {
            let id = cmd.session_id@;
            if v.sessions.contains_key(id) {
                (
                    StepView::Tell {
                        session_id: id,
                        command: CommandView::Close,
                        reply: granted(close_answer(id)),
                    },
                    v.without_session(id),
                )
            } else {
                (refusal(session_missing(id)), v)
            }
        },
        WireRequest::Send(cmd) => (
            match send_begun(v, cmd) {
                Ok((command, pending)) => StepView::Send { command, wait_ms: cmd.wait_ms, pending },
                Err(message) => refusal(message),
            },
            v,
        ),
        WireRequest::Read(cmd) => (StepView::Read(cmd), v),
        WireRequest::Exec(cmd) => (exec_begun(v, cmd), v),
        WireRequest::Resize(cmd) => {
            let id = cmd.session_id@;
            (
                told(
                    v,
                    id,
                    CommandView::Resize { cols: cmd.cols, rows: cmd.rows },
                    resize_answer(cmd.cols, cmd.rows),
                ),
                if v.sessions.contains_key(id) {
                    v.with_session(
                        id,
                        SessionView { cols: cmd.cols, rows: cmd.rows, ..v.sessions[id] },
                    )
                } else {
                    v
                },
            )
        },
        WireRequest::Signal(cmd) => {
            let signal = uppercase_text(cmd.signal@);
            (told(v, cmd.session_id@, CommandView::Signal { signal }, signal_answer(signal)), v)
        },
        WireRequest::Status(cmd) => {
            let id = cmd.session_id@;
            (
                if v.sessions.contains_key(id) {
                    StepView::Reply(granted(status_answer(v, id)))
                } else {
                    refusal(session_missing(id))
                },
                v,
            )
        },
        WireRequest::Ping(cmd) => {
            let id = cmd.session_id@;
            (
                if v.sessions.contains_key(id) {
                    StepView::Reply(granted(ping_answer(id, v.sessions[id].cell)))
                } else {
                    refusal(session_missing(id))
                },
                v,
            )
        },
        WireRequest::List => (StepView::Reply(granted(session_list(v.sessions))), v),
        WireRequest::ProxyCreate(cmd) => proxy_begun(v, cmd, profiles),
        WireRequest::ProxyList => (StepView::Reply(granted(listed_proxies(v.proxies))), v),
        WireRequest::ProxyPing(cmd) => {
            let id = cmd.proxy_id@;
            (
                if v.proxies.contains_key(id) {
                    StepView::Reply(
                        granted(crate::proxy::ping_answer(id, v.proxies[id].status)),
                    )
                } else {
                    refusal(proxy_missing(id))
                },
                v,
            )
        },
        WireRequest::ProxyClose(cmd) => proxy_close_begun(v, cmd),
        WireRequest::Upload(cmd) => (file_begun(v, FileOnce::Upload(cmd)), v),
        WireRequest::Download(cmd) => (file_begun(v, FileOnce::Download(cmd)), v),
        WireRequest::Ls(cmd) => (file_begun(v, FileOnce::Ls(cmd)), v),
        WireRequest::Write(cmd) => (file_begun(v, FileOnce::Write(cmd)), v),
        WireRequest::ReadFile(cmd) => (file_begun(v, FileOnce::Read(cmd)), v),
        WireRequest::DeleteFile(cmd) => (file_begun(v, FileOnce::Delete(cmd)), v),
        WireRequest::EditFile(cmd) => (file_begun(v, FileOnce::Edit(cmd)), v),
        WireRequest::DaemonStatus => (StepView::Reply(granted(daemon_answer(v, now, pid))), v),
        WireRequest::Shutdown => (StepView::Shutdown(granted(shutdown_answer())), v),
    }
}

/// Whether there are ids left for what a request asks for.
pub open spec fn enough_ids(v: ServerView, request: WireRequest) -> bool {
    match request {
        WireRequest::Connect(_) => v.next_id < u64::MAX && v.next_connection_id < u64::MAX,
        WireRequest::ProxyCreate(cmd) => (cmd.name is Some || v.next_id < u64::MAX)
            && v.next_connection_id < u64::MAX,
        WireRequest::Spawn(_) => v.next_id < u64::MAX,
        _ => true,
    }
}

fn reply(r: Result<Json, Error>) -> (step: Step)
    ensures
        step@ == match r {
            Ok(answer) => StepView::Reply(granted(answer@)),
            Err(e) => refusal(e.text()),
        },
{
    match r {
        Ok(answer) => Step::Reply(ok(answer)),
        Err(e) => Step::Reply(err(e)),
    }
}

fn tell(session_id: String, r: Result<(SessionCmd, Json), Error>) -> (step: Step)
    ensures
        step@ == match r {
            Ok((command, answer)) => StepView::Tell {
                session_id: session_id@,
                command: command@,
                reply: granted(answer@),
            },
            Err(e) => refusal(e.text()),
        },
{
    match r {
        Ok((command, answer)) => Step::Tell { session_id, command, reply: ok(answer) },
        Err(e) => Step::Reply(err(e)),
    }
}

fn daemon_json(state: &ServerState, now: u64, pid: u32) -> (r: Json)
    ensures
        r@ == daemon_answer(state@, now, pid),
{
    let uptime: u64 = if now < state.started_at {
        0
    } else {
        (now - state.started_at) / 1000
    };
    let mut f = Fields::new();
    f.put_bool("running", true);
    f.put_u64("pid", pid as u64);
    f.put_u64("started_at", state.started_at);
    f.put_u64("uptime_seconds", uptime);
    f.put_u64("sessions", state.sessions.len() as u64);
    f.put_u64("connections", state.connections.len() as u64);
    f.put_u64("proxies", state.proxies.len() as u64);
    assert(viewed(state.sessions@).dom() =~= state.sessions@.dom());
    assert(viewed(state.proxies@).dom() =~= state.proxies@.dom());
    let r = f.object();
    assert(r@->Object_0 =~= daemon_answer(state@, now, pid)->Object_0);
    r
}

impl ServerState {
    /// Whether there are ids left for what a request asks for.
    pub fn has_ids(&self, request: &WireRequest) -> (r: bool)
        ensures
            r == enough_ids(self@, *request),
    {
        match request {
            WireRequest::Connect(_) => self.next_id < u64::MAX && self.next_connection_id
                < u64::MAX,
            WireRequest::ProxyCreate(cmd) => (cmd.name.is_some() || self.next_id < u64::MAX)
                && self.next_connection_id < u64::MAX,
            WireRequest::Spawn(_) => self.next_id < u64::MAX,
            _ => true,
        }
    }

    /// What to do about a request. `profiles` are the saved profiles, or why they
    /// cannot be read; they matter only where the request names a profile.
    pub fn handle_request(
        &mut self,
        request: WireRequest,
        profiles: &Result<ProfileStore, Error>,
        now: u64,
        pid: u32,
    ) -> (step: Step)
        requires
            enough_ids(old(self)@, request),
        ensures
            (step@, final(self)@) == handled(old(self)@, request, *profiles, now, pid),
            old(self)@.consistent() ==> final(self)@.consistent(),
            old(self)@.consistent() ==> match step@ {
                StepView::Connect(p) => final(self)@.expects_session(p.session_id)
                    && final(self)@.expects_connection(p.connection_id),
                StepView::Spawn(p) => final(self)@.expects_session(p.session_id),
                StepView::Proxy(p) => final(self)@.expects_proxy(p.proxy_id)
                    && final(self)@.expects_connection(p.connection_id),
                _ => true,
            },
    {
        match request {
            WireRequest::Connect(cmd) => self.begin_connect(cmd, profiles),
            WireRequest::Spawn(cmd) => self.begin_spawn(cmd),
            WireRequest::Close(cmd) => {
                let r = daemon_close(cmd.session_id.as_str(), self);
                tell(cmd.session_id, r)
            },
            WireRequest::Send(cmd) => match begin_send(self, &cmd) {
                Ok((command, pending)) => Step::Send { command, wait_ms: cmd.wait_ms, pending },
                Err(e) => Step::Reply(err(e)),
            },
            WireRequest::Read(cmd) => Step::Read(cmd),
            WireRequest::Exec(cmd) => begin_exec(self, cmd),
            WireRequest::Resize(cmd) => {
                let r = daemon_resize(cmd.session_id.as_str(), cmd.cols, cmd.rows, self);
                tell(cmd.session_id, r)
            },
            WireRequest::Signal(cmd) => {
                let r = daemon_signal(cmd.session_id.as_str(), cmd.signal.as_str(), self);
                tell(cmd.session_id, r)
            },
            WireRequest::Status(cmd) => reply(daemon_status(cmd.session_id.as_str(), self)),
            WireRequest::Ping(cmd) => reply(daemon_ping(cmd.session_id.as_str(), self)),
            WireRequest::List => Step::Reply(ok(daemon_list(self))),
            WireRequest::ProxyCreate(cmd) => self.begin_proxy(cmd, profiles),
            WireRequest::ProxyList => Step::Reply(ok(proxy_list(&self.proxies))),
            WireRequest::ProxyPing(cmd) => reply(proxy_ping(cmd.proxy_id.as_str(), &self.proxies)),
            WireRequest::ProxyClose(cmd) => self.close_proxies(cmd),
            WireRequest::Upload(cmd) => begin_file(self, FileOnce::Upload(cmd)),
            WireRequest::Download(cmd) => begin_file(self, FileOnce::Download(cmd)),
            WireRequest::Ls(cmd) => begin_file(self, FileOnce::Ls(cmd)),
            WireRequest::Write(cmd) => begin_file(self, FileOnce::Write(cmd)),
            WireRequest::ReadFile(cmd) => begin_file(self, FileOnce::Read(cmd)),
            WireRequest::DeleteFile(cmd) => begin_file(self, FileOnce::Delete(cmd)),
            WireRequest::EditFile(cmd) => begin_file(self, FileOnce::Edit(cmd)),
            WireRequest::DaemonStatus => Step::Reply(ok(daemon_json(self, now, pid))),
            WireRequest::Shutdown => {
                let mut f = Fields::new();
                f.put_text("message", "shutting down");
                let answer = f.object();
                assert(answer@->Object_0 =~= shutdown_answer()->Object_0);
                Step::Shutdown(ok(answer))
            },
        }
    }
}

// ---------------------------------------------------------------------------
// Laws
// ---------------------------------------------------------------------------

/// The session that a request is about, where it is about one and says so at
/// once.
pub open spec fn session_named(request: WireRequest) -> Option<Seq<char>> {
    match request {
        WireRequest::Spawn(cmd) => Some(cmd.from@),
        WireRequest::Close(cmd) => Some(cmd.session_id@),
        WireRequest::Send(cmd) => if exists|i: int| #[trigger]
            first_incomplete(pairs_of(cmd), i) {
            None
        } else {
            Some(cmd.session_id@)
        },
        WireRequest::Exec(cmd) => Some(cmd.session_id@),
        WireRequest::Resize(cmd) => Some(cmd.session_id@),
        WireRequest::Signal(cmd) => Some(cmd.session_id@),
        WireRequest::Status(cmd) => Some(cmd.session_id@),
        WireRequest::Ping(cmd) => Some(cmd.session_id@),
        WireRequest::Upload(cmd) => text_of(cmd.session_id),
        WireRequest::Download(cmd) => text_of(cmd.session_id),
        WireRequest::Ls(cmd) => text_of(cmd.session_id),
        WireRequest::Write(cmd) => text_of(cmd.session_id),
        WireRequest::ReadFile(cmd) => text_of(cmd.session_id),
        WireRequest::DeleteFile(cmd) => text_of(cmd.session_id),
        WireRequest::EditFile(cmd) => text_of(cmd.session_id),
        _ => None,
    }
}

/// A request about a session that is not there is refused with a message that
/// names the session, and changes nothing.
pub proof fn missing_sessions_are_refused(
    v: ServerView,
    request: WireRequest,
    profiles: Result<ProfileStore, Error>,
    now: u64,
    pid: u32,
)
    requires
        session_named(request) matches Some(id) && !v.sessions.contains_key(id),
    ensures
        handled(v, request, profiles, now, pid) == (
            refusal(session_missing(session_named(request)->0)),
            v,
        ),
{
}

/// Output of a session that is not there is not read: the request is refused
/// with a message that names the session, and changes nothing.
pub proof fn missing_sessions_are_not_read(v: ServerView, cmd: ReadCommand)
    requires
        !v.sessions.contains_key(cmd.session_id@),
    ensures
        read_finished(v, cmd) == (refused(session_missing(cmd.session_id@)), v),
{
}

/// Whether an answer says one thing: that the request was granted, with data and
/// no error, or that it was refused, with an error and no data.
pub open spec fn says_one_thing(r: ResponseView) -> bool {
    &&& r.ok == (r.data is Some)
    &&& r.ok == (r.error is None)
}

/// Whether the answer that a step gives at once, if it gives one, says one thing.
pub open spec fn answers_clearly(step: StepView) -> bool {
    match step {
        StepView::Reply(reply) => says_one_thing(reply),
        StepView::Tell { reply, .. } => says_one_thing(reply),
        StepView::StopProxies { reply, .. } => says_one_thing(reply),
        StepView::Shutdown(reply) => says_one_thing(reply),
        _ => true,
    }
}

proof fn lemma_transfers_answer(
    v: ServerView,
    request: WireRequest,
    profiles: Result<ProfileStore, Error>,
    now: u64,
    pid: u32,
)
    requires
        request is Upload || request is Download || request is Ls || request is Write
            || request is ReadFile || request is DeleteFile || request is EditFile,
    ensures
        answers_clearly(handled(v, request, profiles, now, pid).0),
{
}

proof fn lemma_sessions_answer(
    v: ServerView,
    request: WireRequest,
    profiles: Result<ProfileStore, Error>,
    now: u64,
    pid: u32,
)
    requires
        request is Connect || request is Spawn || request is Send || request is Exec
            || request is Close || request is Resize || request is Signal,
    ensures
        answers_clearly(handled(v, request, profiles, now, pid).0),
{
}

proof fn lemma_others_answer(
    v: ServerView,
    request: WireRequest,
    profiles: Result<ProfileStore, Error>,
    now: u64,
    pid: u32,
)
    requires
        request is Status || request is Ping || request is List || request is Read
            || request is DaemonStatus || request is Shutdown,
    ensures
        answers_clearly(handled(v, request, profiles, now, pid).0),
{
}

proof fn lemma_proxies_answer(
    v: ServerView,
    request: WireRequest,
    profiles: Result<ProfileStore, Error>,
    now: u64,
    pid: u32,
)
    requires
        request is ProxyCreate || request is ProxyList || request is ProxyClose
            || request is ProxyPing,
    ensures
        answers_clearly(handled(v, request, profiles, now, pid).0),
{
}

/// Whatever is answered says one thing: at once, or when a step is finished,
/// which grants the request or refuses it.
pub proof fn answers_say_one_thing(
    v: ServerView,
    request: WireRequest,
    profiles: Result<ProfileStore, Error>,
    now: u64,
    pid: u32,
)
    ensures
        answers_clearly(handled(v, request, profiles, now, pid).0),
        forall|answer: JsonValue| says_one_thing(#[trigger] granted(answer)),
        forall|message: Seq<char>| says_one_thing(#[trigger] refused(message)),
{
    match request {
        WireRequest::Upload(_) | WireRequest::Download(_) | WireRequest::Ls(_)
        | WireRequest::Write(_) | WireRequest::ReadFile(_) | WireRequest::DeleteFile(_)
        | WireRequest::EditFile(_) => lemma_transfers_answer(v, request, profiles, now, pid),
        WireRequest::Connect(_) | WireRequest::Spawn(_) | WireRequest::Send(_)
        | WireRequest::Exec(_) | WireRequest::Close(_) | WireRequest::Resize(_)
        | WireRequest::Signal(_) => lemma_sessions_answer(v, request, profiles, now, pid),
        WireRequest::ProxyCreate(_) | WireRequest::ProxyList | WireRequest::ProxyClose(_)
        | WireRequest::ProxyPing(_) => lemma_proxies_answer(v, request, profiles, now, pid),
        _ => lemma_others_answer(v, request, profiles, now, pid),
    }
}

/// Whether the daemon is consistent when the step is finished as well, whatever
/// comes of it.
pub open spec fn finishes_consistently(w: ServerView, step: StepView) -> bool {
    match step {
        StepView::Connect(p) => forall|handle: u64, now: u64|
            (#[trigger] w.with_connected(handle, connected_session(p, now))).consistent(),
        StepView::Spawn(p) => {
            &&& w.connections.contains_key(p.connection_id)
            &&& w.connections[p.connection_id].refcount < u32::MAX ==> forall|now: u64|
                (#[trigger] w.with_spawned(spawned_session(p, now))).consistent()
        },
        StepView::Proxy(p) => forall|handle: u64|
            (#[trigger] w.with_proxy(handle, listening_proxy(p))).consistent(),
        StepView::Read(cmd) => read_finished(w, cmd).1.consistent(),
        StepView::Send { pending, .. } => forall|matched: bool, elapsed_ms: u64|
            (#[trigger] send_polled(w, pending, matched, elapsed_ms)).2.consistent(),
        _ => true,
    }
}

proof fn lemma_connect_keeps_consistency(
    v: ServerView,
    cmd: ConnectCommand,
    profiles: Result<ProfileStore, Error>,
)
    requires
        v.consistent(),
        v.next_id < u64::MAX,
        v.next_connection_id < u64::MAX,
    ensures
        ({
            let (step, w) = connect_begun(v, cmd, profiles);
            w.consistent() && finishes_consistently(w, step)
        }),
{
    let (step, w) = connect_begun(v, cmd, profiles);
    issuing_keeps_consistency(v, w.next_id, w.next_connection_id);
    next_ids_are_fresh(v);
    lemma_issued("s"@, v.next_id as int);
    lemma_issued("c"@, v.next_connection_id as int);
    if let StepView::Connect(p) = step {
        assert forall|handle: u64, now: u64|
            (#[trigger] w.with_connected(handle, connected_session(p, now))).consistent() by {
            connected_session_keeps_consistency(w, handle, connected_session(p, now));
        }
    }
}

proof fn lemma_spawn_keeps_consistency(v: ServerView, cmd: SpawnCommand)
    requires
        v.consistent(),
        v.next_id < u64::MAX,
    ensures
        ({
            let (step, w) = spawn_begun(v, cmd);
            w.consistent() && finishes_consistently(w, step)
        }),
{
    let (step, w) = spawn_begun(v, cmd);
    issuing_keeps_consistency(v, w.next_id, w.next_connection_id);
    next_ids_are_fresh(v);
    lemma_issued("s"@, v.next_id as int);
    if let StepView::Spawn(p) = step {
        if w.connections[p.connection_id].refcount < u32::MAX {
            assert forall|now: u64|
                (#[trigger] w.with_spawned(spawned_session(p, now))).consistent() by {
                spawned_session_keeps_consistency(w, spawned_session(p, now));
            }
        }
    }
}

proof fn lemma_proxy_keeps_consistency(
    v: ServerView,
    cmd: ProxyCreateCommand,
    profiles: Result<ProfileStore, Error>,
)
    requires
        v.consistent(),
        cmd.name is Some || v.next_id < u64::MAX,
        v.next_connection_id < u64::MAX,
    ensures
        ({
            let (step, w) = proxy_begun(v, cmd, profiles);
            w.consistent() && finishes_consistently(w, step)
        }),
{
    let (step, w) = proxy_begun(v, cmd, profiles);
    issuing_keeps_consistency(v, w.next_id, w.next_connection_id);
    next_ids_are_fresh(v);
    lemma_issued("p"@, v.next_id as int);
    lemma_issued("c"@, v.next_connection_id as int);
    if let StepView::Proxy(p) = step {
        assert forall|handle: u64|
            (#[trigger] w.with_proxy(handle, listening_proxy(p))).consistent() by {
            new_proxy_keeps_consistency(w, handle, listening_proxy(p));
        }
    }
}

proof fn lemma_closing_keeps_consistency(v: ServerView, ids: Seq<Seq<char>>)
    requires
        v.consistent(),
    ensures
        proxies_closed(v, ids).1.consistent(),
    decreases ids.len(),
{
    if ids.len() > 0 {
        lemma_closing_keeps_consistency(v, ids.drop_last());
        let w = proxies_closed(v, ids.drop_last()).1;
        if w.proxies.contains_key(ids.last()) {
            closed_proxy_keeps_consistency(w, ids.last());
        }
    }
}

proof fn lemma_changes_keep_consistency(
    v: ServerView,
    request: WireRequest,
    profiles: Result<ProfileStore, Error>,
    now: u64,
    pid: u32,
)
    requires
        v.consistent(),
        request is Close || request is Resize || request is ProxyClose,
    ensures
        ({
            let (step, w) = handled(v, request, profiles, now, pid);
            w.consistent() && finishes_consistently(w, step)
        }),
{
    match request {
        WireRequest::ProxyClose(cmd) => {
            lemma_closing_keeps_consistency(v, proxies_to_close(v, cmd));
        },
        WireRequest::Close(cmd) => {
            if v.sessions.contains_key(cmd.session_id@) {
                closed_session_keeps_consistency(v, cmd.session_id@);
            }
        },
        WireRequest::Resize(cmd) => {
            let id = cmd.session_id@;
            if v.sessions.contains_key(id) {
                let s = SessionView { cols: cmd.cols, rows: cmd.rows, ..v.sessions[id] };
                changed_session_keeps_consistency(v, id, s);
            }
        },
        _ => {},
    }
}

proof fn lemma_waits_keep_consistency(
    v: ServerView,
    request: WireRequest,
    profiles: Result<ProfileStore, Error>,
    now: u64,
    pid: u32,
)
    requires
        v.consistent(),
        request is Read || request is Send,
    ensures
        ({
            let (step, w) = handled(v, request, profiles, now, pid);
            w.consistent() && finishes_consistently(w, step)
        }),
{
    match request {
        WireRequest::Read(cmd) => {
            let offset: int = match cmd.offset {
                Some(offset) => offset as int,
                None => 0,
            };
            if v.sessions.contains_key(cmd.session_id@) {
                reading_keeps_consistency(v, cmd.session_id@, offset, cmd.limit as int);
            }
        },
        WireRequest::Send(cmd) => {
            if let Ok((_, pending)) = send_begun(v, cmd) {
                assert forall|matched: bool, elapsed_ms: u64|
                    (#[trigger] send_polled(v, pending, matched, elapsed_ms)).2.consistent() by {
                    polling_keeps_consistency(v, pending, matched, elapsed_ms);
                }
            }
        },
        _ => {},
    }
}

/// What changes nothing and leaves nothing to change later.
proof fn lemma_looks_keep_consistency(
    v: ServerView,
    request: WireRequest,
    profiles: Result<ProfileStore, Error>,
    now: u64,
    pid: u32,
)
    requires
        v.consistent(),
        !(request is Connect || request is Spawn || request is ProxyCreate || request is Close
            || request is Resize || request is ProxyClose || request is Read || request is Send),
    ensures
        ({
            let (step, w) = handled(v, request, profiles, now, pid);
            w.consistent() && finishes_consistently(w, step)
        }),
{
    let (step, w) = handled(v, request, profiles, now, pid);
    assert(w == v);
    assert(!(step is Connect || step is Spawn || step is Proxy || step is Read || step is Send));
}

/// Whatever is asked for, one request after the other, the daemon stays
/// consistent, when the request is taken in and when its step is finished: every
/// connection counts the sessions and proxies that use it, and has some; and
/// every session and proxy has its connection.
pub proof fn requests_keep_consistency(
    v: ServerView,
    request: WireRequest,
    profiles: Result<ProfileStore, Error>,
    now: u64,
    pid: u32,
)
    requires
        v.consistent(),
        enough_ids(v, request),
    ensures
        ({
            let (step, w) = handled(v, request, profiles, now, pid);
            w.consistent() && finishes_consistently(w, step)
        }),
{
    match request {
        WireRequest::Connect(cmd) => lemma_connect_keeps_consistency(v, cmd, profiles),
        WireRequest::Spawn(cmd) => lemma_spawn_keeps_consistency(v, cmd),
        WireRequest::ProxyCreate(cmd) => lemma_proxy_keeps_consistency(v, cmd, profiles),
        WireRequest::Close(_) | WireRequest::Resize(_) | WireRequest::ProxyClose(_) => {
            lemma_changes_keep_consistency(v, request, profiles, now, pid)
        },
        WireRequest::Read(_) | WireRequest::Send(_) => {
            lemma_waits_keep_consistency(v, request, profiles, now, pid)
        },
        _ => lemma_looks_keep_consistency(v, request, profiles, now, pid),
    }
}

/// No id is issued twice: whatever is asked for, the numbers of the ids only
/// grow.
pub proof fn ids_only_grow(
    v: ServerView,
    request: WireRequest,
    profiles: Result<ProfileStore, Error>,
    now: u64,
    pid: u32,
)
    requires
        enough_ids(v, request),
    ensures
        ({
            let w = handled(v, request, profiles, now, pid).1;
            v.next_id <= w.next_id && v.next_connection_id <= w.next_connection_id
        }),
{
    if let WireRequest::ProxyClose(cmd) = request {
        lemma_proxies_closed(v, proxies_to_close(v, cmd));
    }
}

/// Closing proxies closes nothing else.
proof fn lemma_proxies_closed(v: ServerView, ids: Seq<Seq<char>>)
    ensures
        ({
            let w = proxies_closed(v, ids).1;
            &&& w.sessions == v.sessions
            &&& w.departed == v.departed
            &&& w.next_id == v.next_id
            &&& w.next_connection_id == v.next_connection_id
            &&& w.started_at == v.started_at
            &&& forall|k: Seq<char>| #[trigger]
                w.proxies.contains_key(k) <==> v.proxies.contains_key(k) && !ids.contains(k)
        }),
    decreases ids.len(),
{
    if ids.len() > 0 {
        let before = ids.drop_last();
        lemma_proxies_closed(v, before);
        let w = proxies_closed(v, ids).1;
        assert forall|k: Seq<char>| #[trigger] w.proxies.contains_key(k) == (v.proxies.contains_key(
            k,
        ) && !ids.contains(k)) by {
            assert(ids =~= before.push(ids.last()));
            if before.contains(k) {
                let i = choose|i: int| 0 <= i < before.len() && before[i] == k;
                assert(ids[i] == k);
            }
            if ids.contains(k) && k != ids.last() {
                let i = choose|i: int| 0 <= i < ids.len() && ids[i] == k;
                assert(before[i] == k);
            }
            assert(ids[ids.len() - 1] == ids.last());
        }
    }
}

proof fn lemma_all_closed(v: ServerView, ids: Seq<Seq<char>>)
    requires
        ids.no_duplicates(),
        forall|i: int| 0 <= i < ids.len() ==> v.proxies.contains_key(#[trigger] ids[i]),
    ensures
        proxies_closed(v, ids).0 == ids,
    decreases ids.len(),
{
    if ids.len() > 0 {
        let before = ids.drop_last();
        lemma_all_closed(v, before);
        lemma_proxies_closed(v, before);
        assert(!before.contains(ids.last()));
        assert(ids[ids.len() - 1] == ids.last());
        assert(proxies_closed(v, ids).0 =~= ids);
    }
}

/// A request to close all proxies closes all of them, and no session.
pub proof fn all_proxies_are_closed(v: ServerView, cmd: ProxyCloseCommand)
    requires
        v.proxies.dom().finite(),
        cmd.all,
    ensures
        ({
            let ids = in_order(v.proxies.dom());
            let (step, w) = proxy_close_begun(v, cmd);
            &&& step == (StepView::StopProxies { proxies: ids, reply: granted(closed_answer(ids)) })
            &&& w.proxies == Map::<Seq<char>, ProxyView>::empty()
            &&& w.sessions == v.sessions
        }),
{
    let ids = in_order(v.proxies.dom());
    lemma_in_order(v.proxies.dom());
    assert forall|i: int| 0 <= i < ids.len() implies v.proxies.contains_key(
        #[trigger] ids[i],
    ) by {
        assert(ids.to_set().contains(ids[i]));
    }
    lemma_all_closed(v, ids);
    lemma_proxies_closed(v, ids);
    let w = proxies_closed(v, ids).1;
    assert forall|k: Seq<char>| !#[trigger] w.proxies.contains_key(k) by {
        assert(ids.to_set().contains(k) == v.proxies.contains_key(k));
    }
    assert(w.proxies =~= Map::<Seq<char>, ProxyView>::empty());
}

/// A request for a session asks for a connection to what its arguments lead to,
/// with new ids, and passes on the dimensions and whether to reconnect. The
/// session that comes of it is the one that was asked for, and is answered with
/// its id.
pub proof fn sessions_are_opened_as_asked(
    v: ServerView,
    cmd: ConnectCommand,
    profiles: Result<ProfileStore, Error>,
    now: u64,
    pid: u32,
)
    requires
        v.next_id < u64::MAX,
        v.next_connection_id < u64::MAX,
    ensures
        ({
            let (step, w) = handled(v, WireRequest::Connect(cmd), profiles, now, pid);
            &&& w == (ServerView {
                next_id: (v.next_id + 1) as u64,
                next_connection_id: (v.next_connection_id + 1) as u64,
                ..v
            })
            &&& prepared(cmd.connect@, profiles) is Err ==> step == StepView::Reply(
                refused(prepared(cmd.connect@, profiles)->Err_0),
            )
            &&& prepared(cmd.connect@, profiles) matches Ok((args, target)) ==> {
                &&& step matches StepView::Connect(p)
                &&& p.session_id == seq!['s'] + decimal(v.next_id as nat)
                &&& p.connection_id == seq!['c'] + decimal(v.next_connection_id as nat)
                &&& p.args == args
                &&& p.target == target
                &&& p.cols == cmd.cols && p.rows == cmd.rows && p.reconnect == cmd.reconnect
            }
        }),
{
    ids_are_numbered(v.next_id as nat);
    ids_are_numbered(v.next_connection_id as nat);
}

/// The session that has got its connection is what was asked for, runs, and has
/// put out nothing yet.
pub proof fn new_sessions_are_what_was_asked_for(
    p: PendingConnectView,
    q: PendingSpawnView,
    now: u64,
)
    ensures
        ({
            let s = connected_session(p, now);
            &&& s.id == p.session_id && s.connection_id == p.connection_id
            &&& s.host == p.target.host && s.port == p.target.port && s.username
                == p.target.username
            &&& s.cols == p.cols && s.rows == p.rows && s.reconnect == p.reconnect
            &&& s.connect_args == p.args && s.created_at == now
            &&& s.cell.status is Running && !s.cell.drain_dead && s.cell.exit_status is None
            &&& s.cell.output.data.len() == 0 && s.cell.output.cursor == 0
            &&& s.cell.updated_at == now
            &&& session_answer(s)->Object_0.contains(("session_id"@, JsonValue::Text(s.id)))
            &&& session_answer(s)->Object_0.contains(
                ("connection_id"@, JsonValue::Text(s.connection_id)),
            )
        }),
        ({
            let s = spawned_session(q, now);
            &&& s.id == q.session_id && s.connection_id == q.connection_id
            &&& s.host == q.target.host && s.port == q.target.port && s.username
                == q.target.username
            &&& s.cols == q.cols && s.rows == q.rows && !s.reconnect
            &&& s.connect_args == q.args && s.created_at == now
            &&& s.cell.status is Running && !s.cell.drain_dead && s.cell.exit_status is None
            &&& s.cell.output.data.len() == 0 && s.cell.output.cursor == 0
        }),
{
    let f = session_answer(connected_session(p, now))->Object_0;
    lemma_items(f);
    assert(f[1].0 == "session_id"@ && f[2].0 == "connection_id"@);
}

/// A session that is spawned from another shares its connection, and nothing
/// else but where it is connected to.
pub proof fn spawned_sessions_share_the_connection(
    v: ServerView,
    cmd: SpawnCommand,
    profiles: Result<ProfileStore, Error>,
    now: u64,
    pid: u32,
)
    requires
        v.consistent(),
        v.next_id < u64::MAX,
        v.sessions.contains_key(cmd.from@),
    ensures
        ({
            let source = v.sessions[cmd.from@];
            let (step, w) = handled(v, WireRequest::Spawn(cmd), profiles, now, pid);
            &&& step matches StepView::Spawn(p)
            &&& p.session_id == seq!['s'] + decimal(v.next_id as nat)
            &&& p.connection_id == source.connection_id
            &&& p.handle == v.connections[source.connection_id].handle
            &&& p.args == source.connect_args
            &&& p.target.host == source.host && p.target.port == source.port && p.target.username
                == source.username
            &&& p.cols == cmd.cols && p.rows == cmd.rows
            &&& w == (ServerView { next_id: (v.next_id + 1) as u64, ..v })
        }),
{
    ids_are_numbered(v.next_id as nat);
    assert(v.connections.contains_key(v.sessions[cmd.from@].connection_id));
}

/// A command for a session is run on the connection of that session, with the
/// words of the command and the time that it was given; or it is typed into the
/// session and not waited for, where that was asked for.
pub proof fn commands_are_run_on_their_session(
    v: ServerView,
    cmd: SessionExecCommand,
    profiles: Result<ProfileStore, Error>,
    now: u64,
    pid: u32,
)
    requires
        v.consistent(),
        v.sessions.contains_key(cmd.session_id@),
    ensures
        ({
            let s = v.sessions[cmd.session_id@];
            let line = joined(texts(cmd.command@), seq![' ']);
            let (step, w) = handled(v, WireRequest::Exec(cmd), profiles, now, pid);
            &&& w == v
            &&& !cmd.detach ==> step == (StepView::Exec {
                handle: v.connections[s.connection_id].handle,
                command: line,
                timeout_ms: cmd.timeout,
            })
            &&& cmd.detach && s.cell.drain_dead ==> step == StepView::Reply(
                refused("drain task dead"@),
            )
            &&& cmd.detach && !s.cell.drain_dead ==> {
                &&& step matches StepView::Tell { session_id, command, reply }
                &&& session_id == cmd.session_id@
                &&& command == (CommandView::Send { data: encode_utf8(line + seq!['\n']) })
                &&& reply.ok
            }
        }),
{
    reveal_strlit(" ");
    reveal_strlit("\n");
    assert(" "@ =~= seq![' ']);
    assert("\n"@ =~= seq!['\n']);
    assert(v.connections.contains_key(v.sessions[cmd.session_id@].connection_id));
}

/// The answer to a command that has run holds its output and its exit code.
pub proof fn commands_are_answered_with_their_output(
    stdout: Seq<char>,
    stderr: Seq<char>,
    exit_code: i32,
)
    ensures
        ({
            let fields = exec_answer(stdout, stderr, exit_code)->Object_0;
            &&& exec_answer(stdout, stderr, exit_code) is Object
            &&& fields.contains(("ok"@, JsonValue::Bool(true)))
            &&& fields.contains(("stdout"@, JsonValue::Text(stdout)))
            &&& fields.contains(("stderr"@, JsonValue::Text(stderr)))
            &&& fields.contains(("exit_code"@, JsonValue::Number(exit_code as int)))
            &&& fields.contains(("exit_status"@, JsonValue::Number(exit_code as int)))
        }),
{
    let f = exec_answer(stdout, stderr, exit_code)->Object_0;
    lemma_items(f);
    assert(f[0].0 == "ok"@ && f[1].0 == "stdout"@ && f[2].0 == "stderr"@);
    assert(f[3].0 == "exit_code"@ && f[4].0 == "exit_status"@);
}

/// What the daemon tells a session's task: the new dimensions, the signal in
/// upper case, the end. Only the dimensions change what is known of it.
pub proof fn sessions_are_told(
    v: ServerView,
    id: Seq<char>,
    resize: crate::cli::ResizeCommand,
    signal: crate::cli::SignalCommand,
    profiles: Result<ProfileStore, Error>,
    now: u64,
    pid: u32,
)
    requires
        v.sessions.contains_key(id),
        resize.session_id@ == id,
        signal.session_id@ == id,
    ensures
        ({
            let dead = v.sessions[id].cell.drain_dead;
            let (step, w) = handled(v, WireRequest::Resize(resize), profiles, now, pid);
            &&& !dead ==> {
                &&& step matches StepView::Tell { session_id, command, reply }
                &&& session_id == id && reply.ok
                &&& command == (CommandView::Resize { cols: resize.cols, rows: resize.rows })
            }
            &&& dead ==> step == StepView::Reply(refused("drain task dead"@))
            &&& w == (ServerView {
                sessions: v.sessions.insert(
                    id,
                    SessionView { cols: resize.cols, rows: resize.rows, ..v.sessions[id] },
                ),
                ..v
            })
        }),
        ({
            let dead = v.sessions[id].cell.drain_dead;
            let (step, w) = handled(v, WireRequest::Signal(signal), profiles, now, pid);
            &&& !dead ==> {
                &&& step matches StepView::Tell { session_id, command, reply }
                &&& session_id == id && reply.ok
                &&& command == (CommandView::Signal { signal: uppercase_text(signal.signal@) })
            }
            &&& dead ==> step == StepView::Reply(refused("drain task dead"@))
            &&& w == v
        }),
{
}

/// Closing a session tells its task to close and takes the session out; asking
/// about sessions takes nothing out and tells nobody.
pub proof fn sessions_are_closed_and_asked_about(
    v: ServerView,
    id: Seq<char>,
    close: crate::cli::StatusCommand,
    profiles: Result<ProfileStore, Error>,
    now: u64,
    pid: u32,
)
    requires
        v.sessions.contains_key(id),
        close.session_id@ == id,
    ensures
        ({
            let (step, w) = handled(v, WireRequest::Close(close), profiles, now, pid);
            &&& step matches StepView::Tell { session_id, command, reply }
            &&& session_id == id && command is Close && reply.ok
            &&& w == v.without_session(id)
        }),
        handled(v, WireRequest::Status(close), profiles, now, pid) == (
            StepView::Reply(granted(status_answer(v, id))),
            v,
        ),
        handled(v, WireRequest::Ping(close), profiles, now, pid) == (
            StepView::Reply(granted(ping_answer(id, v.sessions[id].cell))),
            v,
        ),
        handled(v, WireRequest::List, profiles, now, pid) == (
            StepView::Reply(granted(session_list(v.sessions))),
            v,
        ),
{
}

/// A read is answered from where it asks to begin, or from the cursor where that
/// is further on, with as much as it asks for, cleaned unless it asks for what
/// was put out as it is.
pub proof fn reads_are_answered(v: ServerView, cmd: ReadCommand)
    requires
        v.sessions.contains_key(cmd.session_id@),
    ensures
        ({
            let from = if cmd.offset is Some {
                cmd.offset->0 as int
            } else {
                0
            };
            let id = cmd.session_id@;
            let (answer, w) = read_finished(v, cmd);
            &&& answer == granted(
                read_answer(id, v.sessions[id].cell, from, cmd.limit as int, !cmd.raw),
            )
            &&& w == crate::daemon::after_read(v, id, from, cmd.limit as int)
        }),
{
}

/// A file command is carried out on the connection of the session that it names,
/// as it was asked for.
pub proof fn file_commands_use_the_session(v: ServerView, request: FileOnce, id: Seq<char>)
    requires
        v.consistent(),
        text_of(file_session(request)) == Some(id),
    ensures
        v.sessions.contains_key(id) ==> file_begun(v, request) == (StepView::File {
            handle: v.connections[v.sessions[id].connection_id].handle,
            request,
        }),
        !v.sessions.contains_key(id) ==> file_begun(v, request) == StepView::Reply(
            refused("session "@ + id + " not found"@),
        ),
{
    if v.sessions.contains_key(id) {
        assert(v.connections.contains_key(v.sessions[id].connection_id));
    }
}

/// A proxy is created as its flags ask for it, on a connection to what its
/// arguments lead to, under its name or else under a new number. A name that is
/// taken, and flags that ask for nothing in particular, are refused, and then
/// nothing changes.
pub proof fn proxies_are_created_as_asked(
    v: ServerView,
    cmd: ProxyCreateCommand,
    profiles: Result<ProfileStore, Error>,
    now: u64,
    pid: u32,
)
    requires
        v.next_id < u64::MAX,
        v.next_connection_id < u64::MAX,
    ensures
        ({
            let asked = mode_asked(text_of(cmd.local), text_of(cmd.remote), text_of(cmd.socks5));
            let (step, w) = handled(v, WireRequest::ProxyCreate(cmd), profiles, now, pid);
            &&& asked is Err ==> step == StepView::Reply(refused(asked->Err_0)) && w == v
            &&& asked is Ok && cmd.name is Some && v.proxies.contains_key(cmd.name->0@) ==> (step
                matches StepView::Reply(reply) && !reply.ok) && w == v
            &&& asked is Ok && (cmd.name is None || name_objection(v, text_of(cmd.name)) is None)
                && (prepared(cmd.connect@, profiles) is Ok) ==> {
                &&& step matches StepView::Proxy(p)
                &&& cmd.name is Some ==> p.proxy_id == cmd.name->0@
                &&& cmd.name is None ==> p.proxy_id == seq!['p'] + decimal(v.next_id as nat)
                &&& p.connection_id == seq!['c'] + decimal(v.next_connection_id as nat)
                &&& (p.args, p.target) == prepared(cmd.connect@, profiles)->Ok_0
                &&& p.mode == asked->Ok_0
            }
        }),
{
    ids_are_numbered(v.next_id as nat);
    ids_are_numbered(v.next_connection_id as nat);
}

/// A proxy that listens is the one that was asked for, and its answer says so.
pub proof fn listening_proxies_are_what_was_asked_for(p: PendingProxyView)
    ensures
        ({
            let q = listening_proxy(p);
            let fields = proxy_answer(q)->Object_0;
            &&& q.id == p.proxy_id && q.connection_id == p.connection_id && q.mode == p.mode
            &&& q.local_addr == p.mode.local_addr()
            &&& q.status is Some && q.status->0 is Running && !q.shutdown
            &&& fields.contains(("proxy_id"@, JsonValue::Text(p.proxy_id)))
            &&& fields.contains(("connection_id"@, JsonValue::Text(p.connection_id)))
            &&& fields.contains(("local_addr"@, JsonValue::Text(p.mode.local_addr())))
            &&& fields.contains(("mode"@, p.mode.json()))
        }),
{
    let f = proxy_answer(listening_proxy(p))->Object_0;
    lemma_items(f);
    assert(f[1].0 == "proxy_id"@ && f[2].0 == "connection_id"@ && f[3].0 == "local_addr"@);
    assert(f[4].0 == "mode"@);
}

/// Closing one proxy closes that one, if it is there, and no other.
pub proof fn one_proxy_is_closed(v: ServerView, cmd: ProxyCloseCommand, id: Seq<char>)
    requires
        !cmd.all,
        text_of(cmd.proxy_id) == Some(id),
    ensures
        ({
            let (step, w) = proxy_close_begun(v, cmd);
            &&& v.proxies.contains_key(id) ==> w == v.without_proxy(id) && (step
                matches StepView::StopProxies { proxies, reply } && proxies == seq![id])
            &&& !v.proxies.contains_key(id) ==> w == v
        }),
{
    let ids = seq![id];
    let none = Seq::<Seq<char>>::empty();
    assert(ids.drop_last() =~= none);
    assert(ids.last() == id);
    assert(proxies_closed(v, none) == (none, v));
    assert(none.push(id) =~= ids);
}

/// The daemon says how long it has been running, in whole seconds, and how much
/// it holds.
pub proof fn the_daemon_knows_what_it_holds(v: ServerView, now: u64, pid: u32)
    ensures
        ({
            let fields = daemon_answer(v, now, pid)->Object_0;
            &&& daemon_answer(v, now, pid) is Object
            &&& fields.contains(("running"@, JsonValue::Bool(true)))
            &&& fields.contains(("pid"@, JsonValue::Number(pid as int)))
            &&& now >= v.started_at ==> fields.contains(
                ("uptime_seconds"@, JsonValue::Number((now - v.started_at) / 1000)),
            )
            &&& now < v.started_at ==> fields.contains(("uptime_seconds"@, JsonValue::Number(0)))
            &&& fields.contains(("sessions"@, JsonValue::Number(v.sessions.dom().len() as int)))
            &&& fields.contains(
                ("connections"@, JsonValue::Number(v.connections.dom().len() as int)),
            )
            &&& fields.contains(("proxies"@, JsonValue::Number(v.proxies.dom().len() as int)))
        }),
{
    let f = daemon_answer(v, now, pid)->Object_0;
    lemma_items(f);
    assert(f[0].0 == "running"@ && f[1].0 == "pid"@ && f[3].0 == "uptime_seconds"@);
    assert(f[4].0 == "sessions"@ && f[5].0 == "connections"@ && f[6].0 == "proxies"@);
}

/// A request that waited is answered by how it went: what failed is refused in
/// the words of the failure and changes nothing, and what succeeded is there and
/// is answered as it is.
pub proof fn what_was_waited_for_is_answered(
    v: ServerView,
    c: PendingConnectView,
    s: PendingSpawnView,
    p: PendingProxyView,
    handle: u64,
    e: Error,
    now: u64,
)
    ensures
        connect_finished(v, c, Err(e), now) == (refused(e.text()), v),
        spawn_finished(v, s, Err(e), now) == (refused(e.text()), v),
        proxy_finished(v, p, Err(e)) == (refused(e.text()), v),
        exec_finished(Err(e)) == refused(e.text()),
        file_finished(Err(e)) == refused(e.text()),
        ({
            let (reply, w) = connect_finished(v, c, Ok(handle), now);
            &&& reply == granted(session_answer(connected_session(c, now)))
            &&& w.sessions.contains_key(c.session_id)
            &&& w.sessions[c.session_id] == connected_session(c, now)
            &&& w.connections[c.connection_id].handle == handle
        }),
        v.connections.contains_key(s.connection_id) ==> {
            let (reply, w) = spawn_finished(v, s, Ok(()), now);
            &&& reply == granted(session_answer(spawned_session(s, now)))
            &&& w.sessions.contains_key(s.session_id)
            &&& w.sessions[s.session_id] == spawned_session(s, now)
            &&& w.connections[s.connection_id].handle == v.connections[s.connection_id].handle
        },
        !v.connections.contains_key(s.connection_id) ==> {
            let (reply, w) = spawn_finished(v, s, Ok(()), now);
            !reply.ok && w == v
        },
        !v.proxies.contains_key(p.proxy_id) ==> {
            let (reply, w) = proxy_finished(v, p, Ok(handle));
            &&& reply == granted(proxy_answer(listening_proxy(p)))
            &&& w.proxies.contains_key(p.proxy_id)
            &&& w.proxies[p.proxy_id] == listening_proxy(p)
            &&& w.connections[p.connection_id].handle == handle
        },
        v.proxies.contains_key(p.proxy_id) ==> {
            let (reply, w) = proxy_finished(v, p, Ok(handle));
            !reply.ok && w == v
        },
{
}

/// What was run and what was done to a file is answered with what came of it.
pub proof fn outcomes_are_answered(output: ExecOutput, answer: Json)
    ensures
        exec_finished(Ok(output)) == granted(
            exec_answer(output.stdout@, output.stderr@, output.exit_code),
        ),
        file_finished(Ok(answer)) == granted(answer@),
{
}

/// A name for a proxy is free unless a proxy has it; names that look like
/// numbered ids, the letter p and digits, are not to be had.
pub proof fn names_are_free_or_not(v: ServerView, name: Seq<char>)
    ensures
        ({
            let numbered = name.len() > 1 && name[0] == 'p' && forall|i: int|
                1 <= i < name.len() ==> '0' <= #[trigger] name[i] <= '9';
            &&& name_objection(v, None) is None
            &&& numbered ==> name_objection(v, Some(name)) is Some
            &&& !numbered && v.proxies.contains_key(name) ==> name_objection(v, Some(name)) is Some
            &&& !numbered && !v.proxies.contains_key(name) ==> name_objection(v, Some(name)) is None
        }),
{
}

/// A request to close proxies is answered with those that were closed.
pub proof fn closings_are_answered(ids: Seq<Seq<char>>)
    ensures
        closed_answer(ids)->Object_0.contains(("closed"@, text_list(ids))),
        shutdown_answer()->Object_0.contains(("message"@, JsonValue::Text("shutting down"@))),
        dispatched()->Object_0.contains(("detached"@, JsonValue::Bool(true))),
        dispatched()->Object_0.contains(("status"@, JsonValue::Text("dispatched"@))),
{
    let f = closed_answer(ids)->Object_0;
    let g = shutdown_answer()->Object_0;
    let h = dispatched()->Object_0;
    lemma_items(f);
    lemma_items(g);
    lemma_items(h);
    assert(f[1].0 == "closed"@ && g[0].0 == "message"@ && h[0].0 == "detached"@ && h[1].0
        == "status"@);
}

/// A file command that names no session is not for the daemon.
pub proof fn file_commands_need_a_session(v: ServerView, request: FileOnce)
    requires
        file_session(request) is None,
    ensures
        file_begun(v, request) == StepView::Reply(
            refused("session-id required for daemon file operations"@),
        ),
{
}

/// The session that a file command names is the one in its flags.
pub proof fn file_commands_name_their_session(
    t: crate::cli::TransferCommand,
    l: crate::cli::ListCommand,
    w: crate::cli::WriteCommand,
    r: crate::cli::ReadFileCommand,
    d: crate::cli::DeleteFileCommand,
    e: crate::cli::EditFileCommand,
)
    ensures
        file_session(FileOnce::Upload(t)) == t.session_id,
        file_session(FileOnce::Download(t)) == t.session_id,
        file_session(FileOnce::Ls(l)) == l.session_id,
        file_session(FileOnce::Write(w)) == w.session_id,
        file_session(FileOnce::Read(r)) == r.session_id,
        file_session(FileOnce::Delete(d)) == d.session_id,
        file_session(FileOnce::Edit(e)) == e.session_id,
{
}

/// File commands reach the daemon as the commands that they are, and change
/// nothing in it.
pub proof fn file_commands_are_what_they_are(
    v: ServerView,
    t: crate::cli::TransferCommand,
    l: crate::cli::ListCommand,
    w: crate::cli::WriteCommand,
    r: crate::cli::ReadFileCommand,
    d: crate::cli::DeleteFileCommand,
    e: crate::cli::EditFileCommand,
    profiles: Result<ProfileStore, Error>,
    now: u64,
    pid: u32,
)
    ensures
        handled(v, WireRequest::Upload(t), profiles, now, pid) == (
            file_begun(v, FileOnce::Upload(t)),
            v,
        ),
        handled(v, WireRequest::Download(t), profiles, now, pid) == (
            file_begun(v, FileOnce::Download(t)),
            v,
        ),
        handled(v, WireRequest::Ls(l), profiles, now, pid) == (file_begun(v, FileOnce::Ls(l)), v),
        handled(v, WireRequest::Write(w), profiles, now, pid) == (
            file_begun(v, FileOnce::Write(w)),
            v,
        ),
        handled(v, WireRequest::ReadFile(r), profiles, now, pid) == (
            file_begun(v, FileOnce::Read(r)),
            v,
        ),
        handled(v, WireRequest::DeleteFile(d), profiles, now, pid) == (
            file_begun(v, FileOnce::Delete(d)),
            v,
        ),
        handled(v, WireRequest::EditFile(e), profiles, now, pid) == (
            file_begun(v, FileOnce::Edit(e)),
            v,
        ),
{
}

/// What is asked about proxies and about the daemon is answered, and changes
/// nothing; a request to stop is answered before the daemon stops.
pub proof fn questions_are_answered(
    v: ServerView,
    ping: crate::cli::ProxyPingCommand,
    close: ProxyCloseCommand,
    read: ReadCommand,
    profiles: Result<ProfileStore, Error>,
    now: u64,
    pid: u32,
)
    ensures
        handled(v, WireRequest::ProxyList, profiles, now, pid) == (
            StepView::Reply(granted(listed_proxies(v.proxies))),
            v,
        ),
        v.proxies.contains_key(ping.proxy_id@) ==> handled(
            v,
            WireRequest::ProxyPing(ping),
            profiles,
            now,
            pid,
        ) == (
            StepView::Reply(
                granted(
                    crate::proxy::ping_answer(
                        ping.proxy_id@,
                        v.proxies[ping.proxy_id@].status,
                    ),
                ),
            ),
            v,
        ),
        !v.proxies.contains_key(ping.proxy_id@) ==> handled(
            v,
            WireRequest::ProxyPing(ping),
            profiles,
            now,
            pid,
        ) == (StepView::Reply(refused("proxy "@ + ping.proxy_id@ + " not found"@)), v),
        handled(v, WireRequest::ProxyClose(close), profiles, now, pid) == proxy_close_begun(v, close),
        handled(v, WireRequest::Read(read), profiles, now, pid) == (StepView::Read(read), v),
        handled(v, WireRequest::DaemonStatus, profiles, now, pid) == (
            StepView::Reply(granted(daemon_answer(v, now, pid))),
            v,
        ),
        handled(v, WireRequest::Shutdown, profiles, now, pid).0 is Shutdown,
        handled(v, WireRequest::Shutdown, profiles, now, pid).0->Shutdown_0.ok,
        handled(v, WireRequest::Shutdown, profiles, now, pid).1 == v,
{
}

/// Input for a session is sent to it and then waited for, or the request is
/// refused; either way nothing changes yet.
pub proof fn input_is_sent_and_waited_for(
    v: ServerView,
    cmd: crate::cli::SessionInputCommand,
    profiles: Result<ProfileStore, Error>,
    now: u64,
    pid: u32,
)
    ensures
        handled(v, WireRequest::Send(cmd), profiles, now, pid).1 == v,
        send_begun(v, cmd) is Err ==> handled(v, WireRequest::Send(cmd), profiles, now, pid).0
            == StepView::Reply(refused(send_begun(v, cmd)->Err_0)),
        send_begun(v, cmd) matches Ok((command, pending)) ==> handled(
            v,
            WireRequest::Send(cmd),
            profiles,
            now,
            pid,
        ).0 == (StepView::Send { command, wait_ms: cmd.wait_ms, pending }),
{
}

/// A proxy whose arguments lead nowhere is refused in the words of what is wrong.
pub proof fn proxies_need_somewhere_to_connect_to(
    v: ServerView,
    cmd: ProxyCreateCommand,
    profiles: Result<ProfileStore, Error>,
    now: u64,
    pid: u32,
)
    requires
        mode_asked(text_of(cmd.local), text_of(cmd.remote), text_of(cmd.socks5)) is Ok,
        name_objection(v, text_of(cmd.name)) is None,
        prepared(cmd.connect@, profiles) is Err,
    ensures
        handled(v, WireRequest::ProxyCreate(cmd), profiles, now, pid).0 == StepView::Reply(
            refused(prepared(cmd.connect@, profiles)->Err_0),
        ),
        handled(v, WireRequest::ProxyCreate(cmd), profiles, now, pid).1.proxies == v.proxies,
        handled(v, WireRequest::ProxyCreate(cmd), profiles, now, pid).1.sessions == v.sessions,
{
}

/// Ids last until their numbers do: as long as both counters can go up, every
/// request can be taken in, and one that needs no id always can.
pub proof fn ids_last(v: ServerView, request: WireRequest)
    ensures
        v.next_id < u64::MAX && v.next_connection_id < u64::MAX ==> enough_ids(v, request),
        !(request is Connect) && !(request is Spawn) && !(request is ProxyCreate) ==> enough_ids(
            v,
            request,
        ),
{
}

/// The answer to a request for a session describes the session.
pub proof fn new_sessions_are_described(s: SessionView)
    ensures
        session_answer(s)->Object_0.contains(("ok"@, JsonValue::Bool(true))),
        session_answer(s)->Object_0.contains(("session"@, summary_json(s, Map::empty()))),
{
    let f = session_answer(s)->Object_0;
    lemma_items(f);
    assert(f[0].0 == "ok"@ && f[3].0 == "session"@);
}

} // verus!
