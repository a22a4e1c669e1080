//! What the daemon does with its sessions.

use crate::cli::ConnectArgs;
use crate::error::Error;
use crate::json::{lemma_items, Fields, Json, JsonValue};
use crate::session::{
    commanded, output_answer, page_of, summary_json, CellView, ChannelEvent, DrainAction,
    SessionCmd, SessionStatus, SessionView, StatusView,
};
use crate::sorted::{in_order, lemma_in_order, lemma_viewed_insert, lemma_viewed_remove};
use crate::state::{
    changed_cell_keeps_consistency, changed_session_keeps_consistency, ServerState, ServerView,
    SharedConnection,
};
use crate::text::{texts, uppercase, uppercase_text};
use vstd::prelude::*;
use vstd::string::*;
use vstd::utf8::encode_utf8;

verus! {

broadcast use {lemma_viewed_insert, lemma_viewed_remove};

/// Whether an answer is that there is no such session.
pub open spec fn no_session<T>(r: Result<T, Error>, session_id: Seq<char>) -> bool {
    r matches Err(Error::SessionNotFound(id)) && id@ == session_id
}

// ---------------------------------------------------------------------------
// Resize, signal, close
// ---------------------------------------------------------------------------

/// The answer to a resize.
pub open spec fn resize_answer(cols: u32, rows: u32) -> JsonValue {
    JsonValue::Object(
        seq![
            ("ok"@, JsonValue::Bool(true)),
            ("cols"@, JsonValue::Number(cols as int)),
            ("rows"@, JsonValue::Number(rows as int)),
        ],
    )
}

/// Changes the dimensions of a session. They are noted even where the task that
/// serves the channel has ended and cannot be told.
pub fn daemon_resize(session_id: &str, cols: u32, rows: u32, state: &mut ServerState) -> (r: Result<
    (SessionCmd, Json),
    Error,
>)
    ensures
        ({
            let v = old(state)@;
            let s = v.sessions[session_id@];
            if !v.sessions.contains_key(session_id@) {
                no_session(r, session_id@) && final(state)@ == v
            } else {
                &&& final(state)@ == v.with_session(
                    session_id@,
                    SessionView { cols, rows, ..s },
                )
                &&& if s.cell.drain_dead {
                    r == Err::<(SessionCmd, Json), Error>(Error::DrainTaskDead)
                } else {
                    r matches Ok((command, answer)) && command == (SessionCmd::Resize {
                        cols,
                        rows,
                    }) && answer@ == resize_answer(cols, rows)
                }
            }
        }),
        old(state)@.consistent() ==> final(state)@.consistent(),
{
    let ghost v = old(state)@;
    let mut session = match state.sessions.remove(session_id) {
        Some(session) => session,
        None => {
            assert(state@.sessions =~= v.sessions);
            return Err(Error::SessionNotFound(session_id.to_owned()));
        },
    };
    session.cols = cols;
    session.rows = rows;
    let dead = session.cell.drain_dead;
    let ghost s = session@;
    state.sessions.insert(session_id.to_owned(), session);
    proof {
        assert(state@.sessions =~= v.sessions.insert(session_id@, s));
        if v.consistent() {
            changed_session_keeps_consistency(v, session_id@, s);
        }
    }
    if dead {
        return Err(Error::DrainTaskDead);
    }
    let mut f = Fields::new();
    f.put_bool("ok", true);
    f.put_u64("cols", cols as u64);
    f.put_u64("rows", rows as u64);
    let answer = f.object();
    assert(answer@->Object_0 =~= resize_answer(cols, rows)->Object_0);
    Ok((SessionCmd::Resize { cols, rows }, answer))
}

/// The answer to a signal.
pub open spec fn signal_answer(signal: Seq<char>) -> JsonValue {
    JsonValue::Object(
        seq![("ok"@, JsonValue::Bool(true)), ("signal"@, JsonValue::Text(signal))],
    )
}

/// What is done about a signal for a session.
pub open spec fn signalled(
    v: ServerView,
    session_id: Seq<char>,
    signal: Seq<char>,
    r: Result<(SessionCmd, Json), Error>,
) -> bool {
    if !v.sessions.contains_key(session_id) {
        no_session(r, session_id)
    } else if v.sessions[session_id].cell.drain_dead {
        r == Err::<(SessionCmd, Json), Error>(Error::DrainTaskDead)
    } else {
        r matches Ok((command, answer)) && (command matches SessionCmd::Signal { signal: sent }
            && sent@ == signal) && answer@ == signal_answer(signal)
    }
}

/// Sends a signal, as it is, to a session.
pub fn daemon_signal_as_is(session_id: &str, signal: String, state: &ServerState) -> (r: Result<
    (SessionCmd, Json),
    Error,
>)
    ensures
        signalled(state@, session_id@, signal@, r),
{
    let session = match state.sessions.get(session_id) {
        Some(session) => session,
        None => return Err(Error::SessionNotFound(session_id.to_owned())),
    };
    if session.cell.drain_dead {
        return Err(Error::DrainTaskDead);
    }
    let mut f = Fields::new();
    f.put_bool("ok", true);
    f.put_text("signal", signal.as_str());
    let answer = f.object();
    assert(answer@->Object_0 =~= signal_answer(signal@)->Object_0);
    Ok((SessionCmd::Signal { signal }, answer))
}

/// Sends a signal, in upper case, to a session.
pub fn daemon_signal(session_id: &str, signal: &str, state: &ServerState) -> (r: Result<
    (SessionCmd, Json),
    Error,
>)
    ensures
        signalled(state@, session_id@, uppercase_text(signal@), r),
{
    daemon_signal_as_is(session_id, uppercase(signal), state)
}

/// The answer to a close.
pub open spec fn close_answer(session_id: Seq<char>) -> JsonValue {
    JsonValue::Object(
        seq![("ok"@, JsonValue::Bool(true)), ("closed"@, JsonValue::Text(session_id))],
    )
}

/// Closes a session and gives up its use of the connection.
pub fn daemon_close(session_id: &str, state: &mut ServerState) -> (r: Result<
    (SessionCmd, Json),
    Error,
>)
    ensures
        ({
            let v = old(state)@;
            if !v.sessions.contains_key(session_id@) {
                no_session(r, session_id@) && final(state)@ == v
            } else {
                &&& final(state)@ == v.without_session(session_id@)
                &&& r matches Ok((command, answer)) && command == SessionCmd::Close && answer@
                    == close_answer(session_id@)
            }
        }),
        old(state)@.consistent() ==> final(state)@.consistent(),
{
    match state.remove_session(session_id) {
        Err(e) => Err(e),
        Ok(_) => {
            let mut f = Fields::new();
            f.put_bool("ok", true);
            f.put_text("closed", session_id);
            let answer = f.object();
            assert(answer@->Object_0 =~= close_answer(session_id@)->Object_0);
            Ok((SessionCmd::Close, answer))
        },
    }
}

// ---------------------------------------------------------------------------
// Status, ping, list
// ---------------------------------------------------------------------------

/// The answer to a request for a session's status.
pub open spec fn status_answer(v: ServerView, session_id: Seq<char>) -> JsonValue {
    JsonValue::Object(
        seq![
            ("ok"@, JsonValue::Bool(true)),
            ("session"@, summary_json(v.sessions[session_id], v.sessions)),
        ],
    )
}

/// What the daemon knows of a session.
pub fn daemon_status(session_id: &str, state: &ServerState) -> (r: Result<Json, Error>)
    ensures
        if state@.sessions.contains_key(session_id@) {
            r matches Ok(answer) && answer@ == status_answer(state@, session_id@)
        } else {
            no_session(r, session_id@)
        },
{
    match state.sessions.get(session_id) {
        None => Err(Error::SessionNotFound(session_id.to_owned())),
        Some(session) => {
            let mut f = Fields::new();
            f.put_bool("ok", true);
            f.put("session", session.summary(&state.sessions));
            let answer = f.object();
            assert(answer@->Object_0 =~= status_answer(state@, session_id@)->Object_0);
            Ok(answer)
        },
    }
}

/// Whether a session is alive: it is running, and its task has not ended.
pub open spec fn alive(cell: CellView) -> bool {
    !cell.drain_dead && cell.status == StatusView::Running
}

/// The answer to a ping.
pub open spec fn ping_answer(session_id: Seq<char>, cell: CellView) -> JsonValue {
    JsonValue::Object(
        seq![
            ("ok"@, JsonValue::Bool(true)),
            ("alive"@, JsonValue::Bool(alive(cell))),
            ("status"@, JsonValue::Text(cell.status.text())),
            ("session_id"@, JsonValue::Text(session_id)),
        ],
    )
}

/// Whether a session is alive.
pub fn daemon_ping(session_id: &str, state: &ServerState) -> (r: Result<Json, Error>)
    ensures
        if state@.sessions.contains_key(session_id@) {
            r matches Ok(answer) && answer@ == ping_answer(
                session_id@,
                state@.sessions[session_id@].cell,
            )
        } else {
            no_session(r, session_id@)
        },
{
    match state.sessions.get(session_id) {
        None => Err(Error::SessionNotFound(session_id.to_owned())),
        Some(session) => {
            let is_alive = !session.cell.drain_dead && session.cell.status.is_running();
            let mut f = Fields::new();
            f.put_bool("ok", true);
            f.put_bool("alive", is_alive);
            f.put_text("status", session.cell.status.to_string().as_str());
            f.put_text("session_id", session_id);
            let answer = f.object();
            assert(answer@->Object_0 =~= ping_answer(session_id@, session@.cell)->Object_0);
            Ok(answer)
        },
    }
}

/// All sessions, in the order of their ids.
pub open spec fn session_list(sessions: Map<Seq<char>, SessionView>) -> JsonValue {
    JsonValue::List(
        in_order(sessions.dom()).map_values(
            |id: Seq<char>| summary_json(sessions[id], sessions),
        ),
    )
}

/// All sessions, in the order of their ids.
pub fn daemon_list(state: &ServerState) -> (r: Json)
    ensures
        r@ == session_list(state@.sessions),
{
    let keys = state.sessions.keys();
    let ghost order = texts(keys@);
    let ghost sessions = state@.sessions;
    let mut items: Vec<Json> = Vec::new();
    let mut i: usize = 0;
    while i < keys.len()
        invariant
            i <= keys@.len(),
            order == texts(keys@),
            order.to_set() == state.sessions@.dom(),
            sessions == state@.sessions,
            items@.len() == i,
            forall|j: int|
                0 <= j < i ==> (#[trigger] items@[j])@ == summary_json(
                    sessions[order[j]],
                    sessions,
                ),
        decreases keys@.len() - i,
    {
        assert(order[i as int] == keys@[i as int]@);
        assert(order.to_set().contains(order[i as int]));
        match state.sessions.get(keys[i].as_str()) {
            Some(session) => items.push(session.summary(&state.sessions)),
            None => {
                assert(false);
            },
        }
        i += 1;
    }
    let list = Json::list(items);
    proof {
        assert(sessions.dom() =~= state.sessions@.dom());
        assert(list@->List_0 =~= order.map_values(
            |id: Seq<char>| summary_json(sessions[id], sessions),
        ));
    }
    list
}

// ---------------------------------------------------------------------------
// Reading output
// ---------------------------------------------------------------------------

/// The answer to a read of a session's output.
pub open spec fn read_answer(
    session_id: Seq<char>,
    cell: CellView,
    offset: int,
    limit: int,
    strip: bool,
) -> JsonValue {
    output_answer(
        session_id,
        page_of(cell.output, offset, limit, strip),
        cell.status,
        cell.exit_status,
        cell.exit_signal,
    )
}

/// The state after such a read.
pub open spec fn after_read(
    v: ServerView,
    session_id: Seq<char>,
    offset: int,
    limit: int,
) -> ServerView {
    let cell = v.sessions[session_id].cell;
    v.with_cell(session_id, CellView { output: cell.output.after_page(offset, limit), ..cell })
}

/// Reading keeps the daemon consistent.
pub proof fn reading_keeps_consistency(
    v: ServerView,
    session_id: Seq<char>,
    offset: int,
    limit: int,
)
    requires
        v.consistent(),
        v.sessions.contains_key(session_id),
        0 <= limit,
    ensures
        after_read(v, session_id, offset, limit).consistent(),
{
    let cell = v.sessions[session_id].cell;
    let output = cell.output.after_page(offset, limit);
    assert(output.wf());
    changed_cell_keeps_consistency(v, session_id, CellView { output, ..cell });
}

/// What is decided about a read: the answer, and the state after it.
pub open spec fn output_read(
    v: ServerView,
    session_id: Seq<char>,
    offset: int,
    limit: int,
    strip: bool,
    r: Result<Json, Error>,
    after: ServerView,
) -> bool {
    if v.sessions.contains_key(session_id) {
        &&& r matches Ok(answer) && answer@ == read_answer(
            session_id,
            v.sessions[session_id].cell,
            offset,
            limit,
            strip,
        )
        &&& after == after_read(v, session_id, offset, limit)
    } else {
        no_session(r, session_id) && after == v
    }
}

/// Reads output of a session from its cursor, or from `offset` where that is
/// further on. What was read is not read again.
pub fn daemon_read(
    session_id: &str,
    offset: usize,
    limit: usize,
    strip: bool,
    state: &mut ServerState,
) -> (r: Result<Json, Error>)
    ensures
        output_read(
            old(state)@,
            session_id@,
            offset as int,
            limit as int,
            strip,
            r,
            final(state)@,
        ),
        old(state)@.consistent() ==> final(state)@.consistent(),
{
    let ghost v = old(state)@;
    let mut session = match state.sessions.remove(session_id) {
        Some(session) => session,
        None => {
            assert(state@.sessions =~= v.sessions);
            return Err(Error::SessionNotFound(session_id.to_owned()));
        },
    };
    let ghost before = session@;
    let page = session.page_output(offset, limit, strip);
    let answer = crate::session::daemon_output_response(
        session_id,
        page,
        &session.cell.status,
        session.cell.exit_status,
        &session.cell.exit_signal,
    );
    let ghost s = session@;
    state.sessions.insert(session_id.to_owned(), session);
    proof {
        assert(state@.sessions =~= v.sessions.insert(session_id@, s));
        if v.consistent() {
            assert(v.sessions.contains_key(session_id@));
            assert(before.cell.output.wf());
            assert(s.cell.output.wf());
            changed_cell_keeps_consistency(v, session_id@, s.cell);
        }
    }
    Ok(answer)
}

// ---------------------------------------------------------------------------
// The task that serves a session's channel
// ---------------------------------------------------------------------------

impl ServerView {
    /// Whether the session `id` is to be opened again when its channel is lost.
    /// One that was closed is not.
    pub open spec fn reconnects(self, id: Seq<char>) -> bool {
        self.sessions.contains_key(id) && self.sessions[id].reconnect
    }
}

impl ServerState {
    /// Takes in what arrived on the channel of a session. Says whether its task
    /// goes on; for a session that is not there, it does not.
    pub fn on_channel_event(&mut self, session_id: &str, event: ChannelEvent, now: u64) -> (goes_on:
        bool)
        ensures
            match old(self)@.cell(session_id@) {
                Some(cell) => {
                    &&& final(self)@ == old(self)@.with_cell(
                        session_id@,
                        cell.after_event(event, now, old(self)@.reconnects(session_id@)).0,
                    )
                    &&& goes_on == cell.after_event(
                        event,
                        now,
                        old(self)@.reconnects(session_id@),
                    ).1
                },
                None => final(self)@ == old(self)@ && !goes_on,
            },
            old(self)@.consistent() ==> final(self)@.consistent(),
    {
        let ghost v = old(self)@;
        if let Some(mut session) = self.sessions.remove(session_id) {
            let goes_on = session.cell.on_event(event, now, session.reconnect);
            let ghost s = session@;
            self.sessions.insert(session_id.to_owned(), session);
            proof {
                assert(self@.sessions =~= v.sessions.insert(session_id@, s));
                if v.consistent() {
                    changed_cell_keeps_consistency(v, session_id@, s.cell);
                }
            }
            return goes_on;
        }
        assert(self@.sessions =~= v.sessions);
        if let Some(mut cell) = self.departed.remove(session_id) {
            let goes_on = cell.on_event(event, now, false);
            let ghost c = cell@;
            self.departed.insert(session_id.to_owned(), cell);
            proof {
                assert(self@.departed =~= v.departed.insert(session_id@, c));
                if v.consistent() {
                    changed_cell_keeps_consistency(v, session_id@, c);
                }
            }
            return goes_on;
        }
        assert(self@.departed =~= v.departed);
        false
    }

    /// Takes in a command for the task of a session, or that nobody is left to
    /// give one. Says what to do on the channel and whether the task goes on.
    pub fn on_session_command(&mut self, session_id: &str, command: Option<SessionCmd>) -> (r: (
        DrainAction,
        bool,
    ))
        ensures
            match old(self)@.cell(session_id@) {
                Some(cell) => exists|after: CellView| #[trigger]
                    commanded(cell, command, r.0, after, r.1)
                        && final(self)@ == old(self)@.with_cell(session_id@, after),
                None => final(self)@ == old(self)@ && r.0 == DrainAction::Nothing && !r.1,
            },
            old(self)@.consistent() ==> final(self)@.consistent(),
    {
        let ghost v = old(self)@;
        if let Some(mut session) = self.sessions.remove(session_id) {
            let r = session.cell.on_command(command);
            let ghost s = session@;
            self.sessions.insert(session_id.to_owned(), session);
            proof {
                assert(self@.sessions =~= v.sessions.insert(session_id@, s));
                if v.consistent() {
                    changed_cell_keeps_consistency(v, session_id@, s.cell);
                }
            }
            return r;
        }
        assert(self@.sessions =~= v.sessions);
        if let Some(mut cell) = self.departed.remove(session_id) {
            let r = cell.on_command(command);
            let ghost c = cell@;
            self.departed.insert(session_id.to_owned(), cell);
            proof {
                assert(self@.departed =~= v.departed.insert(session_id@, c));
                if v.consistent() {
                    changed_cell_keeps_consistency(v, session_id@, c);
                }
            }
            return r;
        }
        assert(self@.departed =~= v.departed);
        (DrainAction::Nothing, false)
    }

    /// Takes in that input for a session could not be sent.
    pub fn on_session_send_failed(&mut self, session_id: &str, error: String)
        ensures
            match old(self)@.cell(session_id@) {
                Some(cell) => final(self)@ == old(self)@.with_cell(
                    session_id@,
                    cell.failed(error@),
                ),
                None => final(self)@ == old(self)@,
            },
            old(self)@.consistent() ==> final(self)@.consistent(),
    {
        let ghost v = old(self)@;
        if let Some(mut session) = self.sessions.remove(session_id) {
            session.cell.on_send_failed(error);
            let ghost s = session@;
            self.sessions.insert(session_id.to_owned(), session);
            proof {
                assert(self@.sessions =~= v.sessions.insert(session_id@, s));
                if v.consistent() {
                    changed_cell_keeps_consistency(v, session_id@, s.cell);
                }
            }
            return ;
        }
        assert(self@.sessions =~= v.sessions);
        if let Some(mut cell) = self.departed.remove(session_id) {
            cell.on_send_failed(error);
            let ghost c = cell@;
            self.departed.insert(session_id.to_owned(), cell);
            proof {
                assert(self@.departed =~= v.departed.insert(session_id@, c));
                if v.consistent() {
                    changed_cell_keeps_consistency(v, session_id@, c);
                }
            }
            return ;
        }
        assert(self@.departed =~= v.departed);
    }
}

// ---------------------------------------------------------------------------
// Heartbeat
// ---------------------------------------------------------------------------

/// What is needed to open a session's channel again.
#[derive(Debug)]
pub struct ReconnectTarget {
    pub session_id: String,
    pub connection_id: String,
    pub connect_args: ConnectArgs,
    pub cols: u32,
    pub rows: u32,
}

/// What a look at a session finds.
#[derive(Debug)]
pub struct HeartbeatCheck {
    /// Whether the session's task was found to have died, so that the session
    /// was marked as disconnected.
    pub marked: bool,
    /// What to open again, if the session asks for it.
    pub reconnect: Option<ReconnectTarget>,
}

/// The cell of a session after a look at it: a session that runs although its
/// task has ended is disconnected.
pub open spec fn examined(cell: CellView) -> CellView {
    if cell.drain_dead && cell.status == StatusView::Running {
        CellView { status: StatusView::Disconnected, ..cell }
    } else {
        cell
    }
}

/// Whether a session is to be opened again: it asks for it and is disconnected.
pub open spec fn wants_reconnect(s: SessionView) -> bool {
    s.reconnect && examined(s.cell).status == StatusView::Disconnected
}

/// Whether `target` is what is needed to open `s` again.
pub open spec fn target_of(target: ReconnectTarget, id: Seq<char>, s: SessionView) -> bool {
    &&& target.session_id@ == id
    &&& target.connection_id@ == s.connection_id
    &&& target.connect_args@ == s.connect_args
    &&& target.cols == s.cols
    &&& target.rows == s.rows
}

impl ServerView {
    /// The state after the session `id`, where there is one, got a channel on
    /// a new connection, which takes the place of the connection `connection_id`.
    pub open spec fn reopened(
        self,
        id: Seq<char>,
        connection_id: Seq<char>,
        handle: u64,
    ) -> ServerView {
        let revived = if self.sessions.contains_key(id) {
            self.with_cell(id, self.sessions[id].cell.reconnected())
        } else {
            self
        };
        if self.connections.contains_key(connection_id) {
            ServerView {
                connections: self.connections.insert(
                    connection_id,
                    SharedConnection { handle, ..self.connections[connection_id] },
                ),
                ..revived
            }
        } else {
            revived
        }
    }
}

impl ServerState {
    /// The ids of all sessions, in order.
    pub fn session_ids(&self) -> (r: Vec<String>)
        ensures
            texts(r@) == in_order(self@.sessions.dom()),
    {
        let r = self.sessions.keys();
        assert(self@.sessions.dom() =~= self.sessions@.dom());
        r
    }

    /// Looks at a session. One whose task has died is marked as disconnected,
    /// and one that is disconnected is to be opened again if it asks for it.
    pub fn heartbeat_check(&mut self, session_id: &str) -> (r: HeartbeatCheck)
        ensures
            ({
                let v = old(self)@;
                let s = v.sessions[session_id@];
                if !v.sessions.contains_key(session_id@) {
                    !r.marked && r.reconnect is None && final(self)@ == v
                } else {
                    &&& r.marked == (s.cell.drain_dead && s.cell.status == StatusView::Running)
                    &&& final(self)@ == v.with_cell(session_id@, examined(s.cell))
                    &&& match r.reconnect {
                        Some(target) => wants_reconnect(s) && target_of(target, session_id@, s),
                        None => !wants_reconnect(s),
                    }
                }
            }),
            old(self)@.consistent() ==> final(self)@.consistent(),
    {
        let ghost v = old(self)@;
        let mut session = match self.sessions.remove(session_id) {
            Some(session) => session,
            None => {
                assert(self@.sessions =~= v.sessions);
                return HeartbeatCheck { marked: false, reconnect: None };
            },
        };
        let mut marked = false;
        if session.cell.drain_dead && session.cell.status.is_running() {
            session.cell.status = SessionStatus::Disconnected;
            marked = true;
        }
        let wanted = session.reconnect && matches!(
            session.cell.status,
            SessionStatus::Disconnected
        );
        let reconnect = if wanted {
            Some(
                ReconnectTarget {
                    session_id: session_id.to_owned(),
                    connection_id: session.connection_id.clone(),
                    connect_args: session.connect_args.clone(),
                    cols: session.cols,
                    rows: session.rows,
                },
            )
        } else {
            None
        };
        let ghost s = session@;
        self.sessions.insert(session_id.to_owned(), session);
        proof {
            assert(self@.sessions =~= v.sessions.insert(session_id@, s));
            if v.consistent() {
                changed_cell_keeps_consistency(v, session_id@, s.cell);
            }
        }
        HeartbeatCheck { marked, reconnect }
    }

    /// Takes in that a session has a channel again, on a new connection which
    /// is found under `handle`. The others on the old connection get the new
    /// one too. Says whether the session is there to use the channel: one that
    /// was closed meanwhile stays closed.
    pub fn heartbeat_reconnected(&mut self, target: &ReconnectTarget, handle: u64) -> (r: bool)
        ensures
            r == old(self)@.sessions.contains_key(target.session_id@),
            final(self)@ == old(self)@.reopened(target.session_id@, target.connection_id@, handle),
            old(self)@.consistent() ==> final(self)@.consistent(),
    {
        let ghost v = old(self)@;
        let session_id = target.session_id.as_str();
        let found = match self.sessions.remove(session_id) {
            Some(mut session) => {
                session.cell.on_reconnected();
                let ghost s = session@;
                self.sessions.insert(session_id.to_owned(), session);
                proof {
                    assert(self@.sessions =~= v.sessions.insert(session_id@, s));
                    if v.consistent() {
                        assert(v.sessions.contains_key(session_id@));
                        changed_cell_keeps_consistency(v, session_id@, s.cell);
                    }
                }
                true
            },
            None => {
                assert(self@.sessions =~= v.sessions);
                false
            },
        };
        let ghost w = self@;
        let shared = match self.connections.get(target.connection_id.as_str()) {
            Some(c) => Some(*c),
            None => None,
        };
        if let Some(c) = shared {
            self.connections.insert(
                target.connection_id.clone(),
                SharedConnection { handle, refcount: c.refcount },
            );
            proof {
                if w.consistent() {
                    rehandled_connection_keeps_consistency(w, target.connection_id@, handle);
                }
            }
        }
        found
    }
}

/// Putting another connection behind the id of one keeps the daemon consistent.
pub proof fn rehandled_connection_keeps_consistency(v: ServerView, id: Seq<char>, handle: u64)
    requires
        v.consistent(),
        v.connections.contains_key(id),
    ensures
        (ServerView {
            connections: v.connections.insert(
                id,
                SharedConnection { handle, ..v.connections[id] },
            ),
            ..v
        }).consistent(),
{
    let w = ServerView {
        connections: v.connections.insert(id, SharedConnection { handle, ..v.connections[id] }),
        ..v
    };
    assert forall|c: Seq<char>| #[trigger] w.connections.contains_key(c) implies {
        &&& crate::state::issued(c, "c"@, w.next_connection_id as int)
        &&& w.connections[c].refcount == w.users(c)
        &&& w.connections[c].refcount >= 1
    } by {
        assert(v.connections.contains_key(c));
    }
    assert forall|k: Seq<char>| #[trigger] w.sessions.contains_key(k) implies w.connections.contains_key(
        w.sessions[k].connection_id,
    ) by {
        assert(v.sessions.contains_key(k));
    }
    assert forall|k: Seq<char>| #[trigger] w.proxies.contains_key(k) implies w.connections.contains_key(
        w.proxies[k].connection_id,
    ) by {
        assert(v.proxies.contains_key(k));
    }
}

// ---------------------------------------------------------------------------
// Laws
// ---------------------------------------------------------------------------

/// Looking twice finds no more than looking once.
pub proof fn examining_is_idempotent(cell: CellView)
    ensures
        examined(examined(cell)) == examined(cell),
{
}

/// Only a session that asks for it is opened again, and only when it is
/// disconnected; one that was closed or has exited never is.
pub proof fn only_the_disconnected_are_reopened(s: SessionView)
    requires
        wants_reconnect(s),
    ensures
        s.reconnect,
        s.cell.status == StatusView::Disconnected || (s.cell.status == StatusView::Running
            && s.cell.drain_dead),
{
}

/// A session whose channel is lost while it runs, as when the transport drops,
/// is disconnected and opened again at the next look if it asks for it; else it
/// is closed, and stays so.
pub proof fn dropped_sessions_are_reopened(s: SessionView, now: u64)
    requires
        s.cell.status == StatusView::Running,
    ensures
        ({
            let dropped = SessionView {
                cell: s.cell.after_event(ChannelEvent::Ended, now, s.reconnect).0,
                ..s
            };
            &&& wants_reconnect(dropped) == s.reconnect
            &&& !s.reconnect ==> dropped.cell.status == StatusView::Closed
            &&& examined(dropped.cell) == dropped.cell
            &&& !alive(dropped.cell)
            &&& dropped.cell.output == s.cell.output
        }),
{
}

/// Opening a session again keeps all that is known of it: its id, its
/// connection's id and its output, to which only a note is added. The others
/// keep all but the connection behind the id that they share.
pub proof fn reopening_keeps_the_session(v: ServerView, id: Seq<char>, handle: u64)
    requires
        v.consistent(),
        v.sessions.contains_key(id),
    ensures
        ({
            let s = v.sessions[id];
            let w = v.reopened(id, s.connection_id, handle);
            &&& w.consistent()
            &&& w.sessions == v.sessions.insert(id, w.sessions[id])
            &&& w.sessions[id] == (SessionView { cell: s.cell.reconnected(), ..s })
            &&& w.sessions[id].cell.output == s.cell.output.extended(
                encode_utf8("\r\n[AgentSSH] session reconnected\r\n"@),
            )
            &&& w.connections[s.connection_id].handle == handle
            &&& w.connections.dom() == v.connections.dom()
            &&& w.proxies == v.proxies
            &&& w.departed == v.departed
        }),
{
    let s = v.sessions[id];
    let revived = v.with_cell(id, s.cell.reconnected());
    assert(s.cell.reconnected().output.wf());
    changed_cell_keeps_consistency(v, id, s.cell.reconnected());
    rehandled_connection_keeps_consistency(revived, s.connection_id, handle);
    let w = v.reopened(id, s.connection_id, handle);
    assert(w.connections.dom() =~= v.connections.dom());
}

/// A session that has a channel again is alive, and the next look leaves it
/// alone.
pub proof fn reopened_sessions_are_alive(s: SessionView)
    ensures
        alive(s.cell.reconnected()),
        examined(s.cell.reconnected()) == s.cell.reconnected(),
        !wants_reconnect(SessionView { cell: s.cell.reconnected(), ..s }),
{
}

/// What the daemon answers about a session: a ping says whether it is alive,
/// which takes a running session whose task has not ended, and how it is doing.
pub proof fn pings_tell_the_living(session_id: Seq<char>, cell: CellView)
    ensures
        ({
            let fields = ping_answer(session_id, cell)->Object_0;
            let lives = cell.status == StatusView::Running && !cell.drain_dead;
            &&& ping_answer(session_id, cell) is Object
            &&& fields.contains(("ok"@, JsonValue::Bool(true)))
            &&& fields.contains(("alive"@, JsonValue::Bool(lives)))
            &&& fields.contains(("status"@, JsonValue::Text(cell.status.text())))
            &&& fields.contains(("session_id"@, JsonValue::Text(session_id)))
        }),
        alive(cell) <==> cell.status == StatusView::Running && !cell.drain_dead,
{
    let f = ping_answer(session_id, cell)->Object_0;
    lemma_items(f);
    assert(f[0].0 == "ok"@ && f[1].0 == "alive"@ && f[2].0 == "status"@ && f[3].0
        == "session_id"@);
}

/// The other answers say what was done: the new dimensions, the signal, the
/// session that was closed, and all that is known of a session.
pub proof fn answers_name_what_was_done(
    v: ServerView,
    session_id: Seq<char>,
    cols: u32,
    rows: u32,
    signal: Seq<char>,
)
    ensures
        resize_answer(cols, rows)->Object_0.contains(("cols"@, JsonValue::Number(cols as int))),
        resize_answer(cols, rows)->Object_0.contains(("rows"@, JsonValue::Number(rows as int))),
        signal_answer(signal)->Object_0.contains(("signal"@, JsonValue::Text(signal))),
        close_answer(session_id)->Object_0.contains(("closed"@, JsonValue::Text(session_id))),
        status_answer(v, session_id)->Object_0.contains(
            ("session"@, summary_json(v.sessions[session_id], v.sessions)),
        ),
{
    let a = resize_answer(cols, rows)->Object_0;
    let b = signal_answer(signal)->Object_0;
    let c = close_answer(session_id)->Object_0;
    let d = status_answer(v, session_id)->Object_0;
    lemma_items(a);
    lemma_items(b);
    lemma_items(c);
    lemma_items(d);
    assert(a[1].0 == "cols"@ && a[2].0 == "rows"@);
    assert(b[1].0 == "signal"@ && c[1].0 == "closed"@ && d[1].0 == "session"@);
}

/// The list of sessions holds every session, each once and in the order of their
/// ids, and nothing else.
pub proof fn lists_hold_every_session(sessions: Map<Seq<char>, SessionView>, id: Seq<char>)
    requires
        sessions.dom().finite(),
    ensures
        session_list(sessions) is List,
        session_list(sessions)->List_0.len() == sessions.dom().len(),
        sessions.contains_key(id) ==> session_list(sessions)->List_0.contains(
            summary_json(sessions[id], sessions),
        ),
        forall|i: int|
            0 <= i < sessions.dom().len() ==> #[trigger] session_list(sessions)->List_0[i]
                == summary_json(sessions[in_order(sessions.dom())[i]], sessions),
{
    let order = in_order(sessions.dom());
    lemma_in_order(sessions.dom());
    order.unique_seq_to_set();
    let list = session_list(sessions)->List_0;
    if sessions.contains_key(id) {
        assert(order.to_set().contains(id));
        let i = order.index_of(id);
        assert(list[i] == summary_json(sessions[id], sessions));
    }
}

/// A read answers with the output of its session, and changes nothing but how
/// far that session has been read.
pub proof fn reads_move_only_the_cursor(
    v: ServerView,
    session_id: Seq<char>,
    offset: int,
    limit: int,
    strip: bool,
    other: Seq<char>,
)
    requires
        v.sessions.contains_key(session_id),
    ensures
        ({
            let s = v.sessions[session_id];
            let after = after_read(v, session_id, offset, limit);
            let t = after.sessions[session_id];
            &&& read_answer(session_id, s.cell, offset, limit, strip)->Object_0.contains(
                ("output"@, page_of(s.cell.output, offset, limit, strip)),
            )
            &&& read_answer(session_id, s.cell, offset, limit, strip)->Object_0.contains(
                ("status"@, JsonValue::Text(s.cell.status.text())),
            )
            &&& t == (SessionView {
                cell: CellView { output: s.cell.output.after_page(offset, limit), ..s.cell },
                ..s
            })
            &&& other != session_id ==> after.sessions.contains_key(other)
                == v.sessions.contains_key(other)
            &&& other != session_id && v.sessions.contains_key(other) ==> after.sessions[other]
                == v.sessions[other]
            &&& after.connections == v.connections
            &&& after.proxies == v.proxies
            &&& after.departed == v.departed
            &&& after.next_id == v.next_id
        }),
{
    let s = v.sessions[session_id];
    let f = read_answer(session_id, s.cell, offset, limit, strip)->Object_0;
    lemma_items(f);
    assert(f[2].0 == "output"@ && f[3].0 == "status"@);
}

/// Which sessions are opened again: those that ask for it and are disconnected,
/// or run without a task; no others. What is opened is what the session was
/// opened with.
pub proof fn sessions_are_reopened_when_they_ask(
    s: SessionView,
    id: Seq<char>,
    target: ReconnectTarget,
)
    ensures
        wants_reconnect(s) <==> s.reconnect && (s.cell.status == StatusView::Disconnected || (
        s.cell.status == StatusView::Running && s.cell.drain_dead)),
        target_of(target, id, s) ==> {
            &&& target.session_id@ == id
            &&& target.connection_id@ == s.connection_id
            &&& target.connect_args@ == s.connect_args
            &&& target.cols == s.cols && target.rows == s.rows
        },
        s.cell.drain_dead && s.cell.status == StatusView::Running ==> examined(s.cell) == (CellView {
            status: StatusView::Disconnected,
            ..s.cell
        }),
        !(s.cell.drain_dead && s.cell.status == StatusView::Running) ==> examined(s.cell) == s.cell,
{
}

/// Whether a session is opened again when its channel is lost: as it was asked
/// for, as long as it is open.
pub proof fn closed_sessions_are_not_reopened(v: ServerView, id: Seq<char>)
    ensures
        v.sessions.contains_key(id) ==> v.reconnects(id) == v.sessions[id].reconnect,
        !v.sessions.contains_key(id) ==> !v.reconnects(id),
{
}

/// A session that was closed while it was being opened again stays closed; only
/// the connection that others share with it is the new one.
pub proof fn reopening_opens_nothing_that_was_closed(
    v: ServerView,
    id: Seq<char>,
    connection_id: Seq<char>,
    handle: u64,
    other: Seq<char>,
)
    requires
        !v.sessions.contains_key(id),
    ensures
        ({
            let w = v.reopened(id, connection_id, handle);
            &&& w.sessions == v.sessions && w.departed == v.departed && w.proxies == v.proxies
            &&& v.connections.contains_key(connection_id) ==> w.connections[connection_id].handle
                == handle && w.connections[connection_id].refcount
                == v.connections[connection_id].refcount
            &&& !v.connections.contains_key(connection_id) ==> w.connections == v.connections
            &&& other != connection_id ==> w.connections.contains_key(other)
                == v.connections.contains_key(other)
            &&& other != connection_id && v.connections.contains_key(other) ==> w.connections[other]
                == v.connections[other]
        }),
{
}

} // verus!
