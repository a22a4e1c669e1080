//! Sessions: what the daemon knows of each, and how it changes.

use crate::cli::{ConnectArgs, ConnectView};
use crate::error::Error;
use crate::json::{optional_number, Fields, Json, JsonValue};
use crate::output::{shown, BufferView, OutputBuffer};
use crate::sorted::{
    ascending, in_order, lemma_in_order, lemma_listing, precedes, viewed, SortedMap,
};
use crate::text::{
    cat2, cat3, contains_text, has_text, holding_is_standing_between, lowercase, lowercase_text,
    occurrences_are_replaced, replace_text, replaced, same_text, text_of, text_or_empty, texts,
    the_rest_is_kept,
};
use vstd::prelude::*;
use vstd::string::*;
use vstd::utf8::encode_utf8;

verus! {

// ---------------------------------------------------------------------------
// Status
// ---------------------------------------------------------------------------

/// Where a session is in its life.
#[derive(Debug, Clone, PartialEq, Eq)]
pub enum SessionStatus {
    Running,
    Exited,
    Closed,
    Disconnected,
    Error(String),
}

/// What a [`SessionStatus`] says.
pub enum StatusView {
    Running,
    Exited,
    Closed,
    Disconnected,
    Error(Seq<char>),
}

impl View for SessionStatus {
    type V = StatusView;

    open spec fn view(&self) -> StatusView {
        match self {
            SessionStatus::Running => StatusView::Running,
            SessionStatus::Exited => StatusView::Exited,
            SessionStatus::Closed => StatusView::Closed,
            SessionStatus::Disconnected => StatusView::Disconnected,
            SessionStatus::Error(message) => StatusView::Error(message@),
        }
    }
}

impl StatusView {
    /// The status in words.
    pub open spec fn text(self) -> Seq<char> {
        match self {
            StatusView::Running => "running"@,
            StatusView::Exited => "exited"@,
            StatusView::Closed => "closed"@,
            StatusView::Disconnected => "disconnected"@,
            StatusView::Error(message) => "error: "@ + message,
        }
    }
}

impl SessionStatus {
    /// The status in words, which is also how it is written in JSON.
    pub fn to_string(&self) -> (r: String)
        ensures
            r@ == self@.text(),
    {
        match self {
            SessionStatus::Running => "running".to_owned(),
            SessionStatus::Exited => "exited".to_owned(),
            SessionStatus::Closed => "closed".to_owned(),
            SessionStatus::Disconnected => "disconnected".to_owned(),
            SessionStatus::Error(message) => cat2("error: ", message.as_str()),
        }
    }

    /// The status that a word names, if it names one.
    pub fn from_name(name: &str) -> (r: Option<SessionStatus>)
        ensures
            match r {
                Some(status) => !(status is Error) && status@.text() == name@,
                None => forall|status: StatusView|
                    !(status is Error) ==> #[trigger] status.text() != name@,
            },
    {
        if same_text(name, "running") {
            Some(SessionStatus::Running)
        } else if same_text(name, "exited") {
            Some(SessionStatus::Exited)
        } else if same_text(name, "closed") {
            Some(SessionStatus::Closed)
        } else if same_text(name, "disconnected") {
            Some(SessionStatus::Disconnected)
        } else {
            None
        }
    }

    /// Whether the session is running.
    pub fn is_running(&self) -> (r: bool)
        ensures
            r == (self@ == StatusView::Running),
    {
        matches!(self, SessionStatus::Running)
    }
}

/// Statuses are told apart by their words: no two that carry no message read
/// alike.
pub proof fn status_words_are_distinct(a: StatusView, b: StatusView)
    requires
        !(a is Error),
        !(b is Error),
        a.text() == b.text(),
    ensures
        a == b,
{
    reveal_strlit("running");
    reveal_strlit("exited");
    reveal_strlit("closed");
    reveal_strlit("disconnected");
    assert("running"@.len() == 7 && "exited"@.len() == 6 && "closed"@.len() == 6
        && "disconnected"@.len() == 12);
    assert("exited"@[0] == 'e' && "closed"@[0] == 'c');
}

// ---------------------------------------------------------------------------
// Commands to the task that serves a session's channel
// ---------------------------------------------------------------------------

#[derive(Debug)]
pub enum SessionCmd {
    Send { data: Vec<u8> },
    Resize { cols: u32, rows: u32 },
    Signal { signal: String },
    Close,
}

/// What a [`SessionCmd`] says.
pub enum CommandView {
    Send { data: Seq<u8> },
    Resize { cols: u32, rows: u32 },
    Signal { signal: Seq<char> },
    Close,
}

impl View for SessionCmd {
    type V = CommandView;

    open spec fn view(&self) -> CommandView {
        match self {
            SessionCmd::Send { data } => CommandView::Send { data: data@ },
            SessionCmd::Resize { cols, rows } => CommandView::Resize { cols: *cols, rows: *rows },
            SessionCmd::Signal { signal } => CommandView::Signal { signal: signal@ },
            SessionCmd::Close => CommandView::Close,
        }
    }
}

/// The signal by which a remote process was ended.
#[derive(Debug)]
pub enum ExitSignal {
    Abrt,
    Alrm,
    Fpe,
    Hup,
    Ill,
    Int,
    Kill,
    Pipe,
    Quit,
    Segv,
    Term,
    Usr1,
    Custom(String),
}

impl ExitSignal {
    /// The signal's name.
    pub open spec fn spec_name(self) -> Seq<char> {
        match self {
            ExitSignal::Abrt => "ABRT"@,
            ExitSignal::Alrm => "ALRM"@,
            ExitSignal::Fpe => "FPE"@,
            ExitSignal::Hup => "HUP"@,
            ExitSignal::Ill => "ILL"@,
            ExitSignal::Int => "INT"@,
            ExitSignal::Kill => "KILL"@,
            ExitSignal::Pipe => "PIPE"@,
            ExitSignal::Quit => "QUIT"@,
            ExitSignal::Segv => "SEGV"@,
            ExitSignal::Term => "TERM"@,
            ExitSignal::Usr1 => "USR1"@,
            ExitSignal::Custom(s) => s@,
        }
    }

    /// The signal's name.
    pub fn name(&self) -> (r: String)
        ensures
            r@ == self.spec_name(),
    {
        match self {
            ExitSignal::Abrt => "ABRT".to_owned(),
            ExitSignal::Alrm => "ALRM".to_owned(),
            ExitSignal::Fpe => "FPE".to_owned(),
            ExitSignal::Hup => "HUP".to_owned(),
            ExitSignal::Ill => "ILL".to_owned(),
            ExitSignal::Int => "INT".to_owned(),
            ExitSignal::Kill => "KILL".to_owned(),
            ExitSignal::Pipe => "PIPE".to_owned(),
            ExitSignal::Quit => "QUIT".to_owned(),
            ExitSignal::Segv => "SEGV".to_owned(),
            ExitSignal::Term => "TERM".to_owned(),
            ExitSignal::Usr1 => "USR1".to_owned(),
            ExitSignal::Custom(s) => s.clone(),
        }
    }
}

/// Something that arrives on a channel.
#[derive(Debug)]
pub enum ChannelEvent {
    Data(Vec<u8>),
    ExtendedData { ext: u32, data: Vec<u8> },
    ExitStatus(u32),
    ExitSignal { signal: ExitSignal, error_message: String },
    Eof,
    Close,
    /// Nothing more will arrive.
    Ended,
    /// Anything else.
    Other,
}

// ---------------------------------------------------------------------------
// The part of a session that the task which serves its channel writes
// ---------------------------------------------------------------------------

/// What is shared between the daemon and the task that serves a session's
/// channel.
#[derive(Debug)]
pub struct SessionCell {
    pub output: OutputBuffer,
    pub status: SessionStatus,
    pub exit_status: Option<i32>,
    pub exit_signal: Option<String>,
    /// Whether the task has ended.
    pub drain_dead: bool,
    pub updated_at: u64,
}

/// What a [`SessionCell`] says.
pub struct CellView {
    pub output: BufferView,
    pub status: StatusView,
    pub exit_status: Option<i32>,
    pub exit_signal: Option<Seq<char>>,
    pub drain_dead: bool,
    pub updated_at: u64,
}

impl View for SessionCell {
    type V = CellView;

    open spec fn view(&self) -> CellView {
        CellView {
            output: self.output@,
            status: self.status@,
            exit_status: self.exit_status,
            exit_signal: text_of(self.exit_signal),
            drain_dead: self.drain_dead,
            updated_at: self.updated_at,
        }
    }
}

/// An exit code as the remote side sends it, read as a signed number.
pub open spec fn signed_code(code: u32) -> i32 {
    if code <= 0x7FFF_FFFF {
        code as i32
    } else {
        (code - 0x1_0000_0000) as i32
    }
}

/// An exit code as the remote side sends it, read as a signed number.
pub fn exit_code_of(code: u32) -> (r: i32)
    ensures
        r == signed_code(code),
{
    if code <= 0x7FFF_FFFF {
        code as i32
    } else {
        (code as i64 - 0x1_0000_0000) as i32
    }
}

/// The line that a signal's message leaves in the output.
pub open spec fn signal_note(message: Seq<char>) -> Seq<u8> {
    encode_utf8("\r\n[signal: "@ + message + "]\r\n"@)
}

impl CellView {
    /// The cell of a session that has just been opened.
    pub open spec fn opened(now: u64) -> CellView {
        CellView {
            output: BufferView::empty(),
            status: StatusView::Running,
            exit_status: None,
            exit_signal: None,
            drain_dead: false,
            updated_at: now,
        }
    }

    /// The cell after `event`, and whether the task goes on. `reconnect` says
    /// whether the session is to be opened again when its channel is lost.
    pub open spec fn after_event(self, event: ChannelEvent, now: u64, reconnect: bool) -> (
        CellView,
        bool,
    ) {
        match event {
            ChannelEvent::Data(data) => (
                CellView { output: self.output.extended(data@), updated_at: now, ..self },
                true,
            ),
            ChannelEvent::ExtendedData { ext, data } => if ext == 1 {
                (CellView { output: self.output.extended(data@), updated_at: now, ..self }, true)
            } else {
                (self, true)
            },
            ChannelEvent::ExitStatus(code) => (
                CellView {
                    exit_status: Some(signed_code(code)),
                    status: StatusView::Exited,
                    updated_at: now,
                    ..self
                },
                true,
            ),
            ChannelEvent::ExitSignal { signal, error_message } => (
                CellView {
                    exit_signal: Some(signal.spec_name()),
                    status: StatusView::Exited,
                    output: if error_message@.len() == 0 {
                        self.output
                    } else {
                        self.output.extended(signal_note(error_message@))
                    },
                    updated_at: now,
                    ..self
                },
                true,
            ),
            ChannelEvent::Eof | ChannelEvent::Close => (
                CellView {
                    status: if self.status == StatusView::Exited {
                        StatusView::Exited
                    } else {
                        StatusView::Closed
                    },
                    updated_at: now,
                    drain_dead: true,
                    ..self
                },
                false,
            ),
            ChannelEvent::Ended => (
                CellView {
                    status: if self.status != StatusView::Running {
                        self.status
                    } else if reconnect {
                        StatusView::Disconnected
                    } else {
                        StatusView::Closed
                    },
                    drain_dead: true,
                    ..self
                },
                false,
            ),
            ChannelEvent::Other => (self, true),
        }
    }

    /// The cell after the session got a channel again.
    pub open spec fn reconnected(self) -> CellView {
        CellView {
            status: StatusView::Running,
            drain_dead: false,
            output: self.output.extended(
                encode_utf8("\r\n[AgentSSH] session reconnected\r\n"@),
            ),
            ..self
        }
    }

    /// The cell after input could not be sent.
    pub open spec fn failed(self, error: Seq<char>) -> CellView {
        CellView { status: StatusView::Error(error), drain_dead: true, ..self }
    }

    /// The cell after the task was told to end the session.
    pub open spec fn closed(self) -> CellView {
        CellView { status: StatusView::Closed, drain_dead: true, ..self }
    }
}

/// What the task does on the channel when it is given a command.
#[derive(Debug)]
pub enum DrainAction {
    /// Send the bytes; if that fails, the session has failed.
    Send(Vec<u8>),
    /// Send one byte, as if typed; whether it arrives does not matter.
    Type(u8),
    /// Tell the remote side the new dimensions.
    WindowChange { cols: u32, rows: u32 },
    /// Tell the remote side that nothing more comes.
    Eof,
    /// Nothing.
    Nothing,
}

/// The character that stands for a signal on a terminal.
pub open spec fn terminal_byte(signal: Seq<char>) -> Option<u8> {
    if signal == "INT"@ {
        Some(0x03)
    } else if signal == "QUIT"@ {
        Some(0x1c)
    } else if signal == "TSTP"@ {
        Some(0x1a)
    } else {
        None
    }
}

/// Whether a signal ends the session.
pub open spec fn ends_session(signal: Seq<char>) -> bool {
    signal == "TERM"@ || signal == "KILL"@
}

/// What a command makes the task do, the cell after it, and whether the task
/// goes on. Without a command, nobody is left to give one.
pub open spec fn commanded(
    cell: CellView,
    command: Option<SessionCmd>,
    action: DrainAction,
    after: CellView,
    goes_on: bool,
) -> bool {
    match command {
        Some(SessionCmd::Send { data }) => {
            &&& action matches DrainAction::Send(bytes)
            &&& bytes@ == data@
            &&& after == cell
            &&& goes_on
        },
        Some(SessionCmd::Resize { cols, rows }) => {
            &&& action == (DrainAction::WindowChange { cols, rows })
            &&& after == cell
            &&& goes_on
        },
        Some(SessionCmd::Signal { signal }) => if ends_session(signal@) {
            &&& action == DrainAction::Eof
            &&& after == cell.closed()
            &&& !goes_on
        } else {
            &&& match terminal_byte(signal@) {
                Some(b) => action == DrainAction::Type(b),
                None => action == DrainAction::Nothing,
            }
            &&& after == cell
            &&& goes_on
        },
        Some(SessionCmd::Close) => {
            &&& action == DrainAction::Eof
            &&& after == cell.closed()
            &&& !goes_on
        },
        None => {
            &&& action == DrainAction::Nothing
            &&& after == (CellView { drain_dead: true, ..cell })
            &&& !goes_on
        },
    }
}

impl SessionCell {
    /// The cell of a session that has just been opened.
    pub fn new(now: u64) -> (r: Self)
        ensures
            r@ == CellView::opened(now),
    {
        SessionCell {
            output: OutputBuffer::new(),
            status: SessionStatus::Running,
            exit_status: None,
            exit_signal: None,
            drain_dead: false,
            updated_at: now,
        }
    }

    /// Takes in what arrived on the channel of a session that is to be opened
    /// again when the channel is lost, or is not. Says whether the task goes on.
    pub fn on_event(&mut self, event: ChannelEvent, now: u64, reconnect: bool) -> (goes_on: bool)
        ensures
            (final(self)@, goes_on) == old(self)@.after_event(event, now, reconnect),
            old(self)@.output.wf() ==> final(self)@.output.wf(),
    {
        match event {
            ChannelEvent::Data(data) => {
                self.output.extend(data.as_slice());
                self.updated_at = now;
                true
            },
            ChannelEvent::ExtendedData { ext, data } => {
                if ext == 1 {
                    self.output.extend(data.as_slice());
                    self.updated_at = now;
                }
                true
            },
            ChannelEvent::ExitStatus(code) => {
                self.exit_status = Some(exit_code_of(code));
                self.status = SessionStatus::Exited;
                self.updated_at = now;
                true
            },
            ChannelEvent::ExitSignal { signal, error_message } => {
                self.exit_signal = Some(signal.name());
                self.status = SessionStatus::Exited;
                if !error_message.as_str().is_empty() {
                    let note = cat3("\r\n[signal: ", error_message.as_str(), "]\r\n");
                    self.output.extend(note.as_str().as_bytes());
                }
                self.updated_at = now;
                true
            },
            ChannelEvent::Eof | ChannelEvent::Close => {
                let exited = matches!(self.status, SessionStatus::Exited);
                if !exited {
                    self.status = SessionStatus::Closed;
                }
                self.updated_at = now;
                self.drain_dead = true;
                false
            },
            ChannelEvent::Ended => {
                if self.status.is_running() {
                    self.status = if reconnect {
                        SessionStatus::Disconnected
                    } else {
                        SessionStatus::Closed
                    };
                }
                self.drain_dead = true;
                false
            },
            ChannelEvent::Other => true,
        }
    }

    /// Takes in a command. Says what to do on the channel and whether the task
    /// goes on.
    pub fn on_command(&mut self, command: Option<SessionCmd>) -> (r: (DrainAction, bool))
        ensures
            commanded(old(self)@, command, r.0, final(self)@, r.1),
    {
        match command {
            Some(SessionCmd::Send { data }) => (DrainAction::Send(data), true),
            Some(SessionCmd::Resize { cols, rows }) => (
                DrainAction::WindowChange { cols, rows },
                true,
            ),
            Some(SessionCmd::Signal { signal }) => {
                proof {
                    lemma_signal_names();
                }
                let s = signal.as_str();
                if same_text(s, "INT") {
                    (DrainAction::Type(0x03), true)
                } else if same_text(s, "QUIT") {
                    (DrainAction::Type(0x1c), true)
                } else if same_text(s, "TSTP") {
                    (DrainAction::Type(0x1a), true)
                } else if same_text(s, "TERM") || same_text(s, "KILL") {
                    self.status = SessionStatus::Closed;
                    self.drain_dead = true;
                    (DrainAction::Eof, false)
                } else {
                    (DrainAction::Nothing, true)
                }
            },
            Some(SessionCmd::Close) => {
                self.status = SessionStatus::Closed;
                self.drain_dead = true;
                (DrainAction::Eof, false)
            },
            None => {
                self.drain_dead = true;
                (DrainAction::Nothing, false)
            },
        }
    }

    /// Takes in that input could not be sent. The task ends.
    pub fn on_send_failed(&mut self, error: String)
        ensures
            final(self)@ == old(self)@.failed(error@),
    {
        self.status = SessionStatus::Error(error);
        self.drain_dead = true;
    }

    /// Takes in that the session has a channel again, and notes it in the
    /// output.
    pub fn on_reconnected(&mut self)
        ensures
            final(self)@ == old(self)@.reconnected(),
            old(self)@.output.wf() ==> final(self)@.output.wf(),
    {
        self.drain_dead = false;
        self.status = SessionStatus::Running;
        self.output.extend("\r\n[AgentSSH] session reconnected\r\n".as_bytes());
    }

    /// Whether the task can still be given commands.
    pub fn reachable(&self) -> (r: Result<(), Error>)
        ensures
            r == if self.drain_dead {
                Err::<(), Error>(Error::DrainTaskDead)
            } else {
                Ok(())
            },
    {
        if self.drain_dead {
            Err(Error::DrainTaskDead)
        } else {
            Ok(())
        }
    }
}

proof fn lemma_signal_names()
    ensures
        "INT"@ != "TERM"@,
        "INT"@ != "KILL"@,
        "QUIT"@ != "TERM"@,
        "QUIT"@ != "KILL"@,
        "TSTP"@ != "TERM"@,
        "TSTP"@ != "KILL"@,
{
    reveal_strlit("INT");
    reveal_strlit("QUIT");
    reveal_strlit("TSTP");
    reveal_strlit("TERM");
    reveal_strlit("KILL");
    assert("INT"@.len() == 3 && "TERM"@.len() == 4 && "KILL"@.len() == 4);
    assert("QUIT"@[0] == 'Q' && "TERM"@[0] == 'T' && "KILL"@[0] == 'K');
    assert("TSTP"@[1] == 'S' && "TERM"@[1] == 'E' && "TSTP"@[0] == 'T');
}

// ---------------------------------------------------------------------------
// Sessions
// ---------------------------------------------------------------------------

/// What the daemon knows of a session.
#[derive(Debug)]
pub struct SessionHandle {
    pub id: String,
    pub connection_id: String,
    pub host: String,
    pub port: u16,
    pub username: String,
    pub cols: u32,
    pub rows: u32,
    pub reconnect: bool,
    pub connect_args: ConnectArgs,
    pub created_at: u64,
    pub cell: SessionCell,
}

/// What a [`SessionHandle`] says.
pub struct SessionView {
    pub id: Seq<char>,
    pub connection_id: Seq<char>,
    pub host: Seq<char>,
    pub port: u16,
    pub username: Seq<char>,
    pub cols: u32,
    pub rows: u32,
    pub reconnect: bool,
    pub connect_args: ConnectView,
    pub created_at: u64,
    pub cell: CellView,
}

impl View for SessionHandle {
    type V = SessionView;

    open spec fn view(&self) -> SessionView {
        SessionView {
            id: self.id@,
            connection_id: self.connection_id@,
            host: self.host@,
            port: self.port,
            username: self.username@,
            cols: self.cols,
            rows: self.rows,
            reconnect: self.reconnect,
            connect_args: self.connect_args@,
            created_at: self.created_at,
            cell: self.cell@,
        }
    }
}

/// A page of output in JSON.
pub open spec fn page_json(text: Seq<char>, offset: int, total: nat) -> JsonValue {
    JsonValue::Object(
        seq![
            ("text"@, JsonValue::Text(text)),
            ("offset"@, JsonValue::Number(offset)),
            ("total"@, JsonValue::Number(total as int)),
        ],
    )
}

/// The page that a read of `limit` bytes from `offset` finds, in JSON.
pub open spec fn page_of(b: BufferView, offset: int, limit: int, strip: bool) -> JsonValue {
    page_json(shown(b.page_bytes(offset, limit), strip), b.page_end(offset, limit), b.data.len())
}

/// The other sessions on the same connection.
pub open spec fn sharing(
    session_id: Seq<char>,
    connection_id: Seq<char>,
    sessions: Map<Seq<char>, SessionView>,
) -> Set<Seq<char>> {
    sessions.dom().filter(
        |id: Seq<char>| id != session_id && sessions[id].connection_id == connection_id,
    )
}

/// The other sessions on the same connection, in the order of their ids.
pub open spec fn siblings(
    session_id: Seq<char>,
    connection_id: Seq<char>,
    sessions: Map<Seq<char>, SessionView>,
) -> Seq<Seq<char>> {
    in_order(sharing(session_id, connection_id, sessions))
}

/// The texts of a list in JSON.
pub open spec fn text_list(items: Seq<Seq<char>>) -> JsonValue {
    JsonValue::List(Seq::new(items.len(), |i: int| JsonValue::Text(items[i])))
}

/// A session in JSON.
pub open spec fn summary_json(
    s: SessionView,
    sessions: Map<Seq<char>, SessionView>,
) -> JsonValue {
    JsonValue::Object(
        seq![
            ("id"@, JsonValue::Text(s.id)),
            ("connection_id"@, JsonValue::Text(s.connection_id)),
            ("host"@, JsonValue::Text(s.host)),
            ("port"@, JsonValue::Number(s.port as int)),
            ("username"@, JsonValue::Text(s.username)),
            ("status"@, JsonValue::Text(s.cell.status.text())),
            ("output_size"@, JsonValue::Number(s.cell.output.data.len() as int)),
            ("exit_status"@, optional_number(s.cell.exit_status)),
            (
                "exit_signal"@,
                JsonValue::Text(
                    match s.cell.exit_signal {
                        Some(name) => name,
                        None => Seq::empty(),
                    },
                ),
            ),
            ("reconnect"@, JsonValue::Bool(s.reconnect)),
            ("cols"@, JsonValue::Number(s.cols as int)),
            ("rows"@, JsonValue::Number(s.rows as int)),
            ("siblings"@, text_list(siblings(s.id, s.connection_id, sessions))),
            ("created_at"@, JsonValue::Number(s.created_at as int)),
            ("updated_at"@, JsonValue::Number(s.cell.updated_at as int)),
        ],
    )
}

fn text_or_none(s: &Option<String>) -> (r: String)
    ensures
        r@ == text_or_empty(*s),
{
    match s {
        Some(s) => s.clone(),
        None => {
            proof {
                reveal_strlit("");
                assert(""@ =~= Seq::<char>::empty());
            }
            "".to_owned()
        },
    }
}

impl SessionHandle {
    /// The next page of output. What it holds counts as read from then on.
    pub fn page_output(&mut self, offset: usize, limit: usize, do_strip: bool) -> (r: Json)
        ensures
            r@ == page_of(old(self)@.cell.output, offset as int, limit as int, do_strip),
            final(self)@ == (SessionView {
                cell: CellView {
                    output: old(self)@.cell.output.after_page(offset as int, limit as int),
                    ..old(self)@.cell
                },
                ..old(self)@
            }),
    {
        let (text, next_offset, total) = self.cell.output.read_page(offset, limit, do_strip);
        let mut f = Fields::new();
        f.put_text("text", text.as_str());
        f.put_u64("offset", next_offset as u64);
        f.put_u64("total", total as u64);
        let r = f.object();
        assert(r@->Object_0 =~= page_of(
            old(self)@.cell.output,
            offset as int,
            limit as int,
            do_strip,
        )->Object_0);
        r
    }

    /// The session in JSON, with the others among `all_sessions` that share
    /// its connection.
    pub fn summary(&self, all_sessions: &SortedMap<SessionHandle>) -> (r: Json)
        ensures
            r@ == summary_json(self@, viewed(all_sessions@)),
    {
        let ids = shared_with_ids(self.id.as_str(), self.connection_id.as_str(), all_sessions);
        let sibling_list = Json::texts(&ids);
        let mut f = Fields::new();
        f.put_text("id", self.id.as_str());
        f.put_text("connection_id", self.connection_id.as_str());
        f.put_text("host", self.host.as_str());
        f.put_u64("port", self.port as u64);
        f.put_text("username", self.username.as_str());
        f.put_text("status", self.cell.status.to_string().as_str());
        f.put_u64("output_size", self.cell.output.data.len() as u64);
        f.put_i32("exit_status", self.cell.exit_status);
        f.put_text("exit_signal", text_or_none(&self.cell.exit_signal).as_str());
        f.put_bool("reconnect", self.reconnect);
        f.put_u64("cols", self.cols as u64);
        f.put_u64("rows", self.rows as u64);
        proof {
            let names = siblings(self.id@, self.connection_id@, viewed(all_sessions@));
            assert(texts(ids@) == names);
            assert forall|i: int| 0 <= i < ids@.len() implies #[trigger] ids@[i]@ == names[i] by {
                assert(texts(ids@)[i] == ids@[i]@);
            }
            assert(sibling_list@->List_0 =~= text_list(names)->List_0);
        }
        f.put("siblings", sibling_list);
        f.put_u64("created_at", self.created_at);
        f.put_u64("updated_at", self.cell.updated_at);
        let r = f.object();
        assert(r@->Object_0 =~= summary_json(self@, viewed(all_sessions@))->Object_0);
        r
    }
}

/// The ids of the other sessions on a connection, in order.
pub fn shared_with_ids(
    session_id: &str,
    connection_id: &str,
    all_sessions: &SortedMap<SessionHandle>,
) -> (r: Vec<String>)
    ensures
        texts(r@) == siblings(session_id@, connection_id@, viewed(all_sessions@)),
{
    let keys = all_sessions.keys();
    let ghost order = texts(keys@);
    let ghost sessions = viewed(all_sessions@);
    let ghost shared = sharing(session_id@, connection_id@, sessions);
    let mut out: Vec<String> = Vec::new();
    let mut i: usize = 0;
    while i < keys.len()
        invariant
            i <= keys@.len(),
            order == texts(keys@),
            ascending(order),
            order.to_set() == all_sessions@.dom(),
            sessions == viewed(all_sessions@),
            shared == sharing(session_id@, connection_id@, sessions),
            ascending(texts(out@)),
            forall|k: Seq<char>| #[trigger]
                texts(out@).contains(k) == (order.take(i as int).contains(k) && shared.contains(k)),
        decreases keys@.len() - i,
    {
        let ghost before = texts(out@);
        let ghost seen = order.take(i as int);
        let ghost key = order[i as int];
        assert(key == keys@[i as int]@);
        assert(order.to_set().contains(key));
        let mut take = false;
        if !same_text(keys[i].as_str(), session_id) {
            if let Some(s) = all_sessions.get(keys[i].as_str()) {
                take = same_text(s.connection_id.as_str(), connection_id);
            }
        }
        assert(take == shared.contains(key));
        assert(order.take(i + 1) =~= seen.push(key));
        assert(forall|k: Seq<char>| #[trigger]
            seen.push(key).contains(k) == (seen.contains(k) || k == key)) by {
            assert forall|k: Seq<char>| #[trigger] seen.push(key).contains(k) == (seen.contains(k)
                || k == key) by {
                if seen.contains(k) {
                    let j = seen.index_of(k);
                    assert(seen.push(key)[j] == k);
                }
                if k == key {
                    assert(seen.push(key)[seen.len() as int] == k);
                }
            }
        }
        if take {
            out.push(keys[i].clone());
            proof {
                let after = texts(out@);
                assert(after =~= before.push(key));
                assert forall|a: int, b: int| 0 <= a < b < after.len() implies precedes(
                    #[trigger] after[a],
                    #[trigger] after[b],
                ) by {
                    if b == before.len() {
                        assert(before.contains(before[a]));
                        assert(seen.contains(before[a]));
                        let j = seen.index_of(before[a]);
                        assert(order[j] == before[a]);
                        assert(precedes(order[j], order[i as int]));
                    } else {
                        assert(precedes(before[a], before[b]));
                    }
                }
                assert forall|k: Seq<char>| #[trigger] after.contains(k) == (order.take(
                    i + 1,
                ).contains(k) && shared.contains(k)) by {
                    if before.contains(k) {
                        let j = before.index_of(k);
                        assert(after[j] == k);
                    }
                    if k == key {
                        assert(after[before.len() as int] == k);
                    }
                    if after.contains(k) {
                        let j = after.index_of(k);
                        if j < before.len() {
                            assert(before[j] == k);
                        }
                    }
                }
            }
        }
        i += 1;
    }
    proof {
        assert(order.take(i as int) =~= order);
        assert(sessions.dom() =~= all_sessions@.dom());
        assert(texts(out@).to_set() =~= shared) by {
            assert forall|k: Seq<char>| #[trigger] texts(out@).to_set().contains(k)
                == shared.contains(k) by {
                assert(texts(out@).contains(k) == (order.contains(k) && shared.contains(k)));
                if shared.contains(k) {
                    assert(order.to_set().contains(k));
                }
            }
        }
        lemma_listing(texts(out@), shared);
    }
    out
}

// ---------------------------------------------------------------------------
// Helpers
// ---------------------------------------------------------------------------

/// Input as it is typed into a terminal.
pub open spec fn typed(input: Seq<char>, crlf: bool) -> Seq<char> {
    if crlf {
        replaced(input, "\n"@, "\r\n"@)
    } else {
        input
    }
}

/// Turns every line feed into a carriage return and a line feed, if that is
/// asked for.
pub fn normalize_input(input: &str, crlf: bool) -> (r: String)
    ensures
        r@ == typed(input@, crlf),
{
    if crlf {
        replace_text(input, "\n", "\r\n")
    } else {
        input.to_owned()
    }
}

/// The answer to a request for output.
pub open spec fn output_answer(
    session_id: Seq<char>,
    output: JsonValue,
    status: StatusView,
    exit_status: Option<i32>,
    exit_signal: Option<Seq<char>>,
) -> JsonValue {
    JsonValue::Object(
        seq![
            ("ok"@, JsonValue::Bool(true)),
            ("session_id"@, JsonValue::Text(session_id)),
            ("output"@, output),
            ("status"@, JsonValue::Text(status.text())),
            ("exit_status"@, optional_number(exit_status)),
            (
                "exit_signal"@,
                JsonValue::Text(
                    match exit_signal {
                        Some(name) => name,
                        None => Seq::empty(),
                    },
                ),
            ),
        ],
    )
}

/// The answer to a request for output.
pub fn daemon_output_response(
    session_id: &str,
    output: Json,
    status: &SessionStatus,
    exit_status: Option<i32>,
    exit_signal: &Option<String>,
) -> (r: Json)
    ensures
        r@ == output_answer(session_id@, output@, status@, exit_status, text_of(*exit_signal)),
{
    let mut f = Fields::new();
    f.put_bool("ok", true);
    f.put_text("session_id", session_id);
    f.put("output", output);
    f.put_text("status", status.to_string().as_str());
    f.put_i32("exit_status", exit_status);
    f.put_text("exit_signal", text_or_none(exit_signal).as_str());
    let r = f.object();
    assert(r@->Object_0 =~= output_answer(
        session_id@,
        output@,
        status@,
        exit_status,
        text_of(*exit_signal),
    )->Object_0);
    r
}

// ---------------------------------------------------------------------------
// Patterns
// ---------------------------------------------------------------------------

/// Whether a regular expression, in which case does not count, matches
/// somewhere in a text; nothing where the pattern is no regular expression.
pub uninterp spec fn regex_found(pattern: Seq<char>, text: Seq<char>) -> Option<bool>;

/// `regex::RegexBuilder` with `case_insensitive(true)`, and `Regex::is_match`
/// on what it builds: a function of the pattern and the text. Which patterns
/// are regular expressions, and what they match, stays unsaid.
#[verifier::external_body]
fn regex_matches(pattern: &str, text: &str) -> (r: Option<bool>)
    ensures
        r == regex_found(pattern@, text@),
{
    match regex::RegexBuilder::new(pattern).case_insensitive(true).build() {
        Ok(compiled) => Some(compiled.is_match(text)),
        Err(_) => None,
    }
}

/// Whether output holds what was expected: as a regular expression, or as plain
/// text in which case does not count.
pub open spec fn expectation_met(
    text: Seq<char>,
    pattern: Seq<char>,
    found: Option<bool>,
) -> bool {
    found == Some(true) || has_text(lowercase_text(text), lowercase_text(pattern))
}

/// Whether output holds what was expected, given what the search for it as a
/// regular expression found.
pub fn output_matches_given(text: &str, pattern: &str, found: Option<bool>) -> (r: bool)
    ensures
        r == expectation_met(text@, pattern@, found),
{
    match found {
        Some(true) => true,
        _ => {
            let text_lower = lowercase(text);
            let pattern_lower = lowercase(pattern);
            contains_text(text_lower.as_str(), pattern_lower.as_str())
        },
    }
}

/// Whether output holds what was expected.
pub fn output_matches_str(haystack: &str, pattern: &str) -> (r: bool)
    ensures
        r == expectation_met(haystack@, pattern@, regex_found(pattern@, haystack@)),
{
    let found = regex_matches(pattern, haystack);
    output_matches_given(haystack, pattern, found)
}

// ---------------------------------------------------------------------------
// Laws
// ---------------------------------------------------------------------------

/// That the task of a session has ended is noted exactly when it ends; and a
/// channel that ends leaves no session running.
pub proof fn ended_tasks_are_noted(
    cell: CellView,
    event: ChannelEvent,
    now: u64,
    reconnect: bool,
)
    ensures
        ({
            let (after, goes_on) = cell.after_event(event, now, reconnect);
            &&& after.drain_dead == (cell.drain_dead || !goes_on)
            &&& !goes_on ==> after.status != StatusView::Running
        }),
{
}

/// A session that has exited stays so whatever arrives on its channel, and keeps
/// its exit code unless another one arrives.
pub proof fn exited_sessions_stay_exited(
    cell: CellView,
    event: ChannelEvent,
    now: u64,
    reconnect: bool,
)
    requires
        cell.status == StatusView::Exited,
    ensures
        ({
            let after = cell.after_event(event, now, reconnect).0;
            &&& after.status == StatusView::Exited
            &&& !(event is ExitStatus) ==> after.exit_status == cell.exit_status
        }),
{
}

/// Siblings are so mutually: of two sessions, each is listed with the other, or
/// neither is.
pub proof fn siblings_are_mutual(
    sessions: Map<Seq<char>, SessionView>,
    a: Seq<char>,
    b: Seq<char>,
)
    requires
        sessions.dom().finite(),
        sessions.contains_key(a),
        sessions.contains_key(b),
    ensures
        siblings(a, sessions[a].connection_id, sessions).contains(b) <==> siblings(
            b,
            sessions[b].connection_id,
            sessions,
        ).contains(a),
        siblings(a, sessions[a].connection_id, sessions).contains(b) <==> a != b
            && sessions[a].connection_id == sessions[b].connection_id,
{
    lemma_sibling(sessions, a, b);
    lemma_sibling(sessions, b, a);
}

proof fn lemma_sibling(sessions: Map<Seq<char>, SessionView>, a: Seq<char>, b: Seq<char>)
    requires
        sessions.dom().finite(),
        sessions.contains_key(b),
    ensures
        siblings(a, sessions[a].connection_id, sessions).contains(b) <==> a != b
            && sessions[a].connection_id == sessions[b].connection_id,
{
    let connection_id = sessions[a].connection_id;
    let others = sharing(a, connection_id, sessions);
    lemma_in_order(others);
    assert(in_order(others).to_set().contains(b) == others.contains(b));
}

/// An exit code is the number that the remote side sent. Numbers of 32 bits that
/// have their highest bit set are negative, and different numbers stay different.
pub proof fn exit_codes_are_the_numbers_sent(code: u32, other: u32)
    ensures
        code <= 0x7fff_ffff ==> signed_code(code) as int == code as int,
        code > 0x7fff_ffff ==> signed_code(code) as int == code as int - 0x1_0000_0000,
        signed_code(code) == signed_code(other) ==> code == other,
{
}

/// What arrives on the channel of a session: output and what is said on the
/// error channel are added to what was put out, an exit code and a signal are
/// noted and end the session, the end of the channel closes it, and all else
/// changes nothing.
pub proof fn what_arrives_is_noted(
    cell: CellView,
    event: ChannelEvent,
    now: u64,
    reconnect: bool,
)
    ensures
        ({
            let (after, goes_on) = cell.after_event(event, now, reconnect);
            match event {
                ChannelEvent::Data(data) => {
                    &&& goes_on
                    &&& after == (CellView {
                        output: cell.output.extended(data@),
                        updated_at: now,
                        ..cell
                    })
                },
                ChannelEvent::ExtendedData { ext, data } => {
                    &&& goes_on
                    &&& ext == 1 ==> after == (CellView {
                        output: cell.output.extended(data@),
                        updated_at: now,
                        ..cell
                    })
                    &&& ext != 1 ==> after == cell
                },
                ChannelEvent::ExitStatus(code) => {
                    &&& goes_on
                    &&& after.status == StatusView::Exited
                    &&& after.exit_status is Some
                    &&& code <= 0x7fff_ffff ==> after.exit_status->0 as int == code as int
                    &&& after.exit_signal == cell.exit_signal
                    &&& after.output == cell.output
                    &&& after.updated_at == now
                },
                ChannelEvent::ExitSignal { signal, error_message } => {
                    &&& goes_on
                    &&& after.status == StatusView::Exited
                    &&& after.exit_signal is Some
                    &&& signal is Custom ==> after.exit_signal->0 == signal->Custom_0@
                    &&& signal is Kill ==> after.exit_signal->0 == "KILL"@
                    &&& signal is Term ==> after.exit_signal->0 == "TERM"@
                    &&& signal is Int ==> after.exit_signal->0 == "INT"@
                    &&& signal is Hup ==> after.exit_signal->0 == "HUP"@
                    &&& signal is Segv ==> after.exit_signal->0 == "SEGV"@
                    &&& signal is Abrt ==> after.exit_signal->0 == "ABRT"@
                    &&& signal is Alrm ==> after.exit_signal->0 == "ALRM"@
                    &&& signal is Fpe ==> after.exit_signal->0 == "FPE"@
                    &&& signal is Ill ==> after.exit_signal->0 == "ILL"@
                    &&& signal is Pipe ==> after.exit_signal->0 == "PIPE"@
                    &&& signal is Quit ==> after.exit_signal->0 == "QUIT"@
                    &&& signal is Usr1 ==> after.exit_signal->0 == "USR1"@
                    &&& after.exit_status == cell.exit_status
                    &&& error_message@.len() == 0 ==> after.output == cell.output
                    &&& error_message@.len() > 0 ==> after.output == cell.output.extended(
                        encode_utf8("\r\n[signal: "@ + error_message@ + "]\r\n"@),
                    )
                    &&& after.updated_at == now
                },
                ChannelEvent::Eof | ChannelEvent::Close => {
                    &&& !goes_on
                    &&& after.drain_dead
                    &&& cell.status != StatusView::Exited ==> after.status == StatusView::Closed
                    &&& cell.status == StatusView::Exited ==> after.status == StatusView::Exited
                    &&& after.exit_status == cell.exit_status
                    &&& after.exit_signal == cell.exit_signal
                    &&& after.output == cell.output
                    &&& after.updated_at == now
                },
                ChannelEvent::Ended => {
                    &&& !goes_on
                    &&& after.drain_dead
                    &&& after.exit_status == cell.exit_status
                    &&& after.exit_signal == cell.exit_signal
                    &&& after.output == cell.output
                    &&& cell.status == StatusView::Running && reconnect ==> after.status
                        == StatusView::Disconnected
                    &&& cell.status == StatusView::Running && !reconnect ==> after.status
                        == StatusView::Closed
                    &&& cell.status != StatusView::Running ==> after.status == cell.status
                },
                ChannelEvent::Other => goes_on && after == cell,
            }
        }),
{
}

/// What the task does when it is told something. Input is sent as it is. The
/// signals that a terminal has a key for are typed, byte by byte: 3 for INT, 28
/// for QUIT, 26 for TSTP. TERM, KILL and closing end the session; other signals
/// do nothing.
pub proof fn commands_are_carried_out(
    cell: CellView,
    command: SessionCmd,
    action: DrainAction,
    after: CellView,
    goes_on: bool,
)
    requires
        commanded(cell, Some(command), action, after, goes_on),
    ensures
        match command {
            SessionCmd::Send { data } => goes_on && after == cell && action is Send
                && action->Send_0@ == data@,
            SessionCmd::Resize { cols, rows } => goes_on && after == cell && action
                == (DrainAction::WindowChange { cols, rows }),
            SessionCmd::Close => !goes_on && action is Eof && after.status == StatusView::Closed
                && after.drain_dead && after.output == cell.output && after.exit_status
                == cell.exit_status,
            SessionCmd::Signal { signal } => {
                &&& signal@ == "INT"@ ==> goes_on && after == cell && action == DrainAction::Type(3)
                &&& signal@ == "QUIT"@ ==> goes_on && after == cell && action == DrainAction::Type(
                    28,
                )
                &&& signal@ == "TSTP"@ ==> goes_on && after == cell && action == DrainAction::Type(
                    26,
                )
                &&& signal@ == "TERM"@ || signal@ == "KILL"@ ==> !goes_on && action is Eof
                    && after.status == StatusView::Closed && after.drain_dead && after.output
                    == cell.output
                &&& signal@ != "INT"@ && signal@ != "QUIT"@ && signal@ != "TSTP"@ && signal@
                    != "TERM"@ && signal@ != "KILL"@ ==> goes_on && after == cell && action
                    is Nothing
            },
        },
{
    lemma_signal_names();
    reveal_strlit("INT");
    reveal_strlit("QUIT");
    reveal_strlit("TSTP");
    assert("INT"@.len() == 3 && "QUIT"@.len() == 4 && "TSTP"@.len() == 4);
    assert("QUIT"@[0] == 'Q' && "TSTP"@[0] == 'T');
}

/// Every line feed of input becomes a carriage return and a line feed where that
/// is asked for, and nothing else changes.
pub proof fn line_feeds_are_typed_as_returns(line: Seq<char>, rest: Seq<char>)
    requires
        !line.contains('\n'),
    ensures
        typed(line.push('\n') + rest, true) == line + seq!['\r', '\n'] + typed(rest, true),
        typed(line, true) == line,
        typed(rest, false) == rest,
{
    reveal_strlit("\n");
    reveal_strlit("\r\n");
    assert("\n"@ =~= seq!['\n']);
    assert("\r\n"@ =~= seq!['\r', '\n']);
    let find = "\n"@;
    let s = line + find + rest;
    assert(s =~= line.push('\n') + rest);
    assert forall|i: int| 0 <= i < line.len() implies #[trigger] s.subrange(i, i + find.len())
        != find by {
        assert(s.subrange(i, i + find.len())[0] == line[i]);
        assert(line.contains(line[i]));
    }
    occurrences_are_replaced(line, find, rest, "\r\n"@);
    assert forall|i: int| 0 <= i <= line.len() - find.len() implies #[trigger] line.subrange(
        i,
        i + find.len(),
    ) != find by {
        assert(line.subrange(i, i + find.len())[0] == line[i]);
        assert(line.contains(line[i]));
    }
    the_rest_is_kept(line, find, "\r\n"@);
}

/// Output holds what was expected where it matches as a regular expression, or
/// where it holds the pattern as it is, wherever in the output and whatever the
/// case of the letters of ASCII.
pub proof fn expected_text_is_found(
    text: Seq<char>,
    pattern: Seq<char>,
    before: Seq<char>,
    behind: Seq<char>,
    found: Option<bool>,
)
    ensures
        found == Some(true) ==> expectation_met(text, pattern, found),
        lowercase_text(text) == before + lowercase_text(pattern) + behind ==> expectation_met(
            text,
            pattern,
            found,
        ),
        found != Some(true) && expectation_met(text, pattern, found) ==> exists|
            a: Seq<char>,
            b: Seq<char>,
        |
            lowercase_text(text) == #[trigger] (a + lowercase_text(pattern) + b),
{
    holding_is_standing_between(lowercase_text(text), lowercase_text(pattern));
}

/// A page says what was read, how far, and how much there is.
pub proof fn pages_say_what_was_read(b: BufferView, offset: int, limit: int, strip: bool)
    requires
        b.wf(),
        0 <= limit,
    ensures
        ({
            let fields = page_of(b, offset, limit, strip)->Object_0;
            let from = if offset < b.cursor {
                b.cursor
            } else {
                offset
            };
            let to = if from + limit < b.data.len() {
                from + limit
            } else {
                b.data.len() as int
            };
            &&& page_of(b, offset, limit, strip) is Object
            &&& from < b.data.len() && to > from ==> fields.contains(
                (
                    "text"@,
                    JsonValue::Text(
                        if strip {
                            crate::ansi::stripped(crate::text::lossy_text(b.data.subrange(from, to)))
                        } else {
                            crate::text::lossy_text(b.data.subrange(from, to))
                        },
                    ),
                ),
            )
            &&& from >= b.data.len() || to == from ==> fields.contains(
                ("text"@, JsonValue::Text(Seq::empty())),
            )
            &&& from < b.data.len() ==> fields.contains(("offset"@, JsonValue::Number(to)))
            &&& fields.contains(("total"@, JsonValue::Number(b.data.len() as int)))
        }),
{
    let page = page_of(b, offset, limit, strip);
    let fields = page->Object_0;
    assert(fields[0].0 == "text"@ && fields[1].0 == "offset"@ && fields[2].0 == "total"@);
    assert(fields.contains(fields[0]) && fields.contains(fields[1]) && fields.contains(fields[2]));
}

/// A session is described by what is known of it.
pub proof fn summaries_say_what_is_known(s: SessionView, sessions: Map<Seq<char>, SessionView>)
    ensures
        ({
            let fields = summary_json(s, sessions)->Object_0;
            &&& summary_json(s, sessions) is Object
            &&& fields.contains(("id"@, JsonValue::Text(s.id)))
            &&& fields.contains(("connection_id"@, JsonValue::Text(s.connection_id)))
            &&& fields.contains(("host"@, JsonValue::Text(s.host)))
            &&& fields.contains(("port"@, JsonValue::Number(s.port as int)))
            &&& fields.contains(("username"@, JsonValue::Text(s.username)))
            &&& fields.contains(("status"@, JsonValue::Text(s.cell.status.text())))
            &&& fields.contains(
                ("output_size"@, JsonValue::Number(s.cell.output.data.len() as int)),
            )
            &&& s.cell.exit_status is None ==> fields.contains(("exit_status"@, JsonValue::Null))
            &&& s.cell.exit_status is Some ==> fields.contains(
                ("exit_status"@, JsonValue::Number(s.cell.exit_status->0 as int)),
            )
            &&& s.cell.exit_signal is Some ==> fields.contains(
                ("exit_signal"@, JsonValue::Text(s.cell.exit_signal->0)),
            )
            &&& s.cell.exit_signal is None ==> fields.contains(
                ("exit_signal"@, JsonValue::Text(Seq::empty())),
            )
            &&& fields.contains(("reconnect"@, JsonValue::Bool(s.reconnect)))
            &&& fields.contains(("cols"@, JsonValue::Number(s.cols as int)))
            &&& fields.contains(("rows"@, JsonValue::Number(s.rows as int)))
            &&& fields.contains(("created_at"@, JsonValue::Number(s.created_at as int)))
            &&& fields.contains(("updated_at"@, JsonValue::Number(s.cell.updated_at as int)))
            &&& fields.contains(
                ("siblings"@, text_list(siblings(s.id, s.connection_id, sessions))),
            )
        }),
{
    let fields = summary_json(s, sessions)->Object_0;
    assert(fields.len() == 15);
    assert forall|i: int| 0 <= i < 15 implies fields.contains(#[trigger] fields[i]) by {}
    assert(fields[0].0 == "id"@ && fields[1].0 == "connection_id"@ && fields[2].0 == "host"@);
    assert(fields[3].0 == "port"@ && fields[4].0 == "username"@ && fields[5].0 == "status"@);
    assert(fields[6].0 == "output_size"@ && fields[7].0 == "exit_status"@);
    assert(fields[8].0 == "exit_signal"@ && fields[9].0 == "reconnect"@);
    assert(fields[10].0 == "cols"@ && fields[11].0 == "rows"@);
    assert(fields[12] == ("siblings"@, text_list(siblings(s.id, s.connection_id, sessions))));
    assert(fields[13].0 == "created_at"@ && fields[14].0 == "updated_at"@);
}

/// The answer to a request for output says where the output is from, and how the
/// session is doing.
pub proof fn output_answers_say_how_it_is_going(
    session_id: Seq<char>,
    output: JsonValue,
    status: StatusView,
    exit_status: Option<i32>,
    exit_signal: Option<Seq<char>>,
)
    ensures
        ({
            let answer = output_answer(session_id, output, status, exit_status, exit_signal);
            let fields = answer->Object_0;
            &&& answer is Object
            &&& fields.contains(("ok"@, JsonValue::Bool(true)))
            &&& fields.contains(("session_id"@, JsonValue::Text(session_id)))
            &&& fields.contains(("output"@, output))
            &&& fields.contains(("status"@, JsonValue::Text(status.text())))
            &&& exit_status is None ==> fields.contains(("exit_status"@, JsonValue::Null))
            &&& exit_status is Some ==> fields.contains(
                ("exit_status"@, JsonValue::Number(exit_status->0 as int)),
            )
            &&& exit_signal is Some ==> fields.contains(
                ("exit_signal"@, JsonValue::Text(exit_signal->0)),
            )
        }),
{
    let fields = output_answer(session_id, output, status, exit_status, exit_signal)->Object_0;
    assert(fields.len() == 6);
    assert forall|i: int| 0 <= i < 6 implies fields.contains(#[trigger] fields[i]) by {}
    assert(fields[0].0 == "ok"@ && fields[1].0 == "session_id"@ && fields[2].0 == "output"@);
    assert(fields[3].0 == "status"@ && fields[4].0 == "exit_status"@ && fields[5].0
        == "exit_signal"@);
}

/// The words for how a session is doing.
pub proof fn statuses_have_their_words(message: Seq<char>)
    ensures
        StatusView::Running.text() == "running"@,
        StatusView::Exited.text() == "exited"@,
        StatusView::Closed.text() == "closed"@,
        StatusView::Disconnected.text() == "disconnected"@,
        StatusView::Error(message).text() == "error: "@ + message,
{
}

/// A list of texts holds these texts, in order.
pub proof fn lists_hold_their_texts(items: Seq<Seq<char>>)
    ensures
        text_list(items) is List,
        text_list(items)->List_0.len() == items.len(),
        forall|i: int|
            0 <= i < items.len() ==> #[trigger] text_list(items)->List_0[i] == JsonValue::Text(
                items[i],
            ),
{
}

/// A session that cannot be sent anything has failed, with the failure as its
/// status; one that has a channel again runs; one that was ended is closed. What
/// it has put out is kept each time.
pub proof fn sessions_change_and_keep_their_output(cell: CellView, error: Seq<char>)
    ensures
        cell.failed(error).status == StatusView::Error(error),
        cell.failed(error).drain_dead,
        cell.failed(error).output == cell.output,
        cell.failed(error).exit_status == cell.exit_status,
        cell.reconnected().status == StatusView::Running,
        !cell.reconnected().drain_dead,
        cell.reconnected().output == cell.output.extended(
            encode_utf8("\r\n[AgentSSH] session reconnected\r\n"@),
        ),
        cell.reconnected().exit_status == cell.exit_status,
        cell.closed().status == StatusView::Closed,
        cell.closed().drain_dead,
        cell.closed().output == cell.output,
{
}

/// A read behind the end says where it stands, and finds nothing.
pub proof fn reads_behind_the_end_say_where_they_stand(
    b: BufferView,
    offset: int,
    limit: int,
    strip: bool,
)
    requires
        b.wf(),
        offset >= b.data.len(),
    ensures
        page_of(b, offset, limit, strip)->Object_0.contains(("offset"@, JsonValue::Number(offset))),
        page_of(b, offset, limit, strip)->Object_0.contains(
            ("text"@, JsonValue::Text(Seq::empty())),
        ),
{
    let f = page_of(b, offset, limit, strip)->Object_0;
    assert(f[0].0 == "text"@ && f[1].0 == "offset"@);
    assert(f.contains(f[0]) && f.contains(f[1]));
}

} // verus!
