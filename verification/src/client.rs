//! The side of the command line: talking to the daemon and printing what it
//! says.

use crate::cli::ReadCommand;
use crate::error::Error;
use crate::json::{Fields, Json, JsonValue};
use crate::printing::{
    enveloped, failure, failure_json, print_json, CommandOutput, CommandOutputView, Printout,
    PrintoutView,
};
use crate::protocol::{ResponseView, WireResponse};
use crate::text::{
    cat3, is_white, same_text, trim, trimmed, trimming_takes_white_space_from_the_ends,
};
use vstd::prelude::*;
use vstd::string::*;

verus! {

// ---------------------------------------------------------------------------
// Printing an answer
// ---------------------------------------------------------------------------

/// The text at the field `outer`, or at the field `inner` of the field `outer`.
pub open spec fn text_at(data: JsonValue, outer: Seq<char>, inner: Seq<char>) -> Option<Seq<char>> {
    match data.field(outer) {
        Some(value) => match value.field(inner) {
            Some(value) => value.text(),
            None => None,
        },
        None => None,
    }
}

/// The text at the field `key`.
pub open spec fn text_field(data: JsonValue, key: Seq<char>) -> Option<Seq<char>> {
    match data.field(key) {
        Some(value) => value.text(),
        None => None,
    }
}

/// Text that is printed as it is, unless there is none.
pub open spec fn raw_unless_empty(text: Seq<char>) -> Seq<PrintoutView> {
    if text.len() == 0 {
        Seq::empty()
    } else {
        seq![PrintoutView::Raw(text)]
    }
}

/// The number at the field `key`, where it is an exit code.
pub open spec fn code_field(data: JsonValue, key: Seq<char>) -> Option<i32> {
    match data.field(key) {
        Some(JsonValue::Number(n)) => if i32::MIN <= n <= i32::MAX {
            Some(n as i32)
        } else {
            None
        },
        _ => None,
    }
}

/// What is printed of an answer for human readers: the output of a session, the
/// output of a command, the contents of a file, or else all of it. A command
/// that failed makes the program fail with its exit code.
pub open spec fn human(data: JsonValue) -> CommandOutputView {
    match text_at(data, "output"@, "text"@) {
        Some(text) => CommandOutputView {
            stdout: raw_unless_empty(text),
            stderr: Seq::empty(),
            exit_code: 0,
        },
        None => match text_field(data, "stdout"@) {
            Some(stdout) => CommandOutputView {
                stdout: raw_unless_empty(stdout),
                stderr: match text_field(data, "stderr"@) {
                    Some(stderr) => stderr,
                    None => Seq::empty(),
                },
                exit_code: match code_field(data, "exit_code"@) {
                    Some(code) => code,
                    None => 0,
                },
            },
            None => match text_field(data, "content"@) {
                Some(content) => CommandOutputView::of(PrintoutView::Raw(content)),
                None => CommandOutputView::of(PrintoutView::Pretty(data)),
            },
        },
    }
}

fn str_field<'a>(data: &'a Json, key: &str) -> (r: Option<&'a str>)
    ensures
        match r {
            Some(s) => text_field(data@, key@) == Some(s@),
            None => text_field(data@, key@) is None,
        },
{
    match data.get(key) {
        Some(value) => value.as_str(),
        None => None,
    }
}

fn str_at<'a>(data: &'a Json, outer: &str, inner: &str) -> (r: Option<&'a str>)
    ensures
        match r {
            Some(s) => text_at(data@, outer@, inner@) == Some(s@),
            None => text_at(data@, outer@, inner@) is None,
        },
{
    match data.get(outer) {
        Some(value) => str_field(value, inner),
        None => None,
    }
}

fn exit_code_at(data: &Json, key: &str) -> (r: i32)
    ensures
        r == match code_field(data@, key@) {
            Some(code) => code,
            None => 0,
        },
{
    match data.get(key) {
        Some(Json::Int(n)) => if -2147483648 <= *n && *n <= 2147483647 {
            *n as i32
        } else {
            0
        },
        Some(Json::Uint(n)) => if *n <= 2147483647 {
            *n as i32
        } else {
            0
        },
        _ => 0,
    }
}

fn printed_text(text: &str) -> (r: CommandOutput)
    ensures
        r@ == (CommandOutputView {
            stdout: raw_unless_empty(text@),
            stderr: Seq::empty(),
            exit_code: 0,
        }),
{
    if text.is_empty() {
        CommandOutput::silent()
    } else {
        CommandOutput::of(Printout::Raw(text.to_owned()))
    }
}

/// What is printed of an answer for human readers.
pub fn print_human(data: Json) -> (r: CommandOutput)
    ensures
        r@ == human(data@),
{
    if let Some(text) = str_at(&data, "output", "text") {
        return printed_text(text);
    }
    if let Some(stdout) = str_field(&data, "stdout") {
        let mut r = printed_text(stdout);
        if let Some(stderr) = str_field(&data, "stderr") {
            r.stderr = stderr.to_owned();
        }
        r.exit_code = exit_code_at(&data, "exit_code");
        return r;
    }
    if let Some(content) = str_field(&data, "content") {
        return CommandOutput::of(Printout::Raw(content.to_owned()));
    }
    CommandOutput::of(Printout::Pretty(data))
}

/// What is printed of a refusal.
pub open spec fn refusal_printed(json: bool, message: Seq<char>) -> CommandOutputView {
    if json {
        CommandOutputView {
            stdout: seq![PrintoutView::Compact(failure(message))],
            stderr: Seq::empty(),
            exit_code: 1,
        }
    } else {
        CommandOutputView {
            stdout: Seq::empty(),
            stderr: "error: "@ + message + "\n"@,
            exit_code: 1,
        }
    }
}

fn print_refusal(json: bool, message: &str) -> (r: CommandOutput)
    ensures
        r@ == refusal_printed(json, message@),
{
    if json {
        let mut r = CommandOutput::of(Printout::Compact(failure_json(message)));
        r.exit_code = 1;
        r
    } else {
        let mut r = CommandOutput::silent();
        r.stderr = cat3("error: ", message, "\n");
        r.exit_code = 1;
        r
    }
}

/// What is printed of an answer of the daemon.
pub open spec fn answer_printed(response: ResponseView, json: bool) -> CommandOutputView {
    match response {
        ResponseView { ok: true, data: Some(data), .. } => if json {
            CommandOutputView::of(PrintoutView::Pretty(enveloped(data)))
        } else {
            human(data)
        },
        ResponseView { ok: false, error: Some(message), .. } => refusal_printed(json, message),
        ResponseView { ok: true, data: None, .. } => if json {
            CommandOutputView::of(
                PrintoutView::Compact(JsonValue::Object(seq![("ok"@, JsonValue::Bool(true))])),
            )
        } else {
            CommandOutputView::silent()
        },
        _ => CommandOutputView::silent(),
    }
}

/// What is printed of an answer of the daemon.
pub fn run_client(response: WireResponse, json_output: bool) -> (r: CommandOutput)
    ensures
        r@ == answer_printed(response@, json_output),
{
    match response {
        WireResponse { ok: true, data: Some(data), .. } => {
            if json_output {
                CommandOutput::of(print_json(data))
            } else {
                print_human(data)
            }
        },
        WireResponse { ok: false, error: Some(message), .. } => print_refusal(
            json_output,
            message.as_str(),
        ),
        WireResponse { ok: true, data: None, .. } => {
            if json_output {
                let mut f = Fields::new();
                f.put_bool("ok", true);
                CommandOutput::of(Printout::Compact(f.object()))
            } else {
                CommandOutput::silent()
            }
        },
        _ => CommandOutput::silent(),
    }
}

// ---------------------------------------------------------------------------
// Following output
// ---------------------------------------------------------------------------

/// How long the daemon waits before each answer when output is followed.
pub const FOLLOW_WAIT_MS: u64 = 500;

/// Output that is being followed.
#[derive(Debug)]
pub struct Follow {
    pub session_id: String,
    /// Where the first read begins, if not at the cursor.
    pub offset: Option<usize>,
    pub limit: usize,
    pub raw: bool,
    pub timeout: Option<u64>,
}

/// Whether `request` asks for the next part of what is being followed.
pub open spec fn follows(f: Follow, request: ReadCommand) -> bool {
    &&& request.session_id@ == f.session_id@
    &&& request.offset == f.offset
    &&& request.limit == f.limit
    &&& request.wait_ms == FOLLOW_WAIT_MS
    &&& !request.follow
    &&& request.raw == f.raw
    &&& !request.strip_ansi
    &&& request.timeout == f.timeout
}

/// The word for a session's status in an answer.
pub open spec fn status_in(data: JsonValue) -> Seq<char> {
    match text_field(data, "status"@) {
        Some(status) => status,
        None => "unknown"@,
    }
}

/// What is printed of an answer while output is followed.
pub open spec fn followed_printed(response: ResponseView, json: bool) -> CommandOutputView {
    match response {
        ResponseView { ok: true, data: Some(data), .. } => if json {
            CommandOutputView::of(PrintoutView::Compact(data))
        } else {
            CommandOutputView {
                stdout: match text_at(data, "output"@, "text"@) {
                    Some(text) => raw_unless_empty(text),
                    None => Seq::empty(),
                },
                stderr: Seq::empty(),
                exit_code: 0,
            }
        },
        ResponseView { ok: false, error: Some(message), .. } => CommandOutputView {
            exit_code: 0,
            ..refusal_printed(json, message)
        },
        _ => CommandOutputView::silent(),
    }
}

/// Whether following goes on after an answer: as long as the session runs and
/// the time is not up.
pub open spec fn follow_goes_on(
    response: ResponseView,
    timeout: Option<u64>,
    elapsed_ms: u64,
) -> bool {
    match response {
        ResponseView { ok: true, data: Some(data), .. } => status_in(data) == "running"@
            && match timeout {
            Some(ms) => elapsed_ms <= ms,
            None => true,
        },
        _ => false,
    }
}

/// What is followed after an answer: from then on, reads begin at the cursor.
pub open spec fn followed(f: Follow) -> Follow {
    Follow { offset: None, ..f }
}

impl Follow {
    /// Begins to follow the output that `command` asks for.
    pub fn start(command: ReadCommand) -> (r: Self)
        ensures
            r.session_id == command.session_id,
            r.offset == command.offset,
            r.limit == command.limit,
            r.raw == command.raw,
            r.timeout == command.timeout,
    {
        Follow {
            session_id: command.session_id,
            offset: command.offset,
            limit: command.limit,
            raw: command.raw,
            timeout: command.timeout,
        }
    }

    /// The request for the next part.
    pub fn request(&self) -> (r: ReadCommand)
        ensures
            follows(*self, r),
    {
        ReadCommand {
            session_id: self.session_id.clone(),
            offset: self.offset,
            limit: self.limit,
            wait_ms: FOLLOW_WAIT_MS,
            follow: false,
            raw: self.raw,
            strip_ansi: false,
            timeout: self.timeout,
        }
    }

    /// Takes in the answer to a request, after so many milliseconds in all. Says
    /// what to print, and whether to go on. From the second request on, reads
    /// begin at the cursor, which stands where the last one ended.
    pub fn on_response(&mut self, response: WireResponse, json_output: bool, elapsed_ms: u64) -> (r: (
        CommandOutput,
        bool,
    ))
        ensures
            r.0@ == followed_printed(response@, json_output),
            r.1 == follow_goes_on(response@, old(self).timeout, elapsed_ms),
            *final(self) == followed(*old(self)),
    {
        self.offset = None;
        match response {
            WireResponse { ok: true, data: Some(data), .. } => {
                let running = match str_field(&data, "status") {
                    Some(status) => same_text(status, "running"),
                    None => {
                        proof {
                            reveal_strlit("unknown");
                            reveal_strlit("running");
                            assert("unknown"@[0] == 'u' && "running"@[0] == 'r');
                        }
                        false
                    },
                };
                let in_time = match self.timeout {
                    Some(ms) => elapsed_ms <= ms,
                    None => true,
                };
                let printed = if json_output {
                    CommandOutput::of(Printout::Compact(data))
                } else {
                    match str_at(&data, "output", "text") {
                        Some(text) => printed_text(text),
                        None => CommandOutput::silent(),
                    }
                };
                (printed, running && in_time)
            },
            WireResponse { ok: false, error: Some(message), .. } => {
                let mut printed = print_refusal(json_output, message.as_str());
                printed.exit_code = 0;
                (printed, false)
            },
            _ => (CommandOutput::silent(), false),
        }
    }
}

/// How a read is carried out.
#[derive(Debug)]
pub enum ReadPlan {
    /// With one request.
    Once(ReadCommand),
    /// With one request after the other.
    Follow(Follow),
}

/// How a read is carried out: with one request, or with one after the other.
pub open spec fn read_plan(command: ReadCommand) -> ReadPlan {
    if command.follow {
        ReadPlan::Follow(
            Follow {
                session_id: command.session_id,
                offset: command.offset,
                limit: command.limit,
                raw: command.raw,
                timeout: command.timeout,
            },
        )
    } else {
        ReadPlan::Once(command)
    }
}

/// How a read is carried out.
pub fn run_read_command(command: ReadCommand) -> (r: ReadPlan)
    ensures
        r == read_plan(command),
{
    if command.follow {
        ReadPlan::Follow(Follow::start(command))
    } else {
        ReadPlan::Once(command)
    }
}

// ---------------------------------------------------------------------------
// Starting and asking the daemon
// ---------------------------------------------------------------------------

/// How long a daemon that was started has to answer, in milliseconds.
pub const DAEMON_START_MS: u64 = 5_000;

/// How long to wait before trying to reach it again, in milliseconds.
pub const DAEMON_POLL_MS: u64 = 100;

/// How the wait for a daemon goes on.
#[derive(Debug, Clone, Copy, PartialEq, Eq, Structural)]
pub enum DaemonWait {
    /// It can be reached.
    Ready,
    /// Wait so many milliseconds, and try again.
    Sleep(u64),
}

/// How the wait goes on for a daemon that was started `elapsed_ms` ago, given
/// whether it can be reached.
pub open spec fn daemon_wait(reachable: bool, elapsed_ms: u64) -> Result<DaemonWait, Error> {
    if reachable {
        Ok(DaemonWait::Ready)
    } else if elapsed_ms > DAEMON_START_MS {
        Err(Error::DaemonNotStarted)
    } else {
        Ok(DaemonWait::Sleep(DAEMON_POLL_MS))
    }
}

/// How the wait goes on for a daemon that was started.
pub fn ensure_daemon(reachable: bool, elapsed_ms: u64) -> (r: Result<DaemonWait, Error>)
    ensures
        r == daemon_wait(reachable, elapsed_ms),
{
    if reachable {
        Ok(DaemonWait::Ready)
    } else if elapsed_ms > DAEMON_START_MS {
        Err(Error::DaemonNotStarted)
    } else {
        Ok(DaemonWait::Sleep(DAEMON_POLL_MS))
    }
}

/// What is printed when the daemon is asked for its status and does not run.
pub open spec fn not_running(json: bool) -> PrintoutView {
    if json {
        PrintoutView::Compact(JsonValue::Object(seq![("running"@, JsonValue::Bool(false))]))
    } else {
        PrintoutView::Line("Daemon is not running"@)
    }
}

/// What is printed when the daemon is asked for its status and does not run.
pub fn daemon_not_running(json: bool) -> (r: CommandOutput)
    ensures
        r@ == CommandOutputView::of(not_running(json)),
{
    if json {
        let mut f = Fields::new();
        f.put_bool("running", false);
        CommandOutput::of(Printout::Compact(f.object()))
    } else {
        CommandOutput::of(Printout::Line("Daemon is not running".to_owned()))
    }
}

/// The request in a line from a client. Empty lines hold none.
pub open spec fn request_in(line: Seq<char>) -> Option<Seq<char>> {
    if trimmed(line).len() > 0 {
        Some(trimmed(line))
    } else {
        None
    }
}

/// The request in a line from a client. Empty lines hold none.
pub fn request_line(line: &str) -> (r: Option<String>)
    ensures
        match r {
            Some(text) => request_in(line@) == Some(text@),
            None => request_in(line@) is None,
        },
{
    let text = trim(line);
    if text.as_str().is_empty() {
        None
    } else {
        Some(text)
    }
}

// ---------------------------------------------------------------------------
// Laws
// ---------------------------------------------------------------------------

/// What is printed of the daemon's answers: in JSON, the answer in its envelope
/// and a refusal as a failure; else a refusal in words. A refusal makes the
/// program fail.
pub proof fn answers_are_printed(data: JsonValue, message: Seq<char>)
    ensures
        ({
            let yes = ResponseView { ok: true, data: Some(data), error: None };
            let no = ResponseView { ok: false, data: None, error: Some(message) };
            &&& answer_printed(yes, true).stdout == seq![PrintoutView::Pretty(enveloped(data))]
            &&& answer_printed(yes, true).exit_code == 0
            &&& answer_printed(yes, false) == human(data)
            &&& answer_printed(no, true).stdout == seq![PrintoutView::Compact(failure(message))]
            &&& answer_printed(no, true).exit_code == 1
            &&& answer_printed(no, false).stdout.len() == 0
            &&& answer_printed(no, false).stderr == "error: "@ + message + "\n"@
            &&& answer_printed(no, false).exit_code == 1
        }),
{
}

/// What is printed for human readers: the output of a session as it is, and
/// nothing else; the output of a command on both channels, and the program ends
/// as the command did; the contents of a file; or all of the answer.
pub proof fn people_see_what_they_asked_for(
    data: JsonValue,
    text: Seq<char>,
    stderr: Seq<char>,
    code: i32,
)
    ensures
        ({
            let output = data.field("output"@);
            let shows = output is Some && output->0.field("text"@) == Some(JsonValue::Text(text));
            let no_output = output is None;
            &&& shows && text.len() > 0 ==> human(data).stdout == seq![PrintoutView::Raw(text)]
            &&& shows && text.len() == 0 ==> human(data).stdout.len() == 0
            &&& shows ==> human(data).exit_code == 0
            &&& no_output && data.field("stdout"@) == Some(JsonValue::Text(text)) ==> {
                &&& text.len() > 0 ==> human(data).stdout == seq![PrintoutView::Raw(text)]
                &&& data.field("stderr"@) == Some(JsonValue::Text(stderr)) ==> human(data).stderr
                    == stderr
                &&& data.field("exit_code"@) == Some(JsonValue::Number(code as int)) ==> human(
                    data,
                ).exit_code == code
            }
            &&& no_output && data.field("stdout"@) is None && data.field("content"@) == Some(
                JsonValue::Text(text),
            ) ==> human(data).stdout == seq![PrintoutView::Raw(text)]
            &&& no_output && data.field("stdout"@) is None && data.field("content"@) is None
                ==> human(data).stdout == seq![PrintoutView::Pretty(data)]
        }),
{
}

/// Output is followed as long as the session runs and the time is not up; a
/// refusal ends it. What is printed is the output, as it comes.
pub proof fn following_ends_with_the_session(
    data: JsonValue,
    status: Seq<char>,
    text: Seq<char>,
    message: Seq<char>,
    timeout: Option<u64>,
    elapsed_ms: u64,
)
    requires
        data.field("status"@) == Some(JsonValue::Text(status)),
        data.field("output"@) is Some,
        data.field("output"@)->0.field("text"@) == Some(JsonValue::Text(text)),
        text.len() > 0,
    ensures
        ({
            let yes = ResponseView { ok: true, data: Some(data), error: None };
            let no = ResponseView { ok: false, data: None, error: Some(message) };
            &&& timeout is None ==> (follow_goes_on(yes, timeout, elapsed_ms) <==> status
                == "running"@)
            &&& timeout is Some ==> (follow_goes_on(yes, timeout, elapsed_ms) <==> status
                == "running"@ && elapsed_ms <= timeout->0)
            &&& !follow_goes_on(no, timeout, elapsed_ms)
            &&& followed_printed(yes, false).stdout == seq![PrintoutView::Raw(text)]
            &&& followed_printed(yes, true).stdout == seq![PrintoutView::Compact(data)]
            &&& followed_printed(no, false).stderr == "error: "@ + message + "\n"@
        }),
{
}

/// Each request of a follow asks for more output of the same session, from where
/// it was asked to begin, as much as was asked for and in the way it was asked
/// for.
pub proof fn follows_ask_for_the_same(f: Follow, request: ReadCommand)
    requires
        follows(f, request),
    ensures
        request.session_id@ == f.session_id@,
        request.offset == f.offset,
        request.limit == f.limit,
        request.raw == f.raw,
        request.wait_ms == 500,
        !request.follow,
{
}

/// A daemon that was started is waited for until it can be reached, for five
/// seconds at most.
pub proof fn daemons_have_five_seconds(reachable: bool, elapsed_ms: u64)
    ensures
        reachable ==> daemon_wait(reachable, elapsed_ms) == Ok::<DaemonWait, Error>(
            DaemonWait::Ready,
        ),
        !reachable && elapsed_ms <= 5_000 ==> daemon_wait(reachable, elapsed_ms) == Ok::<
            DaemonWait,
            Error,
        >(DaemonWait::Sleep(100)),
        !reachable && elapsed_ms > 5_000 ==> daemon_wait(reachable, elapsed_ms) is Err,
{
}

/// A read is one request unless output is to be followed; then the first request
/// begins where it was asked to, and all others where the last one ended.
pub proof fn only_the_first_read_begins_elsewhere(command: ReadCommand, f: Follow)
    ensures
        !command.follow ==> read_plan(command) == ReadPlan::Once(command),
        command.follow ==> {
            &&& read_plan(command) matches ReadPlan::Follow(first)
            &&& first.session_id == command.session_id
            &&& first.offset == command.offset
            &&& first.limit == command.limit
            &&& first.raw == command.raw
            &&& first.timeout == command.timeout
        },
        followed(f).offset is None,
        followed(f).session_id == f.session_id,
        followed(f).limit == f.limit,
        followed(f).raw == f.raw,
        followed(f).timeout == f.timeout,
{
}

/// A line holds a request unless it is blank; white space around it does not
/// count.
pub proof fn requests_are_lines(line: Seq<char>)
    ensures
        (forall|i: int| 0 <= i < line.len() ==> is_white(#[trigger] line[i])) ==> request_in(line)
            is None,
        (exists|i: int| 0 <= i < line.len() && !is_white(#[trigger] line[i])) ==> request_in(line)
            is Some,
        request_in(line) is Some ==> request_in(line)->0 == trimmed(line),
{
    let (i, j) = trimming_takes_white_space_from_the_ends(line);
    if exists|i: int| 0 <= i < line.len() && !is_white(#[trigger] line[i]) {
        let k = choose|k: int| 0 <= k < line.len() && !is_white(#[trigger] line[k]);
        assert(i <= k < j);
    }
    if (forall|i: int| 0 <= i < line.len() ==> is_white(#[trigger] line[i])) && i < j {
        assert(trimmed(line)[0] == line[i]);
    }
}

/// A daemon that does not run is no failure, and is reported as what it is.
pub proof fn a_daemon_that_does_not_run_is_reported()
    ensures
        not_running(false) == PrintoutView::Line("Daemon is not running"@),
        not_running(true) is Compact,
        not_running(true)->Compact_0->Object_0.contains(("running"@, JsonValue::Bool(false))),
{
    let f = not_running(true)->Compact_0->Object_0;
    assert(f[0] == ("running"@, JsonValue::Bool(false)));
}

} // verus!
