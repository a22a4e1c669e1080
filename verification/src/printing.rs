//! What a command prints.

use crate::error::Error;
use crate::json::{Fields, Json, JsonValue};
use crate::text::cat3;
use vstd::prelude::*;
use vstd::string::*;

verus! {

/// Something to print on standard output.
#[derive(Debug, PartialEq)]
pub enum Printout {
    /// JSON over several lines, and a line feed.
    Pretty(Json),
    /// JSON on one line, and a line feed.
    Compact(Json),
    /// Text, and a line feed.
    Line(String),
    /// Text as it is.
    Raw(String),
}

/// What a [`Printout`] says.
pub enum PrintoutView {
    Pretty(JsonValue),
    Compact(JsonValue),
    Line(Seq<char>),
    Raw(Seq<char>),
}

impl View for Printout {
    type V = PrintoutView;

    open spec fn view(&self) -> PrintoutView {
        match self {
            Printout::Pretty(value) => PrintoutView::Pretty(value@),
            Printout::Compact(value) => PrintoutView::Compact(value@),
            Printout::Line(text) => PrintoutView::Line(text@),
            Printout::Raw(text) => PrintoutView::Raw(text@),
        }
    }
}

/// What a command prints, and the exit code of the program.
#[derive(Debug, PartialEq)]
pub struct CommandOutput {
    pub stdout: Vec<Printout>,
    /// Text for standard error, as it is.
    pub stderr: String,
    pub exit_code: i32,
}

/// What a [`CommandOutput`] says.
pub struct CommandOutputView {
    pub stdout: Seq<PrintoutView>,
    pub stderr: Seq<char>,
    pub exit_code: i32,
}

/// What printouts say.
pub open spec fn printout_views(v: Seq<Printout>) -> Seq<PrintoutView> {
    Seq::new(v.len(), |i: int| v[i]@)
}

impl View for CommandOutput {
    type V = CommandOutputView;

    open spec fn view(&self) -> CommandOutputView {
        CommandOutputView {
            stdout: printout_views(self.stdout@),
            stderr: self.stderr@,
            exit_code: self.exit_code,
        }
    }
}

impl CommandOutputView {
    /// Nothing is printed.
    pub open spec fn silent() -> CommandOutputView {
        CommandOutputView { stdout: Seq::empty(), stderr: Seq::empty(), exit_code: 0 }
    }

    /// One thing is printed.
    pub open spec fn of(printout: PrintoutView) -> CommandOutputView {
        CommandOutputView { stdout: seq![printout], stderr: Seq::empty(), exit_code: 0 }
    }
}

impl CommandOutput {
    /// Nothing is printed.
    pub fn silent() -> (r: Self)
        ensures
            r@ == CommandOutputView::silent(),
    {
        let r = CommandOutput { stdout: Vec::new(), stderr: String::new(), exit_code: 0 };
        assert(r@.stdout =~= CommandOutputView::silent().stdout);
        assert(r@.stderr =~= CommandOutputView::silent().stderr);
        r
    }

    /// One thing is printed.
    pub fn of(printout: Printout) -> (r: Self)
        ensures
            r@ == CommandOutputView::of(printout@),
    {
        let mut stdout: Vec<Printout> = Vec::new();
        stdout.push(printout);
        let r = CommandOutput { stdout, stderr: String::new(), exit_code: 0 };
        assert(r@.stdout =~= seq![printout@]);
        assert(r@.stderr =~= Seq::<char>::empty());
        r
    }
}

// ---------------------------------------------------------------------------
// The envelope
// ---------------------------------------------------------------------------

/// A result in its envelope.
pub open spec fn enveloped(data: JsonValue) -> JsonValue {
    JsonValue::Object(seq![("ok"@, JsonValue::Bool(true)), ("data"@, data)])
}

/// A result with the word that it is one.
#[derive(Debug)]
pub struct JsonOutput {
    pub ok: bool,
    pub data: Json,
}

impl JsonOutput {
    /// The envelope in JSON.
    pub fn json(self) -> (r: Json)
        ensures
            r@ == JsonValue::Object(seq![("ok"@, JsonValue::Bool(self.ok)), ("data"@, self.data@)]),
    {
        let mut f = Fields::new();
        f.put_bool("ok", self.ok);
        f.put("data", self.data);
        assert(f@ =~= seq![("ok"@, JsonValue::Bool(self.ok)), ("data"@, self.data@)]);
        f.object()
    }
}

/// Prints a result in its envelope.
pub fn print_json(value: Json) -> (r: Printout)
    ensures
        r@ == PrintoutView::Pretty(enveloped(value@)),
{
    Printout::Pretty(JsonOutput { ok: true, data: value }.json())
}

/// A failure in its envelope.
pub open spec fn failure(message: Seq<char>) -> JsonValue {
    JsonValue::Object(seq![("ok"@, JsonValue::Bool(false)), ("error"@, JsonValue::Text(message))])
}

/// A failure in its envelope.
pub fn failure_json(message: &str) -> (r: Json)
    ensures
        r@ == failure(message@),
{
    let mut f = Fields::new();
    f.put_bool("ok", false);
    f.put_text("error", message);
    assert(f@ =~= failure(message@)->Object_0);
    f.object()
}

/// What is printed of an event.
pub open spec fn message_printed(json: bool, event: Seq<char>, message: Seq<char>) -> PrintoutView {
    if json {
        PrintoutView::Pretty(
            enveloped(
                JsonValue::Object(
                    seq![("event"@, JsonValue::Text(event)), ("message"@, JsonValue::Text(message))],
                ),
            ),
        )
    } else {
        PrintoutView::Line(event + ": "@ + message)
    }
}

/// Reports an event.
pub fn emit_message(json: bool, event: &str, message: &str) -> (r: Printout)
    ensures
        r@ == message_printed(json, event@, message@),
{
    if json {
        let mut f = Fields::new();
        f.put_text("event", event);
        f.put_text("message", message);
        assert(f@ =~= seq![
            ("event"@, JsonValue::Text(event@)),
            ("message"@, JsonValue::Text(message@)),
        ]);
        print_json(f.object())
    } else {
        Printout::Line(cat3(event, ": ", message))
    }
}

/// What is printed of a failure that ends a command.
pub open spec fn failure_printed(json: bool, message: Seq<char>) -> CommandOutputView {
    if json {
        CommandOutputView {
            stdout: seq![PrintoutView::Compact(failure(message))],
            stderr: Seq::empty(),
            exit_code: 1,
        }
    } else {
        CommandOutputView {
            stdout: Seq::empty(),
            stderr: "Error: "@ + message + "\n"@,
            exit_code: 1,
        }
    }
}

/// Reports a failure that ends a command: in JSON where JSON is asked for.
pub fn report_failure(json: bool, error: &Error) -> (r: CommandOutput)
    ensures
        r@ == failure_printed(json, error.text()),
{
    let message = error.to_string();
    if json {
        let mut r = CommandOutput::of(Printout::Compact(failure_json(message.as_str())));
        r.exit_code = 1;
        r
    } else {
        let mut r = CommandOutput::silent();
        r.stderr = cat3("Error: ", message.as_str(), "\n");
        r.exit_code = 1;
        r
    }
}

/// In JSON, a success says so and holds what came of it, and a failure says so
/// and holds the message; the program fails with the failure.
pub proof fn envelopes_tell_success_from_failure(data: JsonValue, message: Seq<char>)
    ensures
        enveloped(data).field("ok"@) == Some(JsonValue::Bool(true)),
        enveloped(data).field("data"@) == Some(data),
        failure(message).field("ok"@) == Some(JsonValue::Bool(false)),
        failure(message).field("error"@) == Some(JsonValue::Text(message)),
        failure_printed(true, message).stdout == seq![PrintoutView::Compact(failure(message))],
        failure_printed(true, message).exit_code == 1,
        failure_printed(false, message).stdout.len() == 0,
        failure_printed(false, message).stderr == "Error: "@ + message + "\n"@,
        failure_printed(false, message).exit_code == 1,
{
    reveal_strlit("ok");
    reveal_strlit("data");
    reveal_strlit("error");
    assert("ok"@.len() == 2 && "data"@.len() == 4 && "error"@.len() == 5);
    reveal_with_fuel(crate::json::field_in, 3);
}

/// An event is reported with its message: in an envelope, or in words.
pub proof fn events_are_reported(event: Seq<char>, message: Seq<char>)
    ensures
        message_printed(false, event, message) == PrintoutView::Line(event + ": "@ + message),
        message_printed(true, event, message) is Pretty,
        ({
            let fields = message_printed(true, event, message)->Pretty_0.field("data"@)->0->Object_0;
            &&& message_printed(true, event, message)->Pretty_0.field("data"@) is Some
            &&& fields.contains(("event"@, JsonValue::Text(event)))
            &&& fields.contains(("message"@, JsonValue::Text(message)))
        }),
{
    reveal_strlit("ok");
    reveal_strlit("data");
    assert("ok"@.len() == 2 && "data"@.len() == 4);
    reveal_with_fuel(crate::json::field_in, 3);
    let inner = JsonValue::Object(
        seq![("event"@, JsonValue::Text(event)), ("message"@, JsonValue::Text(message))],
    );
    let f = inner->Object_0;
    crate::json::lemma_items(f);
    assert(f[0].0 == "event"@ && f[1].0 == "message"@);
}

/// What is printed is what was to be printed, and the program succeeds with it.
pub proof fn one_thing_is_printed(printout: PrintoutView)
    ensures
        CommandOutputView::of(printout).stdout == seq![printout],
        CommandOutputView::of(printout).stderr.len() == 0,
        CommandOutputView::of(printout).exit_code == 0,
        CommandOutputView::silent().stdout.len() == 0,
        CommandOutputView::silent().stderr.len() == 0,
        CommandOutputView::silent().exit_code == 0,
{
}

} // verus!
