//! What the command line and the daemon say to each other.

use crate::cli::{
    ConnectCommand, DeleteFileCommand, EditFileCommand, ListCommand, ProxyCloseCommand,
    ProxyCreateCommand, ProxyPingCommand, ReadCommand, ReadFileCommand, ResizeCommand,
    SessionExecCommand, SessionInputCommand, SignalCommand, SpawnCommand, StatusCommand,
    TransferCommand, WriteCommand,
};
use crate::error::Error;
use crate::json::{Json, JsonValue};
use crate::text::text_of;
use vstd::prelude::*;

verus! {

/// An answer of the daemon.
#[derive(Debug)]
pub struct WireResponse {
    pub ok: bool,
    pub data: Option<Json>,
    pub error: Option<String>,
}

/// What a [`WireResponse`] says.
pub struct ResponseView {
    pub ok: bool,
    pub data: Option<JsonValue>,
    pub error: Option<Seq<char>>,
}

impl View for WireResponse {
    type V = ResponseView;

    open spec fn view(&self) -> ResponseView {
        ResponseView {
            ok: self.ok,
            data: match self.data {
                Some(v) => Some(v@),
                None => None,
            },
            error: text_of(self.error),
        }
    }
}

/// The answer with which a request is granted.
pub open spec fn granted(data: JsonValue) -> ResponseView {
    ResponseView { ok: true, data: Some(data), error: None }
}

/// The answer with which a request is refused.
pub open spec fn refused(error: Seq<char>) -> ResponseView {
    ResponseView { ok: false, data: None, error: Some(error) }
}

/// Grants a request.
pub fn ok(data: Json) -> (r: WireResponse)
    ensures
        r@ == granted(data@),
{
    WireResponse { ok: true, data: Some(data), error: None }
}

/// Refuses a request.
pub fn err(error: Error) -> (r: WireResponse)
    ensures
        r@ == refused(error.text()),
{
    WireResponse { ok: false, data: None, error: Some(error.to_string()) }
}

/// A request to the daemon.
#[derive(Debug)]
pub enum WireRequest {
    Connect(ConnectCommand),
    Send(SessionInputCommand),
    Spawn(SpawnCommand),
    Exec(SessionExecCommand),
    Read(ReadCommand),
    Resize(ResizeCommand),
    Signal(SignalCommand),
    Status(StatusCommand),
    Ping(StatusCommand),
    List,
    Close(StatusCommand),
    Upload(TransferCommand),
    Download(TransferCommand),
    Ls(ListCommand),
    Write(WriteCommand),
    ReadFile(ReadFileCommand),
    DeleteFile(DeleteFileCommand),
    EditFile(EditFileCommand),
    ProxyCreate(ProxyCreateCommand),
    ProxyList,
    ProxyClose(ProxyCloseCommand),
    ProxyPing(ProxyPingCommand),
    DaemonStatus,
    Shutdown,
}

/// What is granted is granted with its data, and what is refused is refused with
/// its message.
pub proof fn answers_hold_what_they_say(data: JsonValue, message: Seq<char>)
    ensures
        granted(data).ok && granted(data).data == Some(data) && granted(data).error is None,
        !refused(message).ok && refused(message).data is None && refused(message).error == Some(
            message,
        ),
{
}

} // verus!
