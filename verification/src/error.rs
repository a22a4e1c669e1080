//! What can go wrong, and the message that each failure is reported with.

use crate::number::{decimal, decimal_text};
use crate::text::{cat2, cat3, cat4};
use vstd::prelude::*;
use vstd::string::*;

verus! {

/// A file operation that can be carried out in more than one way.
#[derive(Debug, Clone, Copy, PartialEq, Eq, Structural)]
pub enum FileOperation {
    Upload,
    UploadChunk,
    Download,
    Ls,
    Write,
    Delete,
}

impl FileOperation {
    /// The operation's name in messages.
    pub open spec fn spec_name(self) -> Seq<char> {
        match self {
            FileOperation::Upload => "upload"@,
            FileOperation::UploadChunk => "upload chunk"@,
            FileOperation::Download => "download"@,
            FileOperation::Ls => "ls"@,
            FileOperation::Write => "write"@,
            FileOperation::Delete => "delete"@,
        }
    }

    /// The operation's name in messages.
    pub fn name(self) -> (r: &'static str)
        ensures
            r@ == self.spec_name(),
    {
        match self {
            FileOperation::Upload => "upload",
            FileOperation::UploadChunk => "upload chunk",
            FileOperation::Download => "download",
            FileOperation::Ls => "ls",
            FileOperation::Write => "write",
            FileOperation::Delete => "delete",
        }
    }
}

/// A failure.
#[derive(Debug)]
pub enum Error {
    /// No session has the id.
    SessionNotFound(String),
    /// No connection has the id.
    ConnectionNotFound(String),
    /// No proxy has the id.
    ProxyNotFound(String),
    /// A proxy goes by the name already.
    ProxyNameTaken(String),
    /// The name looks like the id of a proxy without a name.
    ProxyNameReserved(String),
    /// The task that serves a session's channel has ended.
    DrainTaskDead,
    /// An expected pattern was given without a response.
    ExpectWithoutRespond,
    /// A response was given without an expected pattern.
    RespondWithoutExpect,
    /// An expected pattern did not turn up in time.
    ExpectTimeout(String),
    /// A file request to the daemon names no session.
    SessionIdRequired,
    /// No host to connect to.
    HostRequired,
    /// No user to log in as.
    UsernameRequired,
    /// No profile has the name.
    ProfileNotFound(String),
    /// A host presented another key than the one it is known by.
    HostKeyMismatch(String),
    /// A public key could not be encoded.
    KeyEncoding,
    /// An encoded public key has no algorithm.
    KeyWithoutAlgorithm,
    /// An encoded public key has no key data.
    KeyWithoutData,
    /// No authentication method succeeded.
    AuthenticationFailed,
    /// A command did not finish within so many milliseconds.
    CommandTimedOut(u64),
    /// A proxy request asks neither for a port forward nor for SOCKS5.
    ProxyModeUnclear,
    /// A text is not of the form host:port.
    InvalidHostPort(String),
    /// A text is not a port number.
    InvalidPort(String),
    /// A SOCKS client greeted with another version.
    Socks5Greeting(u8),
    /// A SOCKS client made its request with another version.
    Socks5Version(u8),
    /// A SOCKS client asked for something other than CONNECT.
    Socks5Command(u8),
    /// A SOCKS client gave an address of an unknown type.
    Socks5AddressType(u8),
    /// The prompt for a host was left empty.
    PromptWithoutHost,
    /// The prompt for a port was answered with something else.
    PromptPort,
    /// A file operation cannot be carried out in the way asked for.
    UnsupportedMethod(FileOperation, String),
    /// The command that carried out a file operation failed.
    RemoteCommandFailed(FileOperation, String),
    /// The data of a download is not base64.
    InvalidBase64(String),
    /// The pattern of an edit is not a regular expression.
    InvalidPattern(String),
    /// A line from a client is not a request.
    InvalidRequest(String),
    /// A host could not be reached.
    ConnectFailed {
        host: String,
        port: u16,
        cause: String,
    },
    /// A host was reached, and its key was not accepted.
    HostKeyCheck {
        host: String,
        port: u16,
    },
    /// There is no home directory.
    NoHome,
    /// There is no directory for the configuration.
    NoConfigDir,
    /// The daemon cannot be a service of systemd on this system.
    ServiceUnsupported,
    /// The daemon was started and cannot be reached.
    DaemonNotStarted,
    /// A failure outside of this library, reported in its own words.
    Outside(String),
}

impl Error {
    /// The message.
    pub open spec fn text(self) -> Seq<char> {
        match self {
            Error::SessionNotFound(id) => "session "@ + id@ + " not found"@,
            Error::ConnectionNotFound(id) => "connection "@ + id@ + " not found"@,
            Error::ProxyNotFound(id) => "proxy "@ + id@ + " not found"@,
            Error::ProxyNameTaken(name) => "proxy "@ + name@ + " already exists"@,
            Error::ProxyNameReserved(name) => "proxy name "@ + name@ + " is reserved"@,
            Error::DrainTaskDead => "drain task dead"@,
            Error::ExpectWithoutRespond => "--expect requires matching --respond"@,
            Error::RespondWithoutExpect => "--respond requires matching --expect"@,
            Error::ExpectTimeout(pattern) => "timeout waiting for expect pattern: "@ + pattern@,
            Error::SessionIdRequired => "session-id required for daemon file operations"@,
            Error::HostRequired => "--host is required"@,
            Error::UsernameRequired => "--username is required"@,
            Error::ProfileNotFound(name) => "profile '"@ + name@
                + "' not found. Run 'agentssh profile list' to see saved profiles."@,
            Error::HostKeyMismatch(hosts) => "SSH host key mismatch for "@ + hosts@
                + "; known_hosts contains a different key"@,
            Error::KeyEncoding => "encoding server public key"@,
            Error::KeyWithoutAlgorithm => "encoded public key missing algorithm"@,
            Error::KeyWithoutData => "encoded public key missing key data"@,
            Error::AuthenticationFailed => "all authentication methods failed"@,
            Error::CommandTimedOut(ms) => "command timed out after "@ + decimal(ms as nat) + "ms"@,
            Error::ProxyModeUnclear =>
                "specify --local + --remote for port forwarding, or --socks5 for SOCKS5 proxy"@,
            Error::InvalidHostPort(s) => "invalid host:port format: "@ + s@,
            Error::InvalidPort(s) => "invalid port: "@ + s@,
            Error::Socks5Greeting(v) => "not a SOCKS5 connection (version: "@ + decimal(v as nat)
                + ")"@,
            Error::Socks5Version(v) => "SOCKS5: expected version 5, got "@ + decimal(v as nat),
            Error::Socks5Command(c) => "SOCKS5: only CONNECT (0x01) supported, got "@ + decimal(
                c as nat,
            ),
            Error::Socks5AddressType(a) => "SOCKS5: unsupported address type: "@ + decimal(
                a as nat,
            ),
            Error::PromptWithoutHost => "host is required"@,
            Error::PromptPort => "port must be a valid u16"@,
            Error::UnsupportedMethod(operation, method) => "unsupported "@ + operation.spec_name()
                + " method: "@ + method@,
            Error::RemoteCommandFailed(operation, stderr) => "exec "@ + operation.spec_name()
                + " failed: "@ + stderr@,
            Error::InvalidBase64(cause) => cause@,
            Error::InvalidPattern(cause) => cause@,
            Error::InvalidRequest(cause) => "invalid request: "@ + cause@,
            Error::ConnectFailed { host, port, cause } => "failed to connect to "@ + (host@ + ":"@
                + decimal(port as nat) + ": "@) + cause@,
            Error::HostKeyCheck { host, port } => "verifying SSH host key for "@ + host@ + ":"@
                + decimal(port as nat),
            Error::NoHome => "could not locate home directory"@,
            Error::NoConfigDir =>
                "could not locate config directory. Set AGENTSSH_CONFIG_DIR or ensure your home directory is accessible."@,
            Error::ServiceUnsupported => "systemd services are available on Linux only"@,
            Error::DaemonNotStarted => "daemon did not start within 5 seconds"@,
            Error::Outside(text) => text@,
        }
    }

    /// The message.
    pub fn to_string(&self) -> (r: String)
        ensures
            r@ == self.text(),
    {
        match self {
            Error::SessionNotFound(id) => cat3("session ", id.as_str(), " not found"),
            Error::ConnectionNotFound(id) => cat3("connection ", id.as_str(), " not found"),
            Error::ProxyNotFound(id) => cat3("proxy ", id.as_str(), " not found"),
            Error::ProxyNameTaken(name) => cat3("proxy ", name.as_str(), " already exists"),
            Error::ProxyNameReserved(name) => cat3("proxy name ", name.as_str(), " is reserved"),
            Error::DrainTaskDead => "drain task dead".to_owned(),
            Error::ExpectWithoutRespond => "--expect requires matching --respond".to_owned(),
            Error::RespondWithoutExpect => "--respond requires matching --expect".to_owned(),
            Error::ExpectTimeout(pattern) => cat2(
                "timeout waiting for expect pattern: ",
                pattern.as_str(),
            ),
            Error::SessionIdRequired => "session-id required for daemon file operations".to_owned(),
            Error::HostRequired => "--host is required".to_owned(),
            Error::UsernameRequired => "--username is required".to_owned(),
            Error::ProfileNotFound(name) => cat3(
                "profile '",
                name.as_str(),
                "' not found. Run 'agentssh profile list' to see saved profiles.",
            ),
            Error::HostKeyMismatch(hosts) => cat3(
                "SSH host key mismatch for ",
                hosts.as_str(),
                "; known_hosts contains a different key",
            ),
            Error::KeyEncoding => "encoding server public key".to_owned(),
            Error::KeyWithoutAlgorithm => "encoded public key missing algorithm".to_owned(),
            Error::KeyWithoutData => "encoded public key missing key data".to_owned(),
            Error::AuthenticationFailed => "all authentication methods failed".to_owned(),
            Error::CommandTimedOut(ms) => cat3(
                "command timed out after ",
                decimal_text(*ms as u128).as_str(),
                "ms",
            ),
            Error::ProxyModeUnclear =>
                "specify --local + --remote for port forwarding, or --socks5 for SOCKS5 proxy".to_owned(),
            Error::InvalidHostPort(s) => cat2("invalid host:port format: ", s.as_str()),
            Error::InvalidPort(s) => cat2("invalid port: ", s.as_str()),
            Error::Socks5Greeting(v) => cat3(
                "not a SOCKS5 connection (version: ",
                decimal_text(*v as u128).as_str(),
                ")",
            ),
            Error::Socks5Version(v) => cat2(
                "SOCKS5: expected version 5, got ",
                decimal_text(*v as u128).as_str(),
            ),
            Error::Socks5Command(c) => cat2(
                "SOCKS5: only CONNECT (0x01) supported, got ",
                decimal_text(*c as u128).as_str(),
            ),
            Error::Socks5AddressType(a) => cat2(
                "SOCKS5: unsupported address type: ",
                decimal_text(*a as u128).as_str(),
            ),
            Error::PromptWithoutHost => "host is required".to_owned(),
            Error::PromptPort => "port must be a valid u16".to_owned(),
            Error::UnsupportedMethod(operation, method) => cat4(
                "unsupported ",
                operation.name(),
                " method: ",
                method.as_str(),
            ),
            Error::RemoteCommandFailed(operation, stderr) => cat4(
                "exec ",
                operation.name(),
                " failed: ",
                stderr.as_str(),
            ),
            Error::InvalidBase64(cause) => cause.clone(),
            Error::InvalidPattern(cause) => cause.clone(),
            Error::InvalidRequest(cause) => cat2("invalid request: ", cause.as_str()),
            Error::ConnectFailed { host, port, cause } => cat3(
                "failed to connect to ",
                cat4(host.as_str(), ":", decimal_text(*port as u128).as_str(), ": ").as_str(),
                cause.as_str(),
            ),
            Error::HostKeyCheck { host, port } => cat4(
                "verifying SSH host key for ",
                host.as_str(),
                ":",
                decimal_text(*port as u128).as_str(),
            ),
            Error::NoHome => "could not locate home directory".to_owned(),
            Error::NoConfigDir =>
                "could not locate config directory. Set AGENTSSH_CONFIG_DIR or ensure your home directory is accessible.".to_owned(),
            Error::ServiceUnsupported => "systemd services are available on Linux only".to_owned(),
            Error::DaemonNotStarted => "daemon did not start within 5 seconds".to_owned(),
            Error::Outside(text) => text.clone(),
        }
    }
}

/// What failures are called.
pub proof fn failures_have_their_words(s: String, ms: u64, port: u16, n: u8)
    ensures
        Error::SessionNotFound(s).text() == "session "@ + s@ + " not found"@,
        Error::ProxyNotFound(s).text() == "proxy "@ + s@ + " not found"@,
        Error::ConnectionNotFound(s).text() == "connection "@ + s@ + " not found"@,
        Error::ProfileNotFound(s).text() == "profile '"@ + s@
            + "' not found. Run 'agentssh profile list' to see saved profiles."@,
        Error::HostKeyMismatch(s).text() == "SSH host key mismatch for "@ + s@
            + "; known_hosts contains a different key"@,
        Error::CommandTimedOut(ms).text() == "command timed out after "@ + decimal(ms as nat)
            + "ms"@,
        Error::ExpectTimeout(s).text() == "timeout waiting for expect pattern: "@ + s@,
        Error::InvalidHostPort(s).text() == "invalid host:port format: "@ + s@,
        Error::InvalidPort(s).text() == "invalid port: "@ + s@,
        Error::Socks5Command(n).text() == "SOCKS5: only CONNECT (0x01) supported, got "@ + decimal(
            n as nat,
        ),
        Error::Socks5Version(n).text() == "SOCKS5: expected version 5, got "@ + decimal(n as nat),
        Error::Socks5AddressType(n).text() == "SOCKS5: unsupported address type: "@ + decimal(
            n as nat,
        ),
        (Error::ConnectFailed { host: s, port, cause: s }).text() == "failed to connect to "@ + (s@
            + ":"@ + decimal(port as nat) + ": "@) + s@,
        Error::Outside(s).text() == s@,
        Error::InvalidPattern(s).text() == s@,
        Error::InvalidBase64(s).text() == s@,
        Error::DrainTaskDead.text() == "drain task dead"@,
        Error::AuthenticationFailed.text() == "all authentication methods failed"@,
        Error::HostRequired.text() == "--host is required"@,
        Error::UsernameRequired.text() == "--username is required"@,
        Error::ExpectWithoutRespond.text() == "--expect requires matching --respond"@,
        Error::RespondWithoutExpect.text() == "--respond requires matching --expect"@,
        Error::RemoteCommandFailed(FileOperation::Upload, s).text() == "exec "@ + "upload"@
            + " failed: "@ + s@,
        Error::RemoteCommandFailed(FileOperation::Download, s).text() == "exec "@ + "download"@
            + " failed: "@ + s@,
        Error::RemoteCommandFailed(FileOperation::Ls, s).text() == "exec "@ + "ls"@ + " failed: "@
            + s@,
        Error::RemoteCommandFailed(FileOperation::Write, s).text() == "exec "@ + "write"@
            + " failed: "@ + s@,
        Error::RemoteCommandFailed(FileOperation::Delete, s).text() == "exec "@ + "delete"@
            + " failed: "@ + s@,
        Error::UnsupportedMethod(FileOperation::Upload, s).text() == "unsupported "@ + "upload"@
            + " method: "@ + s@,
{
}

/// What the other failures are called.
pub proof fn other_failures_have_their_words(s: String, port: u16, n: u8)
    ensures
        Error::Socks5Greeting(n).text() == "not a SOCKS5 connection (version: "@ + decimal(n as nat)
            + ")"@,
        Error::ProxyNameTaken(s).text() == "proxy "@ + s@ + " already exists"@,
        Error::ProxyNameReserved(s).text() == "proxy name "@ + s@ + " is reserved"@,
        Error::SessionIdRequired.text() == "session-id required for daemon file operations"@,
        Error::KeyEncoding.text() == "encoding server public key"@,
        Error::KeyWithoutAlgorithm.text() == "encoded public key missing algorithm"@,
        Error::KeyWithoutData.text() == "encoded public key missing key data"@,
        Error::ProxyModeUnclear.text()
            == "specify --local + --remote for port forwarding, or --socks5 for SOCKS5 proxy"@,
        Error::PromptWithoutHost.text() == "host is required"@,
        Error::PromptPort.text() == "port must be a valid u16"@,
        Error::InvalidRequest(s).text() == "invalid request: "@ + s@,
        (Error::HostKeyCheck { host: s, port }).text() == "verifying SSH host key for "@ + s@ + ":"@
            + decimal(port as nat),
        Error::NoHome.text() == "could not locate home directory"@,
        Error::ServiceUnsupported.text() == "systemd services are available on Linux only"@,
        Error::DaemonNotStarted.text() == "daemon did not start within 5 seconds"@,
        Error::RemoteCommandFailed(FileOperation::UploadChunk, s).text() == "exec "@
            + "upload chunk"@ + " failed: "@ + s@,
        Error::UnsupportedMethod(FileOperation::Download, s).text() == "unsupported "@ + "download"@
            + " method: "@ + s@,
        Error::UnsupportedMethod(FileOperation::Ls, s).text() == "unsupported "@ + "ls"@
            + " method: "@ + s@,
{
}

} // verus!
