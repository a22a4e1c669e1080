//! The commands of the command line, and what each of them asks for.

use crate::connection::{defaulted, with_default_profile};
use crate::error::Error;
use crate::interactive;
use crate::protocol::WireRequest;
use crate::text::{copy_text, text_of};
use crate::util::OutputFormat;
use vstd::prelude::*;
use vstd::string::*;

verus! {

/// A parsed command line.
#[derive(Debug)]
pub struct Cli {
    /// Whether `--json` was given.
    pub json: bool,
    /// The argument of `--output`, which excludes `--json`.
    pub output: Option<OutputFormat>,
    pub command: Command,
}

#[derive(Debug)]
pub enum Command {
    /// Run a single command and return stdout, stderr and the exit code.
    Exec(ExecCommand),
    /// Open an interactive PTY shell (for human use).
    Shell(ConnectArgs),
    /// Open a long-lived PTY session.
    Connect(ConnectCommand),
    /// Manage long-lived sessions of the daemon.
    Session(SessionGroup),
    /// Transfer files or list directories.
    File(FileGroup),
    /// Manage the proxy listeners of the daemon.
    Proxy(ProxyGroup),
    /// Manage connection profiles.
    Profile(ProfileCommand),
    /// Manage the daemon itself.
    Daemon(DaemonGroup),
}

#[derive(Debug)]
pub struct SessionGroup {
    pub command: SessionCommand,
}

#[derive(Debug)]
pub enum SessionCommand {
    /// Send input to a session.
    Send(SessionInputCommand),
    /// Spawn a new PTY session on the connection of an existing one.
    Spawn(SpawnCommand),
    /// Read output from a session's cursor position.
    Read(ReadCommand),
    /// Run a command on the session's connection, without its PTY.
    Exec(SessionExecCommand),
    /// Change the PTY dimensions of a session.
    Resize(ResizeCommand),
    /// Send a signal to a session.
    Signal(SignalCommand),
    /// Get the metadata of a session.
    Status(StatusCommand),
    /// Check whether a session is still alive.
    Ping(StatusCommand),
    /// List all sessions.
    List,
    /// Close a session.
    Close(StatusCommand),
}

#[derive(Debug)]
pub struct FileGroup {
    pub command: FileCommand,
}

#[derive(Debug)]
pub enum FileCommand {
    /// Upload a local file to the remote host.
    Upload(TransferCommand),
    /// Download a remote file to the local host.
    Download(TransferCommand),
    /// List the files in a remote directory.
    Ls(ListCommand),
    /// Write text to a remote file.
    Write(WriteCommand),
    /// Read a remote file to stdout.
    Read(ReadFileCommand),
    /// Delete a remote file or directory.
    Delete(DeleteFileCommand),
    /// Find and replace text in a remote file.
    Edit(EditFileCommand),
}

#[derive(Debug)]
pub struct DaemonGroup {
    pub command: DaemonCommand,
}

#[derive(Debug)]
pub enum DaemonCommand {
    /// Run the daemon.
    Serve,
    /// Stop the daemon and close all sessions.
    Shutdown,
    /// Say whether the daemon runs, and what it holds.
    Status,
    /// Install the daemon as a user service of systemd (Linux only).
    Install,
    /// Remove the service, and what the daemon leaves behind (Linux only).
    Uninstall,
}

#[derive(Debug)]
pub struct ProxyGroup {
    pub command: ProxyCommand,
}

#[derive(Debug)]
pub enum ProxyCommand {
    /// Create a proxy.
    Create(ProxyCreateCommand),
    /// List all proxies.
    List,
    /// Close one proxy or all of them.
    Close(ProxyCloseCommand),
    /// Check whether a proxy is still running.
    Ping(ProxyPingCommand),
}

#[derive(Debug)]
pub struct ProfileCommand {
    pub command: ProfileAction,
}

#[derive(Debug)]
pub enum ProfileAction {
    /// List all saved profiles.
    List,
    /// Show a profile.
    Read { name: String },
    /// Add a profile with flags, or with the answers to prompts.
    Add { name: String, connect: ConnectArgs },
    /// Create or replace a profile from a JSON text.
    Write { name: String, data: String },
    /// Delete a profile.
    Delete { name: String },
}

/// Where to connect to, and how to log in there.
#[derive(Debug)]
pub struct ConnectArgs {
    pub profile: Option<String>,
    pub host: Option<String>,
    pub port: Option<u16>,
    pub username: Option<String>,
    pub password: Option<String>,
    /// A path, an environment variable behind a `$`, or the key itself.
    pub private_key: Option<String>,
    pub passphrase: Option<String>,
    pub ready_timeout_ms: Option<u64>,
    pub retry: Option<u32>,
    pub retry_delay_ms: Option<u64>,
}

/// What a [`ConnectArgs`] says.
pub struct ConnectView {
    pub profile: Option<Seq<char>>,
    pub host: Option<Seq<char>>,
    pub port: Option<u16>,
    pub username: Option<Seq<char>>,
    pub password: Option<Seq<char>>,
    pub private_key: Option<Seq<char>>,
    pub passphrase: Option<Seq<char>>,
    pub ready_timeout_ms: Option<u64>,
    pub retry: Option<u32>,
    pub retry_delay_ms: Option<u64>,
}

impl View for ConnectArgs {
    type V = ConnectView;

    open spec fn view(&self) -> ConnectView {
        ConnectView {
            profile: text_of(self.profile),
            host: text_of(self.host),
            port: self.port,
            username: text_of(self.username),
            password: text_of(self.password),
            private_key: text_of(self.private_key),
            passphrase: text_of(self.passphrase),
            ready_timeout_ms: self.ready_timeout_ms,
            retry: self.retry,
            retry_delay_ms: self.retry_delay_ms,
        }
    }
}

impl Clone for ConnectArgs {
    fn clone(&self) -> (r: Self)
        ensures
            r == *self,
    {
        ConnectArgs {
            profile: copy_text(&self.profile),
            host: copy_text(&self.host),
            port: self.port,
            username: copy_text(&self.username),
            password: copy_text(&self.password),
            private_key: copy_text(&self.private_key),
            passphrase: copy_text(&self.passphrase),
            ready_timeout_ms: self.ready_timeout_ms,
            retry: self.retry,
            retry_delay_ms: self.retry_delay_ms,
        }
    }
}

impl Default for ConnectArgs {
    fn default() -> (r: Self)
        ensures
            r == (ConnectArgs {
                profile: None,
                host: None,
                port: None,
                username: None,
                password: None,
                private_key: None,
                passphrase: None,
                ready_timeout_ms: None,
                retry: None,
                retry_delay_ms: None,
            }),
    {
        ConnectArgs {
            profile: None,
            host: None,
            port: None,
            username: None,
            password: None,
            private_key: None,
            passphrase: None,
            ready_timeout_ms: None,
            retry: None,
            retry_delay_ms: None,
        }
    }
}

#[derive(Debug)]
pub struct ExecCommand {
    pub connect: ConnectArgs,
    pub command: Vec<String>,
    /// Milliseconds after which the command is given up; 0 for never.
    pub timeout: u64,
}

#[derive(Debug)]
pub struct ConnectCommand {
    pub connect: ConnectArgs,
    pub cols: u32,
    pub rows: u32,
    pub wait_ms: u64,
    pub limit: usize,
    /// Whether the daemon reconnects when the transport drops.
    pub reconnect: bool,
}

#[derive(Debug)]
pub struct SessionInputCommand {
    pub session_id: String,
    pub input: String,
    pub crlf: bool,
    pub wait_ms: u64,
    pub limit: usize,
    pub raw: bool,
    pub strip_ansi: bool,
    pub wait_for_exit: bool,
    pub timeout: Option<u64>,
    pub expect: Option<String>,
    pub respond: Option<String>,
    pub expect2: Option<String>,
    pub respond2: Option<String>,
    pub expect3: Option<String>,
    pub respond3: Option<String>,
}

/// The three pairs of a [`SessionInputCommand`], given or not.
pub open spec fn pairs_of(c: SessionInputCommand) -> Seq<(Option<String>, Option<String>)> {
    seq![(c.expect, c.respond), (c.expect2, c.respond2), (c.expect3, c.respond3)]
}

impl SessionInputCommand {
    /// The patterns to wait for, each with its response.
    pub fn expect_pairs(&self) -> (r: Result<Vec<ExpectRespondPair>, Error>)
        ensures
            interactive::extracted(pairs_of(*self), r),
    {
        let pairs = [
            (copy_text(&self.expect), copy_text(&self.respond)),
            (copy_text(&self.expect2), copy_text(&self.respond2)),
            (copy_text(&self.expect3), copy_text(&self.respond3)),
        ];
        assert(pairs@ =~= pairs_of(*self));
        interactive::expect_pairs(pairs)
    }
}

/// A pattern to wait for, and what is sent when it turns up.
#[derive(Debug, Clone, PartialEq, Eq)]
pub struct ExpectRespondPair {
    pub expect: String,
    pub respond: String,
}

#[derive(Debug)]
pub struct SpawnCommand {
    /// The session on whose connection the new one is opened.
    pub from: String,
    pub cols: u32,
    pub rows: u32,
    pub wait_ms: u64,
    pub limit: usize,
}

#[derive(Debug)]
pub struct ReadCommand {
    pub session_id: String,
    pub offset: Option<usize>,
    pub limit: usize,
    pub wait_ms: u64,
    /// Whether to go on reading until the session ends.
    pub follow: bool,
    pub raw: bool,
    pub strip_ansi: bool,
    /// Milliseconds after which following ends, if it ends by itself.
    pub timeout: Option<u64>,
}

#[derive(Debug)]
pub struct ResizeCommand {
    pub session_id: String,
    pub cols: u32,
    pub rows: u32,
}

#[derive(Debug)]
pub struct SignalCommand {
    pub session_id: String,
    pub signal: String,
}

#[derive(Debug)]
pub struct StatusCommand {
    pub session_id: String,
}

#[derive(Debug)]
pub struct SessionExecCommand {
    pub session_id: String,
    pub command: Vec<String>,
    /// Milliseconds after which the command is given up; 0 for never.
    pub timeout: u64,
    /// Whether to type the command into the session and not to wait for it.
    pub detach: bool,
}

#[derive(Debug)]
pub struct TransferCommand {
    pub connect: ConnectArgs,
    pub session_id: Option<String>,
    pub local: String,
    pub remote: String,
    pub method: String,
}

#[derive(Debug)]
pub struct ListCommand {
    pub connect: ConnectArgs,
    pub session_id: Option<String>,
    pub remote: String,
    pub method: String,
}

#[derive(Debug)]
pub struct WriteCommand {
    pub connect: ConnectArgs,
    pub session_id: Option<String>,
    pub remote: String,
    pub content: String,
    /// Whether the text is added to what the file holds.
    pub append: bool,
}

#[derive(Debug)]
pub struct ReadFileCommand {
    pub connect: ConnectArgs,
    pub session_id: Option<String>,
    pub remote: String,
}

#[derive(Debug)]
pub struct DeleteFileCommand {
    pub connect: ConnectArgs,
    pub session_id: Option<String>,
    pub remote: String,
    pub recursive: bool,
}

#[derive(Debug)]
pub struct EditFileCommand {
    pub connect: ConnectArgs,
    pub session_id: Option<String>,
    pub remote: String,
    pub find: String,
    pub replace: String,
    /// Whether `find` is a regular expression.
    pub regex: bool,
}

#[derive(Debug)]
pub struct ProxyCreateCommand {
    pub connect: ConnectArgs,
    /// The address to listen on, as host:port.
    pub local: Option<String>,
    /// The address to forward to, as host:port.
    pub remote: Option<String>,
    /// The address to listen on for SOCKS5, as host:port.
    pub socks5: Option<String>,
    /// What the proxy is to go by, in place of a number.
    pub name: Option<String>,
}

#[derive(Debug)]
pub struct ProxyCloseCommand {
    pub proxy_id: Option<String>,
    pub all: bool,
}

#[derive(Debug)]
pub struct ProxyPingCommand {
    pub proxy_id: String,
}

// ---------------------------------------------------------------------------
// Routing
// ---------------------------------------------------------------------------

/// A file command that is carried out on a connection of its own.
#[derive(Debug)]
pub enum FileOnce {
    Upload(TransferCommand),
    Download(TransferCommand),
    Ls(ListCommand),
    Write(WriteCommand),
    Read(ReadFileCommand),
    Delete(DeleteFileCommand),
    Edit(EditFileCommand),
}

/// Who carries out a command.
#[derive(Debug)]
pub enum Action {
    /// Connect, run one command, disconnect.
    Exec(ExecCommand),
    /// Connect, and hand the terminal over.
    Shell(ConnectArgs),
    /// Ask the daemon.
    Client(WireRequest),
    /// Ask the daemon for output, once or again and again.
    Read(ReadCommand),
    /// Connect, carry out one file command, disconnect.
    FileOnce(FileOnce),
    /// Work on the saved profiles.
    Profile(ProfileCommand),
    /// Be the daemon.
    Serve,
    /// Ask whether the daemon runs, and do not start it.
    DaemonStatus,
    /// Install the daemon as a service.
    DaemonInstall,
    /// Remove the service, and what the daemon leaves behind.
    DaemonUninstall,
}

/// Who carries out a session command.
pub open spec fn session_action(command: SessionCommand) -> Action {
    match command {
        SessionCommand::Send(c) => Action::Client(WireRequest::Send(c)),
        SessionCommand::Exec(c) => Action::Client(WireRequest::Exec(c)),
        SessionCommand::Spawn(c) => Action::Client(WireRequest::Spawn(c)),
        SessionCommand::Read(c) => Action::Read(c),
        SessionCommand::Resize(c) => Action::Client(WireRequest::Resize(c)),
        SessionCommand::Signal(c) => Action::Client(WireRequest::Signal(c)),
        SessionCommand::Status(c) => Action::Client(WireRequest::Status(c)),
        SessionCommand::Ping(c) => Action::Client(WireRequest::Ping(c)),
        SessionCommand::List => Action::Client(WireRequest::List),
        SessionCommand::Close(c) => Action::Client(WireRequest::Close(c)),
    }
}

/// Who carries out a file command: the daemon where a session is named.
pub open spec fn file_action(command: FileCommand) -> Action {
    match command {
        FileCommand::Upload(c) => if c.session_id is Some {
            Action::Client(WireRequest::Upload(c))
        } else {
            Action::FileOnce(FileOnce::Upload(c))
        },
        FileCommand::Download(c) => if c.session_id is Some {
            Action::Client(WireRequest::Download(c))
        } else {
            Action::FileOnce(FileOnce::Download(c))
        },
        FileCommand::Ls(c) => if c.session_id is Some {
            Action::Client(WireRequest::Ls(c))
        } else {
            Action::FileOnce(FileOnce::Ls(c))
        },
        FileCommand::Write(c) => if c.session_id is Some {
            Action::Client(WireRequest::Write(c))
        } else {
            Action::FileOnce(FileOnce::Write(c))
        },
        FileCommand::Read(c) => if c.session_id is Some {
            Action::Client(WireRequest::ReadFile(c))
        } else {
            Action::FileOnce(FileOnce::Read(c))
        },
        FileCommand::Delete(c) => if c.session_id is Some {
            Action::Client(WireRequest::DeleteFile(c))
        } else {
            Action::FileOnce(FileOnce::Delete(c))
        },
        FileCommand::Edit(c) => if c.session_id is Some {
            Action::Client(WireRequest::EditFile(c))
        } else {
            Action::FileOnce(FileOnce::Edit(c))
        },
    }
}

/// Who carries out a command.
pub open spec fn action_of(command: Command) -> Action {
    match command {
        Command::Exec(c) => Action::Exec(c),
        Command::Shell(c) => Action::Shell(c),
        Command::Connect(c) => Action::Client(WireRequest::Connect(c)),
        Command::Session(group) => session_action(group.command),
        Command::File(group) => file_action(group.command),
        Command::Proxy(group) => match group.command {
            ProxyCommand::Create(c) => Action::Client(WireRequest::ProxyCreate(c)),
            ProxyCommand::List => Action::Client(WireRequest::ProxyList),
            ProxyCommand::Close(c) => Action::Client(WireRequest::ProxyClose(c)),
            ProxyCommand::Ping(c) => Action::Client(WireRequest::ProxyPing(c)),
        },
        Command::Profile(c) => Action::Profile(c),
        Command::Daemon(group) => match group.command {
            DaemonCommand::Serve => Action::Serve,
            DaemonCommand::Shutdown => Action::Client(WireRequest::Shutdown),
            DaemonCommand::Status => Action::DaemonStatus,
            DaemonCommand::Install => Action::DaemonInstall,
            DaemonCommand::Uninstall => Action::DaemonUninstall,
        },
    }
}

fn run_session(command: SessionCommand) -> (r: Action)
    ensures
        r == session_action(command),
{
    match command {
        SessionCommand::Send(c) => Action::Client(WireRequest::Send(c)),
        SessionCommand::Exec(c) => Action::Client(WireRequest::Exec(c)),
        SessionCommand::Spawn(c) => Action::Client(WireRequest::Spawn(c)),
        SessionCommand::Read(c) => Action::Read(c),
        SessionCommand::Resize(c) => Action::Client(WireRequest::Resize(c)),
        SessionCommand::Signal(c) => Action::Client(WireRequest::Signal(c)),
        SessionCommand::Status(c) => Action::Client(WireRequest::Status(c)),
        SessionCommand::Ping(c) => Action::Client(WireRequest::Ping(c)),
        SessionCommand::List => Action::Client(WireRequest::List),
        SessionCommand::Close(c) => Action::Client(WireRequest::Close(c)),
    }
}

fn run_file(command: FileCommand) -> (r: Action)
    ensures
        r == file_action(command),
{
    match command {
        FileCommand::Upload(c) => if c.session_id.is_some() {
            Action::Client(WireRequest::Upload(c))
        } else {
            Action::FileOnce(FileOnce::Upload(c))
        },
        FileCommand::Download(c) => if c.session_id.is_some() {
            Action::Client(WireRequest::Download(c))
        } else {
            Action::FileOnce(FileOnce::Download(c))
        },
        FileCommand::Ls(c) => if c.session_id.is_some() {
            Action::Client(WireRequest::Ls(c))
        } else {
            Action::FileOnce(FileOnce::Ls(c))
        },
        FileCommand::Write(c) => if c.session_id.is_some() {
            Action::Client(WireRequest::Write(c))
        } else {
            Action::FileOnce(FileOnce::Write(c))
        },
        FileCommand::Read(c) => if c.session_id.is_some() {
            Action::Client(WireRequest::ReadFile(c))
        } else {
            Action::FileOnce(FileOnce::Read(c))
        },
        FileCommand::Delete(c) => if c.session_id.is_some() {
            Action::Client(WireRequest::DeleteFile(c))
        } else {
            Action::FileOnce(FileOnce::Delete(c))
        },
        FileCommand::Edit(c) => if c.session_id.is_some() {
            Action::Client(WireRequest::EditFile(c))
        } else {
            Action::FileOnce(FileOnce::Edit(c))
        },
    }
}

/// Whether a command line asks for JSON.
pub open spec fn wants_json(cli: Cli) -> bool {
    cli.json || cli.output == Some(OutputFormat::Json)
}

/// Who carries out the command, and whether it answers in JSON.
pub fn run(cli: Cli) -> (r: (Action, bool))
    ensures
        r.0 == action_of(cli.command),
        r.1 == wants_json(cli),
{
    let json = cli.json || matches!(cli.output, Some(OutputFormat::Json));
    let action = match cli.command {
        Command::Exec(c) => Action::Exec(c),
        Command::Shell(c) => Action::Shell(c),
        Command::Connect(c) => Action::Client(WireRequest::Connect(c)),
        Command::Session(group) => run_session(group.command),
        Command::File(group) => run_file(group.command),
        Command::Proxy(group) => match group.command {
            ProxyCommand::Create(c) => Action::Client(WireRequest::ProxyCreate(c)),
            ProxyCommand::List => Action::Client(WireRequest::ProxyList),
            ProxyCommand::Close(c) => Action::Client(WireRequest::ProxyClose(c)),
            ProxyCommand::Ping(c) => Action::Client(WireRequest::ProxyPing(c)),
        },
        Command::Profile(c) => Action::Profile(c),
        Command::Daemon(group) => match group.command {
            DaemonCommand::Serve => Action::Serve,
            DaemonCommand::Shutdown => Action::Client(WireRequest::Shutdown),
            DaemonCommand::Status => Action::DaemonStatus,
            DaemonCommand::Install => Action::DaemonInstall,
            DaemonCommand::Uninstall => Action::DaemonUninstall,
        },
    };
    (action, json)
}

/// The action with a profile in whatever connects and names none: the one that
/// was given for all commands, or else the one of the environment.
pub open spec fn with_profile(
    action: Action,
    given: Option<String>,
    environment: Option<String>,
) -> Action {
    let profile = if given is Some {
        given
    } else {
        environment
    };
    match action {
        Action::Exec(c) => Action::Exec(
            ExecCommand { connect: defaulted(c.connect, profile), ..c },
        ),
        Action::Shell(connect) => Action::Shell(defaulted(connect, profile)),
        Action::Client(WireRequest::Connect(c)) => Action::Client(
            WireRequest::Connect(ConnectCommand { connect: defaulted(c.connect, profile), ..c }),
        ),
        Action::Client(WireRequest::ProxyCreate(c)) => Action::Client(
            WireRequest::ProxyCreate(
                ProxyCreateCommand { connect: defaulted(c.connect, profile), ..c },
            ),
        ),
        Action::FileOnce(FileOnce::Upload(c)) => Action::FileOnce(
            FileOnce::Upload(TransferCommand { connect: defaulted(c.connect, profile), ..c }),
        ),
        Action::FileOnce(FileOnce::Download(c)) => Action::FileOnce(
            FileOnce::Download(TransferCommand { connect: defaulted(c.connect, profile), ..c }),
        ),
        Action::FileOnce(FileOnce::Ls(c)) => Action::FileOnce(
            FileOnce::Ls(ListCommand { connect: defaulted(c.connect, profile), ..c }),
        ),
        Action::FileOnce(FileOnce::Write(c)) => Action::FileOnce(
            FileOnce::Write(WriteCommand { connect: defaulted(c.connect, profile), ..c }),
        ),
        Action::FileOnce(FileOnce::Read(c)) => Action::FileOnce(
            FileOnce::Read(ReadFileCommand { connect: defaulted(c.connect, profile), ..c }),
        ),
        Action::FileOnce(FileOnce::Delete(c)) => Action::FileOnce(
            FileOnce::Delete(DeleteFileCommand { connect: defaulted(c.connect, profile), ..c }),
        ),
        Action::FileOnce(FileOnce::Edit(c)) => Action::FileOnce(
            FileOnce::Edit(EditFileCommand { connect: defaulted(c.connect, profile), ..c }),
        ),
        other => other,
    }
}

/// Names a profile in whatever connects and names none.
pub fn name_profile(action: Action, given: Option<String>, environment: Option<String>) -> (r:
    Action)
    ensures
        r == with_profile(action, given, environment),
{
    let profile = if given.is_some() {
        given
    } else {
        environment
    };
    match action {
        Action::Exec(c) => Action::Exec(
            ExecCommand { connect: with_default_profile(c.connect, profile), ..c },
        ),
        Action::Shell(connect) => Action::Shell(with_default_profile(connect, profile)),
        Action::Client(WireRequest::Connect(c)) => Action::Client(
            WireRequest::Connect(
                ConnectCommand { connect: with_default_profile(c.connect, profile), ..c },
            ),
        ),
        Action::Client(WireRequest::ProxyCreate(c)) => Action::Client(
            WireRequest::ProxyCreate(
                ProxyCreateCommand { connect: with_default_profile(c.connect, profile), ..c },
            ),
        ),
        Action::FileOnce(FileOnce::Upload(c)) => Action::FileOnce(
            FileOnce::Upload(
                TransferCommand { connect: with_default_profile(c.connect, profile), ..c },
            ),
        ),
        Action::FileOnce(FileOnce::Download(c)) => Action::FileOnce(
            FileOnce::Download(
                TransferCommand { connect: with_default_profile(c.connect, profile), ..c },
            ),
        ),
        Action::FileOnce(FileOnce::Ls(c)) => Action::FileOnce(
            FileOnce::Ls(
                ListCommand { connect: with_default_profile(c.connect, profile), ..c },
            ),
        ),
        Action::FileOnce(FileOnce::Write(c)) => Action::FileOnce(
            FileOnce::Write(
                WriteCommand { connect: with_default_profile(c.connect, profile), ..c },
            ),
        ),
        Action::FileOnce(FileOnce::Read(c)) => Action::FileOnce(
            FileOnce::Read(
                ReadFileCommand { connect: with_default_profile(c.connect, profile), ..c },
            ),
        ),
        Action::FileOnce(FileOnce::Delete(c)) => Action::FileOnce(
            FileOnce::Delete(
                DeleteFileCommand { connect: with_default_profile(c.connect, profile), ..c },
            ),
        ),
        Action::FileOnce(FileOnce::Edit(c)) => Action::FileOnce(
            FileOnce::Edit(
                EditFileCommand { connect: with_default_profile(c.connect, profile), ..c },
            ),
        ),
        other => other,
    }
}

// ---------------------------------------------------------------------------
// Laws
// ---------------------------------------------------------------------------

/// A file command is carried out by the daemon where it names a session, and at
/// once where it names none; and it stays the command that it is.
pub proof fn file_commands_go_where_the_session_is(
    c: TransferCommand,
    l: ListCommand,
    w: WriteCommand,
    r: ReadFileCommand,
    d: DeleteFileCommand,
    e: EditFileCommand,
)
    ensures
        c.session_id is Some ==> file_action(FileCommand::Upload(c)) == Action::Client(
            WireRequest::Upload(c),
        ) && file_action(FileCommand::Download(c)) == Action::Client(WireRequest::Download(c)),
        c.session_id is None ==> file_action(FileCommand::Upload(c)) == Action::FileOnce(
            FileOnce::Upload(c),
        ) && file_action(FileCommand::Download(c)) == Action::FileOnce(FileOnce::Download(c)),
        l.session_id is Some ==> file_action(FileCommand::Ls(l)) == Action::Client(
            WireRequest::Ls(l),
        ),
        l.session_id is None ==> file_action(FileCommand::Ls(l)) == Action::FileOnce(
            FileOnce::Ls(l),
        ),
        w.session_id is Some ==> file_action(FileCommand::Write(w)) == Action::Client(
            WireRequest::Write(w),
        ),
        w.session_id is None ==> file_action(FileCommand::Write(w)) == Action::FileOnce(
            FileOnce::Write(w),
        ),
        r.session_id is Some ==> file_action(FileCommand::Read(r)) == Action::Client(
            WireRequest::ReadFile(r),
        ),
        r.session_id is None ==> file_action(FileCommand::Read(r)) == Action::FileOnce(
            FileOnce::Read(r),
        ),
        d.session_id is Some ==> file_action(FileCommand::Delete(d)) == Action::Client(
            WireRequest::DeleteFile(d),
        ),
        d.session_id is None ==> file_action(FileCommand::Delete(d)) == Action::FileOnce(
            FileOnce::Delete(d),
        ),
        e.session_id is Some ==> file_action(FileCommand::Edit(e)) == Action::Client(
            WireRequest::EditFile(e),
        ),
        e.session_id is None ==> file_action(FileCommand::Edit(e)) == Action::FileOnce(
            FileOnce::Edit(e),
        ),
{
}

/// One-shot commands are carried out at once, and what concerns sessions and
/// proxies goes to the daemon, as it was asked for.
pub proof fn commands_go_where_they_belong(
    x: ExecCommand,
    s: ConnectArgs,
    c: ConnectCommand,
    p: ProxyCreateCommand,
    q: ProxyCloseCommand,
    i: SessionInputCommand,
    e: SessionExecCommand,
    r: ReadCommand,
)
    ensures
        action_of(Command::Exec(x)) == Action::Exec(x),
        action_of(Command::Shell(s)) == Action::Shell(s),
        action_of(Command::Connect(c)) == Action::Client(WireRequest::Connect(c)),
        action_of(Command::Proxy(ProxyGroup { command: ProxyCommand::Create(p) }))
            == Action::Client(WireRequest::ProxyCreate(p)),
        action_of(Command::Proxy(ProxyGroup { command: ProxyCommand::Close(q) })) == Action::Client(
            WireRequest::ProxyClose(q),
        ),
        action_of(Command::Proxy(ProxyGroup { command: ProxyCommand::List })) == Action::Client(
            WireRequest::ProxyList,
        ),
        session_action(SessionCommand::Send(i)) == Action::Client(WireRequest::Send(i)),
        session_action(SessionCommand::Exec(e)) == Action::Client(WireRequest::Exec(e)),
        session_action(SessionCommand::Read(r)) == Action::Read(r),
        session_action(SessionCommand::List) == Action::Client(WireRequest::List),
        action_of(Command::Daemon(DaemonGroup { command: DaemonCommand::Shutdown }))
            == Action::Client(WireRequest::Shutdown),
        action_of(Command::Daemon(DaemonGroup { command: DaemonCommand::Status }))
            == Action::DaemonStatus,
{
}

/// Commands about one session go to the daemon as the commands that they are.
pub proof fn session_commands_stay_what_they_are(
    p: SpawnCommand,
    r: ResizeCommand,
    g: SignalCommand,
    s: StatusCommand,
)
    ensures
        session_action(SessionCommand::Spawn(p)) == Action::Client(WireRequest::Spawn(p)),
        session_action(SessionCommand::Resize(r)) == Action::Client(WireRequest::Resize(r)),
        session_action(SessionCommand::Signal(g)) == Action::Client(WireRequest::Signal(g)),
        session_action(SessionCommand::Status(s)) == Action::Client(WireRequest::Status(s)),
        session_action(SessionCommand::Ping(s)) == Action::Client(WireRequest::Ping(s)),
        session_action(SessionCommand::Close(s)) == Action::Client(WireRequest::Close(s)),
{
}

/// The patterns of a request are waited for in the order of their flags.
pub proof fn pairs_are_in_the_order_of_their_flags(c: SessionInputCommand)
    ensures
        pairs_of(c).len() == 3,
        pairs_of(c)[0] == (c.expect, c.respond),
        pairs_of(c)[1] == (c.expect2, c.respond2),
        pairs_of(c)[2] == (c.expect3, c.respond3),
{
}

/// A profile is named in whatever connects, unless it names one itself: the one
/// given for all commands comes before the one of the environment.
pub proof fn profiles_are_named_where_none_is(
    args: ConnectArgs,
    x: ExecCommand,
    given: Option<String>,
    environment: Option<String>,
)
    ensures
        ({
            let named = with_profile(Action::Shell(args), given, environment);
            &&& named is Shell
            &&& args.profile is Some ==> named->Shell_0 == args
            &&& args.profile is None && given is Some ==> named->Shell_0 == (ConnectArgs {
                profile: given,
                ..args
            })
            &&& args.profile is None && given is None ==> named->Shell_0 == (ConnectArgs {
                profile: environment,
                ..args
            })
        }),
        ({
            let named = with_profile(Action::Exec(x), given, environment);
            let profile = if x.connect.profile is Some {
                x.connect.profile
            } else if given is Some {
                given
            } else {
                environment
            };
            &&& named is Exec
            &&& named->Exec_0.connect == (ConnectArgs { profile, ..x.connect })
            &&& named->Exec_0.command == x.command
            &&& named->Exec_0.timeout == x.timeout
        }),
{
}

/// JSON is printed where it is asked for, by either flag, and not otherwise.
pub proof fn json_is_printed_when_asked_for(cli: Cli)
    ensures
        cli.json ==> wants_json(cli),
        cli.output == Some(OutputFormat::Json) ==> wants_json(cli),
        !cli.json && cli.output == Some(OutputFormat::Text) ==> !wants_json(cli),
        !cli.json && cli.output is None ==> !wants_json(cli),
{
}

/// A profile is named in the connections of sessions, proxies and files in the
/// same way, and in nothing that does not connect.
pub proof fn profiles_are_named_everywhere(
    c: ConnectCommand,
    p: ProxyCreateCommand,
    t: TransferCommand,
    l: ListCommand,
    w: WriteCommand,
    given: Option<String>,
    environment: Option<String>,
)
    ensures
        ({
            let profile = |own: ConnectArgs|
                if own.profile is Some {
                    own.profile
                } else if given is Some {
                    given
                } else {
                    environment
                };
            let named = |own: ConnectArgs| ConnectArgs { profile: profile(own), ..own };
            &&& with_profile(Action::Client(WireRequest::Connect(c)), given, environment)
                == Action::Client(
                WireRequest::Connect(ConnectCommand { connect: named(c.connect), ..c }),
            )
            &&& with_profile(Action::Client(WireRequest::ProxyCreate(p)), given, environment)
                == Action::Client(
                WireRequest::ProxyCreate(ProxyCreateCommand { connect: named(p.connect), ..p }),
            )
            &&& with_profile(Action::FileOnce(FileOnce::Upload(t)), given, environment)
                == Action::FileOnce(
                FileOnce::Upload(TransferCommand { connect: named(t.connect), ..t }),
            )
            &&& with_profile(Action::FileOnce(FileOnce::Download(t)), given, environment)
                == Action::FileOnce(
                FileOnce::Download(TransferCommand { connect: named(t.connect), ..t }),
            )
            &&& with_profile(Action::FileOnce(FileOnce::Ls(l)), given, environment)
                == Action::FileOnce(FileOnce::Ls(ListCommand { connect: named(l.connect), ..l }))
            &&& with_profile(Action::FileOnce(FileOnce::Write(w)), given, environment)
                == Action::FileOnce(
                FileOnce::Write(WriteCommand { connect: named(w.connect), ..w }),
            )
        }),
        with_profile(Action::Serve, given, environment) == Action::Serve,
        with_profile(Action::DaemonStatus, given, environment) == Action::DaemonStatus,
        with_profile(Action::Client(WireRequest::List), given, environment) == Action::Client(
            WireRequest::List,
        ),
{
}

/// The same of reading, deleting and editing files.
pub proof fn profiles_are_named_for_files(
    r: ReadFileCommand,
    d: DeleteFileCommand,
    e: EditFileCommand,
    profile: String,
)
    ensures
        with_profile(Action::FileOnce(FileOnce::Read(r)), Some(profile), None) is FileOnce,
        ({
            let named = |own: ConnectArgs|
                if own.profile is Some {
                    own
                } else {
                    ConnectArgs { profile: Some(profile), ..own }
                };
            &&& with_profile(Action::FileOnce(FileOnce::Read(r)), Some(profile), None)
                == Action::FileOnce(
                FileOnce::Read(ReadFileCommand { connect: named(r.connect), ..r }),
            )
            &&& with_profile(Action::FileOnce(FileOnce::Delete(d)), Some(profile), None)
                == Action::FileOnce(
                FileOnce::Delete(DeleteFileCommand { connect: named(d.connect), ..d }),
            )
            &&& with_profile(Action::FileOnce(FileOnce::Edit(e)), Some(profile), None)
                == Action::FileOnce(
                FileOnce::Edit(EditFileCommand { connect: named(e.connect), ..e }),
            )
        }),
{
}

} // verus!
