//! File commands, one step after the other: what is done over SFTP, with remote
//! commands and with local files, and what follows from how it went.

use crate::cli::FileOnce;
use crate::encoding::{base64_bytes, base64_text};
use crate::error::{Error, FileOperation};
use crate::exec::ExecOutput;
use crate::json::{Json, JsonValue};
use crate::sftp::{
    contents_answer, contents_json, decode_command, delete_command, deleted_answer, deleted_json,
    dir_entries, download_command, download_read, downloaded, edit_text, edited, edited_answer,
    edited_json, exec_delete_result, exec_ls_result, exec_write_result, listing_answer,
    listing_lines, ls_command, ls_entries, received_answer, received_json, regex_replaced, route,
    route_of, sent_answer, sent_json, sftp_ls_json, upload_commands, upload_plan, upload_result,
    write_command, written_answer, DirEntry, Route,
};
use crate::shell::quoted;
use crate::text::{lossy_text, replaced, texts, without_white};
use vstd::pervasive::unreached;
use vstd::prelude::*;
use vstd::string::*;
use vstd::utf8::encode_utf8;

verus! {

// ---------------------------------------------------------------------------
// Steps
// ---------------------------------------------------------------------------

/// What is to be done next for a file command.
#[derive(Debug)]
pub enum FileAction {
    /// Read a local file.
    ReadLocal(String),
    /// Write the data of the command to a local file.
    SaveLocal(String),
    /// Write the data of the command to a remote file over SFTP.
    SftpWrite { remote: String, append: bool },
    /// Read a remote file over SFTP.
    SftpRead(String),
    /// List a remote directory over SFTP.
    SftpList(String),
    /// Delete a remote file over SFTP.
    SftpRemoveFile(String),
    /// Delete an empty remote directory over SFTP.
    SftpRemoveDir(String),
    /// Run a command on the remote side.
    Exec(String),
    /// Nothing more: this is what the command comes to.
    Finish(Result<Json, Error>),
}

/// What a [`FileAction`] says.
pub enum ActionView {
    ReadLocal(Seq<char>),
    SaveLocal(Seq<char>),
    SftpWrite { remote: Seq<char>, append: bool },
    SftpRead(Seq<char>),
    SftpList(Seq<char>),
    SftpRemoveFile(Seq<char>),
    SftpRemoveDir(Seq<char>),
    Exec(Seq<char>),
    Finish(Result<JsonValue, Seq<char>>),
}

impl View for FileAction {
    type V = ActionView;

    open spec fn view(&self) -> ActionView {
        match self {
            FileAction::ReadLocal(path) => ActionView::ReadLocal(path@),
            FileAction::SaveLocal(path) => ActionView::SaveLocal(path@),
            FileAction::SftpWrite { remote, append } => ActionView::SftpWrite {
                remote: remote@,
                append: *append,
            },
            FileAction::SftpRead(remote) => ActionView::SftpRead(remote@),
            FileAction::SftpList(remote) => ActionView::SftpList(remote@),
            FileAction::SftpRemoveFile(remote) => ActionView::SftpRemoveFile(remote@),
            FileAction::SftpRemoveDir(remote) => ActionView::SftpRemoveDir(remote@),
            FileAction::Exec(command) => ActionView::Exec(command@),
            FileAction::Finish(Ok(answer)) => ActionView::Finish(Ok(answer@)),
            FileAction::Finish(Err(e)) => ActionView::Finish(Err(e.text())),
        }
    }
}

/// How something that was to be done went.
#[derive(Debug)]
pub enum FileOutcome {
    /// A file was read.
    Bytes(Vec<u8>),
    /// A directory was listed.
    Entries(Vec<DirEntry>),
    /// A command was run; it may have failed.
    Ran(ExecOutput),
    /// It was done.
    Done,
    /// It could not be done.
    Failed(Error),
}

/// What a file command is at.
#[derive(Debug)]
pub enum FilePhase {
    /// An upload reads the local file.
    ReadingLocal { remote: String, method: String },
    /// An upload writes over SFTP.
    SftpUploading { remote: String, route: Route },
    /// An upload runs its commands, of which `k` have been run.
    ExecUploading { remote: String, commands: Vec<String>, k: usize },
    /// A download reads over SFTP.
    SftpDownloading { local: String, remote: String, route: Route },
    /// A download runs its command.
    ExecDownloading { local: String, remote: String },
    /// A download writes the local file.
    Saving { local: String, remote: String, over_sftp: bool },
    /// A listing is made over SFTP.
    SftpListing { remote: String, route: Route },
    /// A listing runs its command.
    ExecListing { remote: String },
    /// A text is written over SFTP.
    SftpWriting { remote: String, content: String, append: bool },
    /// A text is written with a command.
    ExecWriting { remote: String },
    /// A file is read to be shown.
    Reading { remote: String },
    /// A deletion tries it as a file.
    RemovingFile { remote: String, recursive: bool },
    /// A deletion tries it as a directory.
    RemovingDir { remote: String, recursive: bool },
    /// A deletion runs its command.
    ExecDeleting { remote: String },
    /// An edit reads the file.
    EditReading { remote: String, find: String, replace: String, regex: bool },
    /// An edit writes the file.
    EditWriting { remote: String },
    /// The command is over.
    Over,
}

/// What a [`FilePhase`] says.
pub enum PhaseView {
    ReadingLocal { remote: Seq<char>, method: Seq<char> },
    SftpUploading { remote: Seq<char>, route: Route },
    ExecUploading { remote: Seq<char>, commands: Seq<Seq<char>>, k: int },
    SftpDownloading { local: Seq<char>, remote: Seq<char>, route: Route },
    ExecDownloading { local: Seq<char>, remote: Seq<char> },
    Saving { local: Seq<char>, remote: Seq<char>, over_sftp: bool },
    SftpListing { remote: Seq<char>, route: Route },
    ExecListing { remote: Seq<char> },
    SftpWriting { remote: Seq<char>, content: Seq<char>, append: bool },
    ExecWriting { remote: Seq<char> },
    Reading { remote: Seq<char> },
    RemovingFile { remote: Seq<char>, recursive: bool },
    RemovingDir { remote: Seq<char>, recursive: bool },
    ExecDeleting { remote: Seq<char> },
    EditReading { remote: Seq<char>, find: Seq<char>, replace: Seq<char>, regex: bool },
    EditWriting { remote: Seq<char> },
    Over,
}

impl View for FilePhase {
    type V = PhaseView;

    open spec fn view(&self) -> PhaseView {
        match self {
            FilePhase::ReadingLocal { remote, method } => PhaseView::ReadingLocal {
                remote: remote@,
                method: method@,
            },
            FilePhase::SftpUploading { remote, route } => PhaseView::SftpUploading {
                remote: remote@,
                route: *route,
            },
            FilePhase::ExecUploading { remote, commands, k } => PhaseView::ExecUploading {
                remote: remote@,
                commands: texts(commands@),
                k: *k as int,
            },
            FilePhase::SftpDownloading { local, remote, route } => PhaseView::SftpDownloading {
                local: local@,
                remote: remote@,
                route: *route,
            },
            FilePhase::ExecDownloading { local, remote } => PhaseView::ExecDownloading {
                local: local@,
                remote: remote@,
            },
            FilePhase::Saving { local, remote, over_sftp } => PhaseView::Saving {
                local: local@,
                remote: remote@,
                over_sftp: *over_sftp,
            },
            FilePhase::SftpListing { remote, route } => PhaseView::SftpListing {
                remote: remote@,
                route: *route,
            },
            FilePhase::ExecListing { remote } => PhaseView::ExecListing { remote: remote@ },
            FilePhase::SftpWriting { remote, content, append } => PhaseView::SftpWriting {
                remote: remote@,
                content: content@,
                append: *append,
            },
            FilePhase::ExecWriting { remote } => PhaseView::ExecWriting { remote: remote@ },
            FilePhase::Reading { remote } => PhaseView::Reading { remote: remote@ },
            FilePhase::RemovingFile { remote, recursive } => PhaseView::RemovingFile {
                remote: remote@,
                recursive: *recursive,
            },
            FilePhase::RemovingDir { remote, recursive } => PhaseView::RemovingDir {
                remote: remote@,
                recursive: *recursive,
            },
            FilePhase::ExecDeleting { remote } => PhaseView::ExecDeleting { remote: remote@ },
            FilePhase::EditReading { remote, find, replace, regex } => PhaseView::EditReading {
                remote: remote@,
                find: find@,
                replace: replace@,
                regex: *regex,
            },
            FilePhase::EditWriting { remote } => PhaseView::EditWriting { remote: remote@ },
            FilePhase::Over => PhaseView::Over,
        }
    }
}

/// A file command that is being carried out.
#[derive(Debug)]
pub struct FileTask {
    pub phase: FilePhase,
    /// What is to be written, or to be saved.
    pub data: Vec<u8>,
}

/// What a [`FileTask`] says.
pub struct TaskView {
    pub phase: PhaseView,
    pub data: Seq<u8>,
}

impl View for FileTask {
    type V = TaskView;

    open spec fn view(&self) -> TaskView {
        TaskView { phase: self.phase@, data: self.data@ }
    }
}

impl TaskView {
    /// Whether the commands of an upload that are counted as run are not all
    /// of them.
    pub open spec fn wf(self) -> bool {
        self.phase matches PhaseView::ExecUploading { commands, k, .. } ==> 0 <= k < commands.len()
            && commands.len() <= usize::MAX
    }
}

// ---------------------------------------------------------------------------
// What is decided
// ---------------------------------------------------------------------------

/// The command is over and comes to this.
pub open spec fn over(result: Result<JsonValue, Seq<char>>) -> (TaskView, ActionView) {
    (TaskView { phase: PhaseView::Over, data: Seq::empty() }, ActionView::Finish(result))
}

/// The command goes on with this.
pub open spec fn next(phase: PhaseView, data: Seq<u8>, action: ActionView) -> (
    TaskView,
    ActionView,
) {
    (TaskView { phase, data }, action)
}

/// The message that a file operation cannot be carried out in this way.
pub open spec fn unsupported(operation: FileOperation, method: Seq<char>) -> Seq<char> {
    "unsupported "@ + operation.spec_name() + " method: "@ + method
}

/// The message that the command for a file operation failed.
pub open spec fn command_failed(operation: FileOperation, stderr: Seq<char>) -> Seq<char> {
    "exec "@ + operation.spec_name() + " failed: "@ + stderr
}

/// An upload begins to run its commands.
pub open spec fn exec_upload(remote: Seq<char>, data: Seq<u8>) -> (TaskView, ActionView) {
    let commands = upload_plan(base64_text(data), remote);
    next(
        PhaseView::ExecUploading { remote, commands, k: 0 },
        data,
        ActionView::Exec(commands[0]),
    )
}

/// A download begins to run its command.
pub open spec fn exec_download(local: Seq<char>, remote: Seq<char>) -> (TaskView, ActionView) {
    next(
        PhaseView::ExecDownloading { local, remote },
        Seq::empty(),
        ActionView::Exec("base64 "@ + quoted(remote)),
    )
}

/// A listing begins to run its command.
pub open spec fn exec_listing(remote: Seq<char>) -> (TaskView, ActionView) {
    next(
        PhaseView::ExecListing { remote },
        Seq::empty(),
        ActionView::Exec("ls -la "@ + quoted(remote)),
    )
}

/// What a file command begins with.
pub open spec fn file_started(request: FileOnce) -> (TaskView, ActionView) {
    match request {
        FileOnce::Upload(c) => next(
            PhaseView::ReadingLocal { remote: c.remote@, method: c.method@ },
            Seq::empty(),
            ActionView::ReadLocal(c.local@),
        ),
        FileOnce::Download(c) => match route_of(c.method@) {
            None => over(Err(unsupported(FileOperation::Download, c.method@))),
            Some(Route::Exec) => exec_download(c.local@, c.remote@),
            Some(route) => next(
                PhaseView::SftpDownloading { local: c.local@, remote: c.remote@, route },
                Seq::empty(),
                ActionView::SftpRead(c.remote@),
            ),
        },
        FileOnce::Ls(c) => match route_of(c.method@) {
            None => over(Err(unsupported(FileOperation::Ls, c.method@))),
            Some(Route::Exec) => exec_listing(c.remote@),
            Some(route) => next(
                PhaseView::SftpListing { remote: c.remote@, route },
                Seq::empty(),
                ActionView::SftpList(c.remote@),
            ),
        },
        FileOnce::Write(c) => next(
            PhaseView::SftpWriting { remote: c.remote@, content: c.content@, append: c.append },
            encode_utf8(c.content@),
            ActionView::SftpWrite { remote: c.remote@, append: c.append },
        ),
        FileOnce::Read(c) => next(
            PhaseView::Reading { remote: c.remote@ },
            Seq::empty(),
            ActionView::SftpRead(c.remote@),
        ),
        FileOnce::Delete(c) => next(
            PhaseView::RemovingFile { remote: c.remote@, recursive: c.recursive },
            Seq::empty(),
            ActionView::SftpRemoveFile(c.remote@),
        ),
        FileOnce::Edit(c) => next(
            PhaseView::EditReading {
                remote: c.remote@,
                find: c.find@,
                replace: c.replace@,
                regex: c.regex,
            },
            Seq::empty(),
            ActionView::SftpRead(c.remote@),
        ),
    }
}

/// Whether an outcome is one of what is being done: it may always have failed.
pub open spec fn fits(phase: PhaseView, outcome: FileOutcome) -> bool {
    match phase {
        PhaseView::ReadingLocal { .. } | PhaseView::SftpDownloading { .. } | PhaseView::Reading {
            ..
        } | PhaseView::EditReading { .. } => outcome is Bytes || outcome is Failed,
        PhaseView::SftpUploading { .. } | PhaseView::Saving { .. } | PhaseView::SftpWriting { .. }
        | PhaseView::RemovingFile { .. } | PhaseView::RemovingDir { .. }
        | PhaseView::EditWriting { .. } => outcome is Done || outcome is Failed,
        PhaseView::SftpListing { .. } => outcome is Entries || outcome is Failed,
        PhaseView::ExecUploading { .. } | PhaseView::ExecDownloading { .. }
        | PhaseView::ExecListing { .. } | PhaseView::ExecWriting { .. }
        | PhaseView::ExecDeleting { .. } => outcome is Ran || outcome is Failed,
        PhaseView::Over => false,
    }
}

/// What follows when something could not be done: where SFTP is one way among
/// others, the next; otherwise the command fails in the same words.
pub open spec fn after_failure(task: TaskView, message: Seq<char>) -> (TaskView, ActionView) {
    match task.phase {
        PhaseView::SftpUploading { remote, route: Route::SftpThenExec } => exec_upload(
            remote,
            task.data,
        ),
        PhaseView::SftpDownloading { local, remote, route: Route::SftpThenExec } => exec_download(
            local,
            remote,
        ),
        PhaseView::SftpListing { remote, route: Route::SftpThenExec } => exec_listing(remote),
        PhaseView::SftpWriting { remote, content, append } => next(
            PhaseView::ExecWriting { remote },
            Seq::empty(),
            ActionView::Exec(decode_command(base64_text(encode_utf8(content)), remote, append)),
        ),
        PhaseView::RemovingFile { remote, recursive } => next(
            PhaseView::RemovingDir { remote, recursive },
            Seq::empty(),
            ActionView::SftpRemoveDir(remote),
        ),
        PhaseView::RemovingDir { remote, recursive } => next(
            PhaseView::ExecDeleting { remote },
            Seq::empty(),
            ActionView::Exec(
                (if recursive {
                    "rm -rf "@
                } else {
                    "rm -f "@
                }) + quoted(remote),
            ),
        ),
        _ => over(Err(message)),
    }
}

/// What follows when a file was read.
pub open spec fn after_bytes(task: TaskView, data: Seq<u8>) -> (TaskView, ActionView) {
    match task.phase {
        PhaseView::ReadingLocal { remote, method } => match route_of(method) {
            None => over(Err(unsupported(FileOperation::Upload, method))),
            Some(Route::Exec) => exec_upload(remote, data),
            Some(route) => next(
                PhaseView::SftpUploading { remote, route },
                data,
                ActionView::SftpWrite { remote, append: false },
            ),
        },
        PhaseView::SftpDownloading { local, remote, .. } => next(
            PhaseView::Saving { local, remote, over_sftp: true },
            data,
            ActionView::SaveLocal(local),
        ),
        PhaseView::Reading { remote } => over(Ok(contents_answer(remote, data))),
        PhaseView::EditReading { remote, find, replace, regex } => {
            let content = lossy_text(data);
            match edited(content, find, replace, regex, regex_replaced(content, find, replace)) {
                Ok(text) => next(
                    PhaseView::EditWriting { remote },
                    encode_utf8(text),
                    ActionView::SftpWrite { remote, append: false },
                ),
                Err(message) => over(Err(message)),
            }
        },
        _ => arbitrary(),
    }
}

/// What follows when something was done.
pub open spec fn after_done(task: TaskView) -> (TaskView, ActionView) {
    match task.phase {
        PhaseView::SftpUploading { remote, .. } => over(
            Ok(sent_answer(remote, task.data.len(), "sftp"@)),
        ),
        PhaseView::Saving { local, remote, over_sftp } => over(
            Ok(
                received_answer(
                    local,
                    remote,
                    task.data.len(),
                    if over_sftp {
                        "sftp"@
                    } else {
                        "exec"@
                    },
                ),
            ),
        ),
        PhaseView::SftpWriting { remote, .. } => over(
            Ok(sent_answer(remote, task.data.len(), "sftp"@)),
        ),
        PhaseView::RemovingFile { remote, .. } => over(Ok(deleted_answer(remote, "sftp"@))),
        PhaseView::RemovingDir { remote, .. } => over(Ok(deleted_answer(remote, "sftp"@))),
        PhaseView::EditWriting { remote } => over(Ok(edited_answer(remote, task.data.len()))),
        _ => arbitrary(),
    }
}

/// What follows when a command was run.
pub open spec fn after_run(task: TaskView, output: ExecOutput) -> (TaskView, ActionView) {
    let failed = output.exit_code != 0;
    match task.phase {
        PhaseView::ExecUploading { remote, commands, k } => if failed {
            over(
                Err(
                    command_failed(
                        if k == 0 {
                            FileOperation::Upload
                        } else {
                            FileOperation::UploadChunk
                        },
                        output.stderr@,
                    ),
                ),
            )
        } else if k + 1 < commands.len() {
            next(
                PhaseView::ExecUploading { remote, commands, k: k + 1 },
                task.data,
                ActionView::Exec(commands[k + 1]),
            )
        } else {
            over(Ok(sent_answer(remote, task.data.len(), "exec"@)))
        },
        PhaseView::ExecDownloading { local, remote } => match download_read(
            output,
            base64_bytes(without_white(output.stdout@)),
        ) {
            Ok(data) => next(
                PhaseView::Saving { local, remote, over_sftp: false },
                data,
                ActionView::SaveLocal(local),
            ),
            Err(message) => over(Err(message)),
        },
        PhaseView::ExecListing { remote } => over(
            if failed {
                Err(command_failed(FileOperation::Ls, output.stderr@))
            } else {
                Ok(
                    listing_answer(
                        remote,
                        ls_entries(listing_lines(output.stdout@)),
                        "exec"@,
                    ),
                )
            },
        ),
        PhaseView::ExecWriting { remote } => over(
            if failed {
                Err(command_failed(FileOperation::Write, output.stderr@))
            } else {
                Ok(written_answer(remote))
            },
        ),
        PhaseView::ExecDeleting { remote } => over(
            if failed {
                Err(command_failed(FileOperation::Delete, output.stderr@))
            } else {
                Ok(deleted_answer(remote, "exec"@))
            },
        ),
        _ => arbitrary(),
    }
}

/// What follows when a directory was listed.
pub open spec fn after_entries(task: TaskView, entries: Seq<DirEntry>) -> (TaskView, ActionView) {
    match task.phase {
        PhaseView::SftpListing { remote, .. } => over(
            Ok(listing_answer(remote, dir_entries(entries), "sftp"@)),
        ),
        _ => arbitrary(),
    }
}

/// What follows from an outcome that fits.
pub open spec fn file_advanced(task: TaskView, outcome: FileOutcome) -> (TaskView, ActionView) {
    match outcome {
        FileOutcome::Bytes(data) => after_bytes(task, data@),
        FileOutcome::Entries(entries) => after_entries(task, entries@),
        FileOutcome::Ran(output) => after_run(task, output),
        FileOutcome::Done => after_done(task),
        FileOutcome::Failed(e) => after_failure(task, e.text()),
    }
}

// ---------------------------------------------------------------------------
// Carrying it out
// ---------------------------------------------------------------------------

fn finished(result: Result<Json, Error>) -> (r: (FileTask, FileAction))
    ensures
        (r.0@, r.1@) == over(
            match result {
                Ok(answer) => Ok(answer@),
                Err(e) => Err(e.text()),
            },
        ),
{
    let data: Vec<u8> = Vec::new();
    assert(data@ =~= Seq::<u8>::empty());
    (FileTask { phase: FilePhase::Over, data }, FileAction::Finish(result))
}

fn going_on(phase: FilePhase, action: FileAction) -> (r: (FileTask, FileAction))
    ensures
        (r.0@, r.1@) == next(phase@, Seq::empty(), action@),
{
    let data: Vec<u8> = Vec::new();
    assert(data@ =~= Seq::<u8>::empty());
    (FileTask { phase, data }, action)
}

fn start_exec_upload(remote: String, data: Vec<u8>) -> (r: (FileTask, FileAction))
    ensures
        (r.0@, r.1@) == exec_upload(remote@, data@),
        r.0@.wf(),
{
    let commands = upload_commands(data.as_slice(), remote.as_str());
    let n: usize = commands.len();
    assert(texts(commands@).len() == commands@.len());
    assert(commands@[0]@ == texts(commands@)[0]);
    let first = commands[0].clone();
    (
        FileTask { phase: FilePhase::ExecUploading { remote, commands, k: 0 }, data },
        FileAction::Exec(first),
    )
}

fn start_exec_download(local: String, remote: String) -> (r: (FileTask, FileAction))
    ensures
        (r.0@, r.1@) == exec_download(local@, remote@),
{
    let command = download_command(remote.as_str());
    going_on(FilePhase::ExecDownloading { local, remote }, FileAction::Exec(command))
}

fn start_exec_listing(remote: String) -> (r: (FileTask, FileAction))
    ensures
        (r.0@, r.1@) == exec_listing(remote@),
{
    let command = ls_command(remote.as_str());
    going_on(FilePhase::ExecListing { remote }, FileAction::Exec(command))
}

impl FileTask {
    /// Begins a file command. Says what is to be done first.
    pub fn start(request: FileOnce) -> (r: (Self, FileAction))
        ensures
            (r.0@, r.1@) == file_started(request),
            r.0@.wf(),
    {
        match request {
            FileOnce::Upload(c) => going_on(
                FilePhase::ReadingLocal { remote: c.remote, method: c.method },
                FileAction::ReadLocal(c.local),
            ),
            FileOnce::Download(c) => match route(FileOperation::Download, c.method.as_str()) {
                Err(e) => finished(Err(e)),
                Ok(Route::Exec) => start_exec_download(c.local, c.remote),
                Ok(route) => {
                    let remote = c.remote.clone();
                    going_on(
                        FilePhase::SftpDownloading { local: c.local, remote: c.remote, route },
                        FileAction::SftpRead(remote),
                    )
                },
            },
            FileOnce::Ls(c) => match route(FileOperation::Ls, c.method.as_str()) {
                Err(e) => finished(Err(e)),
                Ok(Route::Exec) => start_exec_listing(c.remote),
                Ok(route) => {
                    let remote = c.remote.clone();
                    going_on(
                        FilePhase::SftpListing { remote: c.remote, route },
                        FileAction::SftpList(remote),
                    )
                },
            },
            FileOnce::Write(c) => {
                let remote = c.remote.clone();
                let data = c.content.as_str().as_bytes_vec();
                (
                    FileTask {
                        phase: FilePhase::SftpWriting {
                            remote: c.remote,
                            content: c.content,
                            append: c.append,
                        },
                        data,
                    },
                    FileAction::SftpWrite { remote, append: c.append },
                )
            },
            FileOnce::Read(c) => {
                let remote = c.remote.clone();
                going_on(FilePhase::Reading { remote: c.remote }, FileAction::SftpRead(remote))
            },
            FileOnce::Delete(c) => {
                let remote = c.remote.clone();
                going_on(
                    FilePhase::RemovingFile { remote: c.remote, recursive: c.recursive },
                    FileAction::SftpRemoveFile(remote),
                )
            },
            FileOnce::Edit(c) => {
                let remote = c.remote.clone();
                going_on(
                    FilePhase::EditReading {
                        remote: c.remote,
                        find: c.find,
                        replace: c.replace,
                        regex: c.regex,
                    },
                    FileAction::SftpRead(remote),
                )
            },
        }
    }

    fn failed(self, error: Error) -> (r: (Self, FileAction))
        requires
            self@.wf(),
        ensures
            (r.0@, r.1@) == after_failure(self@, error.text()),
            r.0@.wf(),
    {
        match self.phase {
            FilePhase::SftpUploading { remote, route: Route::SftpThenExec } => start_exec_upload(
                remote,
                self.data,
            ),
            FilePhase::SftpDownloading { local, remote, route: Route::SftpThenExec } =>
                start_exec_download(local, remote),
            FilePhase::SftpListing { remote, route: Route::SftpThenExec } => start_exec_listing(
                remote,
            ),
            FilePhase::SftpWriting { remote, content, append } => {
                let command = write_command(content.as_str(), remote.as_str(), append);
                going_on(FilePhase::ExecWriting { remote }, FileAction::Exec(command))
            },
            FilePhase::RemovingFile { remote, recursive } => {
                let path = remote.clone();
                going_on(
                    FilePhase::RemovingDir { remote, recursive },
                    FileAction::SftpRemoveDir(path),
                )
            },
            FilePhase::RemovingDir { remote, recursive } => {
                let command = delete_command(remote.as_str(), recursive);
                going_on(FilePhase::ExecDeleting { remote }, FileAction::Exec(command))
            },
            _ => finished(Err(error)),
        }
    }

    fn read(self, data: Vec<u8>) -> (r: (Self, FileAction))
        requires
            fits(self@.phase, FileOutcome::Bytes(data)),
        ensures
            (r.0@, r.1@) == after_bytes(self@, data@),
            r.0@.wf(),
    {
        match self.phase {
            FilePhase::ReadingLocal { remote, method } => match route(
                FileOperation::Upload,
                method.as_str(),
            ) {
                Err(e) => finished(Err(e)),
                Ok(Route::Exec) => start_exec_upload(remote, data),
                Ok(route) => {
                    let path = remote.clone();
                    (
                        FileTask { phase: FilePhase::SftpUploading { remote, route }, data },
                        FileAction::SftpWrite { remote: path, append: false },
                    )
                },
            },
            FilePhase::SftpDownloading { local, remote, .. } => {
                let path = local.clone();
                (
                    FileTask { phase: FilePhase::Saving { local, remote, over_sftp: true }, data },
                    FileAction::SaveLocal(path),
                )
            },
            FilePhase::Reading { remote } => finished(
                Ok(contents_json(remote.as_str(), data.as_slice())),
            ),
            FilePhase::EditReading { remote, find, replace, regex } => match edit_text(
                data.as_slice(),
                find.as_str(),
                replace.as_str(),
                regex,
            ) {
                Ok(text) => {
                    let path = remote.clone();
                    (
                        FileTask {
                            phase: FilePhase::EditWriting { remote },
                            data: text.as_str().as_bytes_vec(),
                        },
                        FileAction::SftpWrite { remote: path, append: false },
                    )
                },
                Err(e) => finished(Err(e)),
            },
            _ => unreached(),
        }
    }

    fn done(self) -> (r: (Self, FileAction))
        requires
            fits(self@.phase, FileOutcome::Done),
        ensures
            (r.0@, r.1@) == after_done(self@),
            r.0@.wf(),
    {
        let n: usize = self.data.len();
        match self.phase {
            FilePhase::SftpUploading { remote, .. } => finished(
                Ok(sent_json(remote.as_str(), n, "sftp")),
            ),
            FilePhase::Saving { local, remote, over_sftp } => {
                let method = if over_sftp {
                    "sftp"
                } else {
                    "exec"
                };
                finished(Ok(received_json(local.as_str(), remote.as_str(), n, method)))
            },
            FilePhase::SftpWriting { remote, .. } => finished(
                Ok(sent_json(remote.as_str(), n, "sftp")),
            ),
            FilePhase::RemovingFile { remote, .. } => finished(
                Ok(deleted_json(remote.as_str(), "sftp")),
            ),
            FilePhase::RemovingDir { remote, .. } => finished(
                Ok(deleted_json(remote.as_str(), "sftp")),
            ),
            FilePhase::EditWriting { remote } => finished(Ok(edited_json(remote.as_str(), n))),
            _ => unreached(),
        }
    }

    fn ran(self, output: ExecOutput) -> (r: (Self, FileAction))
        requires
            self@.wf(),
            fits(self@.phase, FileOutcome::Ran(output)),
        ensures
            (r.0@, r.1@) == after_run(self@, output),
            r.0@.wf(),
    {
        let n: usize = self.data.len();
        match self.phase {
            FilePhase::ExecUploading { remote, commands, k } => {
                assert(texts(commands@).len() == commands@.len());
                match upload_result(k, &output) {
                    Err(e) => finished(Err(e)),
                    Ok(_) => if k + 1 < commands.len() {
                        assert(commands@[k + 1]@ == texts(commands@)[k + 1]);
                        let command = commands[k + 1].clone();
                        (
                            FileTask {
                                phase: FilePhase::ExecUploading { remote, commands, k: k + 1 },
                                data: self.data,
                            },
                            FileAction::Exec(command),
                        )
                    } else {
                        finished(Ok(sent_json(remote.as_str(), n, "exec")))
                    },
                }
            },
            FilePhase::ExecDownloading { local, remote } => match downloaded(&output) {
                Ok(data) => {
                    let path = local.clone();
                    (
                        FileTask {
                            phase: FilePhase::Saving { local, remote, over_sftp: false },
                            data,
                        },
                        FileAction::SaveLocal(path),
                    )
                },
                Err(e) => finished(Err(e)),
            },
            FilePhase::ExecListing { remote } => finished(
                exec_ls_result(remote.as_str(), &output),
            ),
            FilePhase::ExecWriting { remote } => finished(
                exec_write_result(remote.as_str(), &output),
            ),
            FilePhase::ExecDeleting { remote } => finished(
                exec_delete_result(remote.as_str(), &output),
            ),
            _ => unreached(),
        }
    }

    fn listed(self, entries: Vec<DirEntry>) -> (r: (Self, FileAction))
        requires
            fits(self@.phase, FileOutcome::Entries(entries)),
        ensures
            (r.0@, r.1@) == after_entries(self@, entries@),
            r.0@.wf(),
    {
        match self.phase {
            FilePhase::SftpListing { remote, .. } => finished(
                Ok(sftp_ls_json(remote.as_str(), &entries)),
            ),
            _ => unreached(),
        }
    }

    /// Takes in how it went. Says what is to be done next.
    pub fn advance(self, outcome: FileOutcome) -> (r: (Self, FileAction))
        requires
            self@.wf(),
            fits(self@.phase, outcome),
        ensures
            (r.0@, r.1@) == file_advanced(self@, outcome),
            r.0@.wf(),
    {
        match outcome {
            FileOutcome::Bytes(data) => self.read(data),
            FileOutcome::Entries(entries) => self.listed(entries),
            FileOutcome::Ran(output) => self.ran(output),
            FileOutcome::Done => self.done(),
            FileOutcome::Failed(e) => self.failed(e),
        }
    }
}

// ---------------------------------------------------------------------------
// Laws
// ---------------------------------------------------------------------------

/// How many kinds of work are left at most.
pub open spec fn stages_left(phase: PhaseView) -> int {
    match phase {
        PhaseView::ReadingLocal { .. } => 4,
        PhaseView::SftpUploading { .. } => 3,
        PhaseView::SftpDownloading { .. } => 3,
        PhaseView::SftpListing { .. } => 3,
        PhaseView::SftpWriting { .. } => 3,
        PhaseView::RemovingFile { .. } => 4,
        PhaseView::RemovingDir { .. } => 3,
        PhaseView::EditReading { .. } => 3,
        PhaseView::ExecUploading { .. } => 2,
        PhaseView::ExecDownloading { .. } => 2,
        PhaseView::ExecListing { .. } => 2,
        PhaseView::ExecWriting { .. } => 2,
        PhaseView::ExecDeleting { .. } => 2,
        PhaseView::Reading { .. } => 2,
        PhaseView::EditWriting { .. } => 2,
        PhaseView::Saving { .. } => 1,
        PhaseView::Over => 0,
    }
}

/// How many commands of an upload are left.
pub open spec fn commands_left(phase: PhaseView) -> int {
    match phase {
        PhaseView::ExecUploading { commands, k, .. } => commands.len() - k,
        _ => 0,
    }
}

/// A file command always ends: whatever the outcomes are, with each of them it
/// is over, or less is left to do.
pub proof fn file_commands_end(task: TaskView, outcome: FileOutcome)
    requires
        task.wf(),
        fits(task.phase, outcome),
    ensures
        ({
            let (after, action) = file_advanced(task, outcome);
            &&& action is Finish <==> after.phase is Over
            &&& after.phase is Over || stages_left(after.phase) < stages_left(task.phase) || (
            stages_left(after.phase) == stages_left(task.phase) && 0 <= commands_left(after.phase)
                < commands_left(task.phase))
        }),
{
}

/// Commands take the place of SFTP only where the way was left open: a command
/// that asked for SFTP fails in the words of SFTP.
pub proof fn sftp_is_not_replaced_unasked(task: TaskView, message: Seq<char>)
    requires
        match task.phase {
            PhaseView::SftpUploading { route, .. } => route == Route::Sftp,
            PhaseView::SftpDownloading { route, .. } => route == Route::Sftp,
            PhaseView::SftpListing { route, .. } => route == Route::Sftp,
            _ => false,
        },
    ensures
        after_failure(task, message) == over(Err(message)),
{
}

/// An upload with commands succeeds only when all of them have been run and
/// have succeeded: as long as one is left, or when one fails, it does not.
pub proof fn uploads_need_all_commands(task: TaskView, output: ExecOutput)
    requires
        task.wf(),
        task.phase is ExecUploading,
    ensures
        after_run(task, output).1 matches ActionView::Finish(Ok(_)) ==> output.exit_code == 0
            && commands_left(task.phase) == 1,
{
}

proof fn lemma_methods()
    ensures
        "auto"@ != "sftp"@,
        "auto"@ != "exec"@,
        "sftp"@ != "exec"@,
{
    reveal_strlit("auto");
    reveal_strlit("sftp");
    reveal_strlit("exec");
    assert("auto"@[0] == 'a' && "sftp"@[0] == 's' && "exec"@[0] == 'e');
}

/// An upload reads the local file that it names and writes what it holds to the
/// remote file that it names: over SFTP, unless commands are asked for; and with
/// commands where SFTP fails and the way was left open. It says how many bytes
/// it has written, and which way.
pub proof fn uploads_carry_the_local_file(
    c: crate::cli::TransferCommand,
    data: Vec<u8>,
    message: Error,
)
    ensures
        ({
            let (started, first) = file_started(FileOnce::Upload(c));
            let (reading, second) = file_advanced(started, FileOutcome::Bytes(data));
            let by_commands = {
                &&& second == ActionView::Exec(upload_plan(base64_text(data@), c.remote@)[0])
                &&& reading.data == data@
            };
            &&& first == ActionView::ReadLocal(c.local@)
            &&& c.method@ == "auto"@ || c.method@ == "sftp"@ ==> {
                &&& second == (ActionView::SftpWrite { remote: c.remote@, append: false })
                &&& reading.data == data@
                &&& file_advanced(reading, FileOutcome::Done).1 == ActionView::Finish(
                    Ok(sent_answer(c.remote@, data@.len(), "sftp"@)),
                )
            }
            &&& c.method@ == "auto"@ ==> file_advanced(reading, FileOutcome::Failed(message)).1
                == ActionView::Exec(upload_plan(base64_text(data@), c.remote@)[0])
            &&& c.method@ == "sftp"@ ==> file_advanced(reading, FileOutcome::Failed(message)).1
                == ActionView::Finish(Err(message.text()))
            &&& c.method@ == "exec"@ ==> by_commands
            &&& c.method@ != "auto"@ && c.method@ != "sftp"@ && c.method@ != "exec"@ ==> second
                is Finish && second->Finish_0 is Err
            &&& file_advanced(started, FileOutcome::Failed(message)).1 == ActionView::Finish(
                Err(message.text()),
            )
        }),
{
    lemma_methods();
}

/// An upload with commands runs them one after the other, each once, as long as
/// they succeed, and then says how many bytes it has written. The first that
/// fails ends it.
pub proof fn upload_commands_are_run_in_order(
    remote: Seq<char>,
    data: Seq<u8>,
    k: int,
    output: ExecOutput,
)
    requires
        0 <= k < upload_plan(base64_text(data), remote).len(),
    ensures
        ({
            let commands = upload_plan(base64_text(data), remote);
            let at = |j: int| TaskView {
                phase: PhaseView::ExecUploading { remote, commands, k: j },
                data,
            };
            let (after, action) = file_advanced(at(k), FileOutcome::Ran(output));
            &&& output.exit_code == 0 && k + 1 < commands.len() ==> after == at(k + 1) && action
                == ActionView::Exec(commands[k + 1])
            &&& output.exit_code == 0 && k + 1 == commands.len() ==> action == ActionView::Finish(
                Ok(sent_answer(remote, data.len(), "exec"@)),
            )
            &&& output.exit_code != 0 ==> action is Finish && action->Finish_0 is Err
        }),
{
}

/// A download reads the remote file that it names and saves what it holds in the
/// local file that it names, by the way that was asked for.
pub proof fn downloads_save_the_remote_file(
    c: crate::cli::TransferCommand,
    data: Vec<u8>,
    message: Error,
    output: ExecOutput,
)
    ensures
        ({
            let (started, first) = file_started(FileOnce::Download(c));
            let by_command = ActionView::Exec("base64 "@ + quoted(c.remote@));
            &&& c.method@ == "auto"@ || c.method@ == "sftp"@ ==> {
                let (reading, second) = file_advanced(started, FileOutcome::Bytes(data));
                &&& first == ActionView::SftpRead(c.remote@)
                &&& second == ActionView::SaveLocal(c.local@)
                &&& reading.data == data@
                &&& file_advanced(reading, FileOutcome::Done).1 == ActionView::Finish(
                    Ok(received_answer(c.local@, c.remote@, data@.len(), "sftp"@)),
                )
                &&& file_advanced(reading, FileOutcome::Failed(message)).1 == ActionView::Finish(
                    Err(message.text()),
                )
            }
            &&& c.method@ == "auto"@ ==> file_advanced(started, FileOutcome::Failed(message)).1
                == by_command
            &&& c.method@ == "sftp"@ ==> file_advanced(started, FileOutcome::Failed(message)).1
                == ActionView::Finish(Err(message.text()))
            &&& c.method@ == "exec"@ ==> {
                let (ran, second) = file_advanced(started, FileOutcome::Ran(output));
                &&& first == by_command
                &&& output.exit_code == 0 && without_white(output.stdout@) == base64_text(data@)
                    ==> {
                    &&& second == ActionView::SaveLocal(c.local@)
                    &&& ran.data == data@
                    &&& file_advanced(ran, FileOutcome::Done).1 == ActionView::Finish(
                        Ok(received_answer(c.local@, c.remote@, data@.len(), "exec"@)),
                    )
                }
                &&& output.exit_code != 0 ==> second is Finish && second->Finish_0 is Err
            }
            &&& c.method@ != "auto"@ && c.method@ != "sftp"@ && c.method@ != "exec"@ ==> first
                is Finish && first->Finish_0 is Err
        }),
{
    lemma_methods();
    crate::encoding::base64_is_read_back(data@);
}

/// A listing asks for the directory that it names, by the way that was asked
/// for, and answers with all that was found.
pub proof fn listings_list_the_directory(
    c: crate::cli::ListCommand,
    entries: Vec<DirEntry>,
    message: Error,
    output: ExecOutput,
)
    ensures
        ({
            let (started, first) = file_started(FileOnce::Ls(c));
            let by_command = ActionView::Exec("ls -la "@ + quoted(c.remote@));
            &&& c.method@ == "auto"@ || c.method@ == "sftp"@ ==> {
                &&& first == ActionView::SftpList(c.remote@)
                &&& file_advanced(started, FileOutcome::Entries(entries)).1 == ActionView::Finish(
                    Ok(listing_answer(c.remote@, dir_entries(entries@), "sftp"@)),
                )
            }
            &&& c.method@ == "auto"@ ==> file_advanced(started, FileOutcome::Failed(message)).1
                == by_command
            &&& c.method@ == "sftp"@ ==> file_advanced(started, FileOutcome::Failed(message)).1
                == ActionView::Finish(Err(message.text()))
            &&& c.method@ == "exec"@ ==> {
                let second = file_advanced(started, FileOutcome::Ran(output)).1;
                &&& first == by_command
                &&& output.exit_code == 0 ==> second == ActionView::Finish(
                    Ok(
                        listing_answer(
                            c.remote@,
                            ls_entries(listing_lines(output.stdout@)),
                            "exec"@,
                        ),
                    ),
                )
                &&& output.exit_code != 0 ==> second is Finish && second->Finish_0 is Err
            }
            &&& c.method@ != "auto"@ && c.method@ != "sftp"@ && c.method@ != "exec"@ ==> first
                is Finish && first->Finish_0 is Err
        }),
{
    lemma_methods();
}

/// A text is written to the file as it is given, in place of what the file holds
/// or behind it as was asked for: over SFTP, or with a command where that fails.
pub proof fn texts_are_written_as_given(
    c: crate::cli::WriteCommand,
    message: Error,
    output: ExecOutput,
)
    ensures
        ({
            let (started, first) = file_started(FileOnce::Write(c));
            let bytes = encode_utf8(c.content@);
            let (fallen_back, second) = file_advanced(started, FileOutcome::Failed(message));
            let third = file_advanced(fallen_back, FileOutcome::Ran(output)).1;
            &&& first == (ActionView::SftpWrite { remote: c.remote@, append: c.append })
            &&& started.data == bytes
            &&& file_advanced(started, FileOutcome::Done).1 == ActionView::Finish(
                Ok(sent_answer(c.remote@, bytes.len(), "sftp"@)),
            )
            &&& c.append ==> second == ActionView::Exec(
                "echo "@ + quoted(base64_text(bytes)) + " | base64 -d >> "@ + quoted(c.remote@),
            )
            &&& !c.append ==> second == ActionView::Exec(
                "echo "@ + quoted(base64_text(bytes)) + " | base64 -d > "@ + quoted(c.remote@),
            )
            &&& output.exit_code == 0 ==> third == ActionView::Finish(
                Ok(written_answer(c.remote@)),
            )
            &&& output.exit_code != 0 ==> third is Finish && third->Finish_0 is Err
        }),
{
}

/// The file that is shown is the one that was asked for, and nothing is done to
/// it.
pub proof fn files_are_read_and_left_alone(
    c: crate::cli::ReadFileCommand,
    data: Vec<u8>,
    message: Error,
)
    ensures
        ({
            let (started, first) = file_started(FileOnce::Read(c));
            &&& first == ActionView::SftpRead(c.remote@)
            &&& file_advanced(started, FileOutcome::Bytes(data)).1 == ActionView::Finish(
                Ok(contents_answer(c.remote@, data@)),
            )
            &&& file_advanced(started, FileOutcome::Failed(message)).1 == ActionView::Finish(
                Err(message.text()),
            )
        }),
{
}

/// A deletion tries the path as a file, then as an empty directory, then with a
/// command, which removes what is in a directory only where that was asked for.
/// It names no other path.
pub proof fn deletions_keep_to_their_path(
    c: crate::cli::DeleteFileCommand,
    message: Error,
    output: ExecOutput,
)
    ensures
        ({
            let (one, first) = file_started(FileOnce::Delete(c));
            let (two, second) = file_advanced(one, FileOutcome::Failed(message));
            let (three, third) = file_advanced(two, FileOutcome::Failed(message));
            let last = file_advanced(three, FileOutcome::Ran(output)).1;
            &&& first == ActionView::SftpRemoveFile(c.remote@)
            &&& file_advanced(one, FileOutcome::Done).1 == ActionView::Finish(
                Ok(deleted_answer(c.remote@, "sftp"@)),
            )
            &&& second == ActionView::SftpRemoveDir(c.remote@)
            &&& file_advanced(two, FileOutcome::Done).1 == ActionView::Finish(
                Ok(deleted_answer(c.remote@, "sftp"@)),
            )
            &&& c.recursive ==> third == ActionView::Exec("rm -rf "@ + quoted(c.remote@))
            &&& !c.recursive ==> third == ActionView::Exec("rm -f "@ + quoted(c.remote@))
            &&& output.exit_code == 0 ==> last == ActionView::Finish(
                Ok(deleted_answer(c.remote@, "exec"@)),
            )
            &&& output.exit_code != 0 ==> last is Finish && last->Finish_0 is Err
        }),
{
}

/// An edit reads the file that it names, changes its text and writes all of it
/// back to the same file, in place of what it held; it says how long the file
/// is then.
pub proof fn edits_write_the_file_back(
    c: crate::cli::EditFileCommand,
    data: Vec<u8>,
    message: Error,
)
    ensures
        ({
            let (started, first) = file_started(FileOnce::Edit(c));
            let (read, second) = file_advanced(started, FileOutcome::Bytes(data));
            let text = replaced(lossy_text(data@), c.find@, c.replace@);
            &&& first == ActionView::SftpRead(c.remote@)
            &&& !c.regex ==> {
                &&& second == (ActionView::SftpWrite { remote: c.remote@, append: false })
                &&& read.data == encode_utf8(text)
                &&& file_advanced(read, FileOutcome::Done).1 == ActionView::Finish(
                    Ok(edited_answer(c.remote@, encode_utf8(text).len())),
                )
                &&& file_advanced(read, FileOutcome::Failed(message)).1 == ActionView::Finish(
                    Err(message.text()),
                )
            }
            &&& c.regex ==> match regex_replaced(lossy_text(data@), c.find@, c.replace@) {
                Ok(changed) => {
                    &&& second == (ActionView::SftpWrite { remote: c.remote@, append: false })
                    &&& read.data == encode_utf8(changed)
                },
                Err(complaint) => second == ActionView::Finish(Err(complaint)),
            }
            &&& file_advanced(started, FileOutcome::Failed(message)).1 == ActionView::Finish(
                Err(message.text()),
            )
        }),
{
}

} // verus!
