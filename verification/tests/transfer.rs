use agentssh::cli::{
    ConnectArgs, DeleteFileCommand, EditFileCommand, FileOnce, ListCommand, ReadFileCommand,
    TransferCommand, WriteCommand,
};
use agentssh::error::Error;
use agentssh::exec::ExecOutput;
use agentssh::json::Json;
use agentssh::sftp::DirEntry;
use agentssh::transfer::{FileAction, FileOutcome, FileTask};

fn transfer(method: &str) -> TransferCommand {
    TransferCommand {
        connect: ConnectArgs::default(),
        session_id: None,
        local: "l.txt".to_string(),
        remote: "/r.txt".to_string(),
        method: method.to_string(),
    }
}

fn list(method: &str) -> FileOnce {
    FileOnce::Ls(ListCommand {
        connect: ConnectArgs::default(),
        session_id: None,
        remote: "/tmp".to_string(),
        method: method.to_string(),
    })
}

fn ran(stdout: &str, stderr: &str, exit_code: i32) -> FileOutcome {
    FileOutcome::Ran(ExecOutput {
        stdout: stdout.to_string(),
        stderr: stderr.to_string(),
        exit_code,
    })
}

fn failed() -> FileOutcome {
    FileOutcome::Failed(Error::Outside("no sftp".to_string()))
}

/// Carries a command out with the given outcomes. Says what was done, and what
/// it came to.
fn carried_out(request: FileOnce, outcomes: Vec<FileOutcome>) -> (Vec<String>, Result<Json, String>) {
    let (mut task, mut action) = FileTask::start(request);
    let mut steps = Vec::new();
    let mut outcomes = outcomes.into_iter();
    loop {
        steps.push(match &action {
            FileAction::ReadLocal(path) => format!("read {path}"),
            FileAction::SaveLocal(path) => format!("save {path} {}", task.data.len()),
            FileAction::SftpWrite { remote, append } => {
                format!("put {remote} {} {append}", String::from_utf8_lossy(&task.data))
            }
            FileAction::SftpRead(remote) => format!("get {remote}"),
            FileAction::SftpList(remote) => format!("list {remote}"),
            FileAction::SftpRemoveFile(remote) => format!("rm {remote}"),
            FileAction::SftpRemoveDir(remote) => format!("rmdir {remote}"),
            FileAction::Exec(command) => format!("exec {command}"),
            FileAction::Finish(_) => String::new(),
        });
        if let FileAction::Finish(result) = action {
            steps.pop();
            assert!(outcomes.next().is_none());
            return (steps, result.map_err(|e| e.to_string()));
        }
        (task, action) = task.advance(outcomes.next().expect("one more outcome"));
    }
}

fn method_of(result: Result<Json, String>) -> String {
    let answer = result.expect("an answer");
    let method = answer.get("method").and_then(|v| v.as_str()).expect("a method").to_string();
    method
}

#[test]
fn upload_goes_over_sftp() {
    let (steps, result) = carried_out(
        FileOnce::Upload(transfer("auto")),
        vec![FileOutcome::Bytes(b"hi".to_vec()), FileOutcome::Done],
    );
    assert_eq!(steps, vec!["read l.txt", "put /r.txt hi false"]);
    assert_eq!(method_of(result), "sftp");
}

#[test]
fn upload_falls_back_to_commands() {
    let data = vec![b'x'; 30_000];
    let (steps, result) = carried_out(
        FileOnce::Upload(transfer("auto")),
        vec![FileOutcome::Bytes(data), failed(), ran("", "", 0), ran("", "", 0)],
    );
    assert_eq!(steps.len(), 4);
    assert!(steps[2].ends_with("| base64 -d > /r.txt"));
    assert!(steps[3].ends_with("| base64 -d >> /r.txt"));
    let answer = result.unwrap();
    assert_eq!(answer.get("bytes").unwrap().as_u64(), Some(30_000));
    assert_eq!(answer.get("method").unwrap().as_str(), Some("exec"));
}

#[test]
fn upload_stops_at_the_first_failure() {
    let data = || FileOutcome::Bytes(vec![b'x'; 30_000]);
    let (_, first) =
        carried_out(FileOnce::Upload(transfer("exec")), vec![data(), ran("", "full", 1)]);
    assert_eq!(first.unwrap_err(), "exec upload failed: full");
    let (_, second) = carried_out(
        FileOnce::Upload(transfer("exec")),
        vec![data(), ran("", "", 0), ran("", "full", 1)],
    );
    assert_eq!(second.unwrap_err(), "exec upload chunk failed: full");
    let (_, cut) = carried_out(FileOnce::Upload(transfer("exec")), vec![data(), failed()]);
    assert_eq!(cut.unwrap_err(), "no sftp");
}

#[test]
fn upload_is_read_before_the_method_is_looked_at() {
    let (steps, missing) = carried_out(
        FileOnce::Upload(transfer("scp")),
        vec![FileOutcome::Failed(Error::Outside("reading l.txt".to_string()))],
    );
    assert_eq!((steps.len(), missing.unwrap_err().as_str()), (1, "reading l.txt"));
    let (_, unsupported) = carried_out(
        FileOnce::Upload(transfer("scp")),
        vec![FileOutcome::Bytes(Vec::new())],
    );
    assert_eq!(unsupported.unwrap_err(), "unsupported upload method: scp");
}

#[test]
fn download_over_sftp_or_commands() {
    let (steps, result) = carried_out(
        FileOnce::Download(transfer("sftp")),
        vec![FileOutcome::Bytes(b"abc".to_vec()), FileOutcome::Done],
    );
    assert_eq!(steps, vec!["get /r.txt", "save l.txt 3"]);
    assert_eq!(method_of(result), "sftp");
    let (steps, result) = carried_out(
        FileOnce::Download(transfer("auto")),
        vec![failed(), ran("aGVsbG8=\n", "", 0), FileOutcome::Done],
    );
    assert_eq!(steps, vec!["get /r.txt", "exec base64 /r.txt", "save l.txt 5"]);
    assert_eq!(method_of(result), "exec");
}

#[test]
fn download_that_cannot_be_saved_is_not_repeated() {
    let (steps, result) = carried_out(
        FileOnce::Download(transfer("auto")),
        vec![FileOutcome::Bytes(b"abc".to_vec()), failed()],
    );
    assert_eq!(steps.len(), 2);
    assert_eq!(result.unwrap_err(), "no sftp");
    let (steps, unsupported) = carried_out(FileOnce::Download(transfer("scp")), vec![]);
    assert!(steps.is_empty());
    assert_eq!(unsupported.unwrap_err(), "unsupported download method: scp");
}

#[test]
fn sftp_alone_does_not_fall_back() {
    for request in [
        FileOnce::Download(transfer("sftp")),
        list("sftp"),
        FileOnce::Read(ReadFileCommand {
            connect: ConnectArgs::default(),
            session_id: None,
            remote: "/r.txt".to_string(),
        }),
    ] {
        let (steps, result) = carried_out(request, vec![failed()]);
        assert_eq!((steps.len(), result.unwrap_err().as_str()), (1, "no sftp"));
    }
    let (_, result) = carried_out(
        FileOnce::Upload(transfer("sftp")),
        vec![FileOutcome::Bytes(Vec::new()), failed()],
    );
    assert_eq!(result.unwrap_err(), "no sftp");
}

#[test]
fn listing_over_either() {
    let entry = DirEntry {
        name: "a".to_string(),
        path: "/tmp/a".to_string(),
        is_dir: false,
        size: 1,
        modified: None,
    };
    let (_, over_sftp) = carried_out(list("auto"), vec![FileOutcome::Entries(vec![entry])]);
    assert_eq!(over_sftp.unwrap().get("entries").unwrap().as_array().unwrap().len(), 1);
    let (steps, by_command) =
        carried_out(list("auto"), vec![failed(), ran("total 0\n", "", 0)]);
    assert_eq!(steps, vec!["list /tmp", "exec ls -la /tmp"]);
    assert_eq!(method_of(by_command), "exec");
    let (_, refused) = carried_out(list("exec"), vec![ran("", "denied", 2)]);
    assert_eq!(refused.unwrap_err(), "exec ls failed: denied");
}

#[test]
fn writing_over_either() {
    let write = |append: bool| {
        FileOnce::Write(WriteCommand {
            connect: ConnectArgs::default(),
            session_id: None,
            remote: "/log".to_string(),
            content: "x".to_string(),
            append,
        })
    };
    let (steps, result) = carried_out(write(true), vec![FileOutcome::Done]);
    assert_eq!(steps, vec!["put /log x true"]);
    assert_eq!(result.unwrap().get("bytes").unwrap().as_u64(), Some(1));
    let (steps, result) = carried_out(write(false), vec![failed(), ran("", "", 0)]);
    assert_eq!(steps[1], "exec echo 'eA==' | base64 -d > /log");
    assert_eq!(result.unwrap().get("path").unwrap().as_str(), Some("/log"));
}

#[test]
fn deleting_tries_everything() {
    let delete = |recursive: bool| {
        FileOnce::Delete(DeleteFileCommand {
            connect: ConnectArgs::default(),
            session_id: None,
            remote: "/d".to_string(),
            recursive,
        })
    };
    assert_eq!(method_of(carried_out(delete(false), vec![FileOutcome::Done]).1), "sftp");
    assert_eq!(method_of(carried_out(delete(false), vec![failed(), FileOutcome::Done]).1), "sftp");
    let (steps, result) = carried_out(delete(true), vec![failed(), failed(), ran("", "", 0)]);
    assert_eq!(steps, vec!["rm /d", "rmdir /d", "exec rm -rf /d"]);
    assert_eq!(method_of(result), "exec");
    let (steps, result) = carried_out(delete(false), vec![failed(), failed(), ran("", "no", 1)]);
    assert_eq!(steps[2], "exec rm -f /d");
    assert_eq!(result.unwrap_err(), "exec delete failed: no");
}

#[test]
fn editing_reads_and_writes() {
    let edit = |regex: bool| {
        FileOnce::Edit(EditFileCommand {
            connect: ConnectArgs::default(),
            session_id: None,
            remote: "/c".to_string(),
            find: "[0-9]+".to_string(),
            replace: "n".to_string(),
            regex,
        })
    };
    let contents = || FileOutcome::Bytes(b"a1 b22".to_vec());
    let (steps, result) = carried_out(edit(true), vec![contents(), FileOutcome::Done]);
    assert_eq!(steps, vec!["get /c", "put /c an bn false"]);
    assert_eq!(result.unwrap().get("size").unwrap().as_u64(), Some(5));
    let (steps, _) = carried_out(edit(false), vec![contents(), FileOutcome::Done]);
    assert_eq!(steps[1], "put /c a1 b22 false");
    assert_eq!(carried_out(edit(true), vec![failed()]).1.unwrap_err(), "no sftp");
    assert_eq!(carried_out(edit(true), vec![contents(), failed()]).1.unwrap_err(), "no sftp");
}
