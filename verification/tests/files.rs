use agentssh::encoding::decode;
use agentssh::error::FileOperation;
use agentssh::exec::ExecOutput;
use agentssh::printing::Printout;
use agentssh::sftp::{
    contents_json, delete_command, deleted_json, directory_to_make, download_command,
    download_given, downloaded, edit_text, edited_by_regex, edited_json, exec_delete_result,
    exec_ls_result, exec_write_result, ls_command, parse_ls_line, print_once, received_json,
    route, sent_json, sftp_ls_json, upload_commands, upload_commands_for, upload_result,
    write_command, DirEntry, Route, CHUNK_SIZE,
};

fn ran(stdout: &str, stderr: &str, exit_code: i32) -> ExecOutput {
    ExecOutput { stdout: stdout.to_string(), stderr: stderr.to_string(), exit_code }
}

#[test]
fn test_parse_ls_line() {
    let line = "-rw-r--r-- 1 root root 1234 Jan 01 12:00 test.txt";
    let entry = parse_ls_line(line).unwrap();
    assert_eq!(entry.get("name").unwrap().as_str(), Some("test.txt"));
    assert_eq!(entry.get("size").unwrap().as_u64(), Some(1234));
    assert_eq!(entry.get("is_dir").unwrap().as_bool(), Some(false));
}

#[test]
fn test_parse_ls_line_directory() {
    let line = "drwxr-xr-x 2 root root 4096 Jan 01 12:00 mydir";
    let entry = parse_ls_line(line).unwrap();
    assert_eq!(entry.get("name").unwrap().as_str(), Some("mydir"));
    assert_eq!(entry.get("is_dir").unwrap().as_bool(), Some(true));
}

#[test]
fn listings_skip_what_is_no_file() {
    assert!(parse_ls_line("total 12").is_none());
    assert!(parse_ls_line("crw-rw-rw- 1 root root 1, 3 Jan 01 12:00 null").is_none());
    let spaced = parse_ls_line("-rw-r--r-- 1 u g 5 Jan  1 12:00 two  words").unwrap();
    assert_eq!(spaced.get("name").unwrap().as_str(), Some("two words"));
}

#[test]
fn test_base64_roundtrip() {
    let data = b"hello world";
    let commands = upload_commands(data, "/tmp/x");
    assert_eq!(commands, vec!["echo 'aGVsbG8gd29ybGQ=' | base64 -d > /tmp/x"]);
    let decoded = downloaded(&ran("aGVsbG8gd29ybGQ=\n", "", 0)).unwrap();
    assert_eq!(decoded, data);
}

#[test]
fn test_shell_quote_safe_paths_unchanged() {
    assert_eq!(download_command("/tmp/test.txt"), "base64 /tmp/test.txt");
}

#[test]
fn test_shell_quote_single_quotes_escaped() {
    let input = "it's a file";
    let cmd = write_command("test", input, false);
    assert!(
        !cmd.contains(&format!("> {}", input)),
        "raw single-quote input should not appear unquoted in command"
    );
    assert_eq!(cmd, "echo 'dGVzdA==' | base64 -d > 'it'\\''s a file'");
}

#[test]
fn test_shell_quote_semicolons_neutralized() {
    let input = "file;rm -rf /";
    let cmd = write_command("test", input, false);
    assert!(
        !cmd.contains(&format!("> {}", input)),
        "raw semicolon input should not appear unquoted in command"
    );
}

#[test]
fn test_shell_quote_dollar_signs_neutralized() {
    let input = "$(whoami)";
    let cmd = write_command("test", input, false);
    assert!(
        !cmd.contains(&format!("> {}", input)),
        "raw $() input should not appear unquoted in command"
    );
}

#[test]
fn test_shell_quote_backticks_neutralized() {
    let input = "`reboot`";
    let cmd = write_command("test", input, false);
    assert!(
        !cmd.contains(&format!("> {}", input)),
        "raw backtick input should not appear unquoted in command"
    );
}

#[test]
fn test_shell_quote_empty_string() {
    assert_eq!(ls_command(""), "ls -la ''");
}

#[test]
fn test_shell_quote_spaces_in_path() {
    let input = "/path with spaces/file.txt";
    let cmd = write_command("test", input, false);
    assert!(
        !cmd.contains(&format!("> {}", input)),
        "raw spaced path should not appear unquoted in command"
    );
    assert_eq!(delete_command(input, true), "rm -rf '/path with spaces/file.txt'");
    assert_eq!(delete_command(input, false), "rm -f '/path with spaces/file.txt'");
    assert_eq!(ls_command("a\nb"), "ls -la 'a\nb'");
}

#[test]
fn methods_name_routes() {
    assert_eq!(route(FileOperation::Upload, "auto").unwrap(), Route::SftpThenExec);
    assert_eq!(route(FileOperation::Upload, "sftp").unwrap(), Route::Sftp);
    assert_eq!(route(FileOperation::Upload, "exec").unwrap(), Route::Exec);
    for (operation, message) in [
        (FileOperation::Upload, "unsupported upload method: scp"),
        (FileOperation::Download, "unsupported download method: scp"),
        (FileOperation::Ls, "unsupported ls method: scp"),
        (FileOperation::Write, "unsupported write method: scp"),
    ] {
        assert_eq!(route(operation, "scp").unwrap_err().to_string(), message);
    }
}

#[test]
fn long_uploads_take_several_commands() {
    let data = vec![7u8; 50_000];
    let commands = upload_commands(&data, "/tmp/big");
    assert_eq!(commands.len(), 3);
    assert!(commands[0].ends_with(" | base64 -d > /tmp/big"));
    assert!(commands[1].ends_with(" | base64 -d >> /tmp/big"));
    assert!(commands[2].ends_with(" | base64 -d >> /tmp/big"));
    let carried: String = commands
        .iter()
        .map(|c| c["echo ".len()..c.find(" | ").unwrap()].trim_matches('\'').to_string())
        .collect();
    assert_eq!(carried.len(), 66_668);
    let pieces: Vec<u8> = commands
        .iter()
        .flat_map(|c| decode(c["echo ".len()..c.find(" | ").unwrap()].trim_matches('\'')).unwrap())
        .collect();
    assert_eq!(pieces, data);
    assert_eq!(downloaded(&ran(&carried, "", 0)).unwrap(), data);
}

#[test]
fn downloads_may_be_broken_into_lines() {
    let data: Vec<u8> = (0..200u8).collect();
    let command = upload_commands(&data, "f").remove(0);
    let text = command["echo ".len()..command.find(" | ").unwrap()].trim_matches('\'');
    assert_eq!(text.len(), 268);
    let mut wrapped = String::new();
    for (i, c) in text.chars().enumerate() {
        wrapped.push(c);
        if i % 76 == 75 {
            wrapped.push('\n');
        }
    }
    wrapped.push('\n');
    assert_eq!(wrapped.lines().count(), 4);
    assert_eq!(downloaded(&ran(&wrapped, "", 0)).unwrap(), data);
    assert_eq!(downloaded(&ran("aGVs\r\nbG8=\r\n", "", 0)).unwrap(), b"hello");
}

#[test]
fn chunks_are_exact() {
    let exact = "A".repeat(CHUNK_SIZE);
    assert_eq!(upload_commands_for(&exact, "f").len(), 1);
    let more = "A".repeat(CHUNK_SIZE + 4);
    let commands = upload_commands_for(&more, "f");
    assert_eq!(commands.len(), 2);
    assert_eq!(commands[1], "echo AAAA | base64 -d >> f");
    assert_eq!(upload_commands_for("", "f"), vec!["echo '' | base64 -d > f"]);
}

#[test]
fn failed_commands_are_reported() {
    let failed = ran("", "disk full", 1);
    assert_eq!(upload_result(0, &failed).unwrap_err().to_string(), "exec upload failed: disk full");
    assert_eq!(
        upload_result(2, &failed).unwrap_err().to_string(),
        "exec upload chunk failed: disk full"
    );
    assert!(upload_result(1, &ran("", "", 0)).is_ok());
    assert_eq!(downloaded(&failed).unwrap_err().to_string(), "exec download failed: disk full");
    assert_eq!(
        exec_ls_result("/x", &failed).unwrap_err().to_string(),
        "exec ls failed: disk full"
    );
    assert_eq!(
        exec_write_result("/x", &failed).unwrap_err().to_string(),
        "exec write failed: disk full"
    );
    assert_eq!(
        exec_delete_result("/x", &failed).unwrap_err().to_string(),
        "exec delete failed: disk full"
    );
    assert!(downloaded(&ran("not base64!", "", 0)).is_err());
    assert_eq!(
        download_given(&ran("", "", 0), Err("bad symbol".to_string())).unwrap_err().to_string(),
        "bad symbol"
    );
    assert_eq!(download_given(&ran("", "", 0), Ok(vec![1, 2])).unwrap(), vec![1, 2]);
}

#[test]
fn listing_over_a_command() {
    let stdout = "total 8\n\
        drwxr-xr-x 2 root root 4096 Jan 01 12:00 .\n\
        \n\
        -rw-r--r-- 1 root root 7 Jan 01 12:00 a.txt\n";
    let answer = exec_ls_result("/tmp", &ran(stdout, "", 0)).unwrap();
    let entries = answer.get("entries").unwrap().as_array().unwrap();
    assert_eq!(entries.len(), 2);
    assert_eq!(entries[1].get("name").unwrap().as_str(), Some("a.txt"));
    assert_eq!(answer.get("method").unwrap().as_str(), Some("exec"));
    let empty = exec_ls_result("/tmp", &ran("", "", 0)).unwrap();
    assert!(empty.get("entries").unwrap().as_array().unwrap().is_empty());
}

#[test]
fn listing_over_sftp() {
    let entries = vec![DirEntry {
        name: "a".to_string(),
        path: "/tmp/a".to_string(),
        is_dir: true,
        size: 4096,
        modified: Some(1_700_000_000),
    }];
    let answer = sftp_ls_json("/tmp", &entries);
    let entry = &answer.get("entries").unwrap().as_array().unwrap()[0];
    assert_eq!(entry.get("path").unwrap().as_str(), Some("/tmp/a"));
    assert_eq!(entry.get("modified").unwrap().as_str(), Some("1700000000"));
    assert_eq!(answer.get("method").unwrap().as_str(), Some("sftp"));
}

#[test]
fn answers_of_transfers() {
    let sent = sent_json("/r", 5, "sftp");
    assert_eq!(sent.get("remote").unwrap().as_str(), Some("/r"));
    assert_eq!(sent.get("bytes").unwrap().as_u64(), Some(5));
    let received = received_json("l", "/r", 6, "exec");
    assert_eq!(received.get("local").unwrap().as_str(), Some("l"));
    assert_eq!(received.get("method").unwrap().as_str(), Some("exec"));
    let contents = contents_json("/r", b"hello");
    assert_eq!(contents.get("content").unwrap().as_str(), Some("hello"));
    assert_eq!(contents.get("bytes").unwrap().as_u64(), Some(5));
    assert_eq!(deleted_json("/r", "sftp").get("deleted").unwrap().as_str(), Some("/r"));
    assert_eq!(edited_json("/r", 9).get("size").unwrap().as_u64(), Some(9));
    assert_eq!(
        exec_write_result("/r", &ran("", "", 0)).unwrap().get("path").unwrap().as_str(),
        Some("/r")
    );
    assert_eq!(
        exec_delete_result("/r", &ran("", "", 0)).unwrap().get("method").unwrap().as_str(),
        Some("exec")
    );
}

#[test]
fn writes_may_append() {
    assert_eq!(write_command("x", "/log", true), "echo 'eA==' | base64 -d >> /log");
}

#[test]
fn edits_replace_text_or_matches() {
    let data = b"port=8080\nport=81\n";
    assert_eq!(
        edit_text(data, "port=8080", "port=9090", false).unwrap(),
        "port=9090\nport=81\n"
    );
    assert_eq!(
        edit_text(data, "port=\\d+", "port=9090", true).unwrap(),
        "port=9090\nport=9090\n"
    );
    assert_eq!(edit_text(b"aaa", "aa", "b", false).unwrap(), "ba");
    assert_eq!(edit_text(b"ab", "", "-", false).unwrap(), "-a-b-");
    assert!(edit_text(data, "(", "x", true).is_err());
    assert_eq!(edit_text(b"a(b", "(", "x", false).unwrap(), "axb");
    assert_eq!(edited_by_regex(Err("unclosed".into())).unwrap_err().to_string(), "unclosed");
}

#[test]
fn parents_are_made_where_it_makes_sense() {
    assert_eq!(directory_to_make(Some("/opt/app".to_string())).as_deref(), Some("/opt/app"));
    assert_eq!(directory_to_make(Some("/".to_string())), None);
    assert_eq!(directory_to_make(Some(String::new())), None);
    assert_eq!(directory_to_make(None), None);
}

#[test]
fn contents_are_printed_as_they_are_unless_json() {
    let raw = print_once(true, false, contents_json("/r", b"[app]\n"));
    assert_eq!(raw.stdout, vec![Printout::Raw("[app]\n".to_string())]);
    let json = print_once(true, true, contents_json("/r", b"[app]\n"));
    assert!(matches!(&json.stdout[0], Printout::Pretty(_)));
    let other = print_once(false, false, sent_json("/r", 5, "sftp"));
    match &other.stdout[0] {
        Printout::Pretty(value) => {
            assert_eq!(
                value.get("data").unwrap().get("remote").unwrap().as_str(),
                Some("/r")
            );
        }
        other => panic!("unexpected: {other:?}"),
    }
}

#[test]
fn edits_leave_the_rest_alone() {
    assert_eq!(edit_text(b"nothing here", "absent", "x", false).unwrap(), "nothing here");
    assert_eq!(edit_text(b"a-b-c", "-", "-", false).unwrap(), "a-b-c");
    assert_eq!(edit_text(b"abc", "", "", false).unwrap(), "abc");
}
