use agentssh::auth::{
    resolve_env, resolve_private_key, variable_name, AuthAttempt, Authentication, PathState,
    PrivateKey,
};
use agentssh::cli::ConnectArgs;
use agentssh::exec::{handle_exec_msg, ExecRun, ExecStream, Passed, Patience};
use agentssh::session::ChannelEvent;
use agentssh::ssh_backend::{run_exec, shell_on_channel, shell_on_input, ShellStep};

fn events() -> Vec<ChannelEvent> {
    vec![
        ChannelEvent::Data(b"one ".to_vec()),
        ChannelEvent::ExtendedData { ext: 1, data: b"oops".to_vec() },
        ChannelEvent::ExtendedData { ext: 7, data: b"???".to_vec() },
        ChannelEvent::Other,
        ChannelEvent::Data(b"two".to_vec()),
        ChannelEvent::ExitStatus(42),
        ChannelEvent::Eof,
    ]
}

#[test]
fn command_output_is_collected() {
    let mut run = ExecRun::start(Some(30_000));
    let mut all = events();
    let last = all.pop().unwrap();
    for event in all {
        assert!(run.on_event(event));
    }
    assert!(!run.on_event(last));
    let output = run.finish();
    assert_eq!(output.stdout, "one two");
    assert_eq!(output.stderr, "oops");
    assert_eq!(output.exit_code, 42);
}

#[test]
fn end_of_output_may_come_before_the_exit_code() {
    let mut run = ExecRun::start(None);
    assert!(run.on_event(ChannelEvent::Eof));
    assert!(run.on_event(ChannelEvent::Close));
    assert!(!run.on_event(ChannelEvent::ExitStatus(0)));
    assert_eq!(run.finish().exit_code, 0);
}

#[test]
fn channel_that_ends_ends_the_command() {
    let (mut out, mut err, mut code, mut eof) = (Vec::new(), Vec::new(), -1, false);
    assert!(!handle_exec_msg(ChannelEvent::Ended, &mut out, &mut err, &mut code, &mut eof));
    assert_eq!((code, eof), (-1, false));
}

#[test]
fn streamed_output_is_the_collected_output() {
    let mut stream = ExecStream::start(Some(0));
    let (mut out, mut err) = (Vec::new(), Vec::new());
    let mut over = 0;
    for event in events() {
        let (passed, goes_on) = stream.on_event(event);
        match passed {
            Passed::Stdout(data) => out.extend(data),
            Passed::Stderr(data) => err.extend(data),
            Passed::Nothing => {}
        }
        if !goes_on {
            over += 1;
        }
    }
    assert_eq!((out.as_slice(), err.as_slice()), (&b"one two"[..], &b"oops"[..]));
    assert_eq!((stream.exit_code, over), (42, 1));
}

#[test]
fn commands_are_given_up_when_their_time_is_over() {
    let run = ExecRun::start(Some(1500));
    assert_eq!(run.patience(0).unwrap(), Patience::AtMost(1500));
    assert_eq!(run.patience(1499).unwrap(), Patience::AtMost(1));
    assert_eq!(run.patience(1500).unwrap_err().to_string(), "command timed out after 1500ms");
    assert_eq!(ExecRun::start(Some(0)).patience(u64::MAX).unwrap(), Patience::Forever);
    assert_eq!(ExecStream::start(None).patience(9).unwrap(), Patience::Forever);
    assert!(ExecStream::start(Some(5)).patience(6).is_err());
}

fn output() -> agentssh::exec::ExecOutput {
    agentssh::exec::ExecOutput {
        stdout: "hi\n".to_string(),
        stderr: "warning\n".to_string(),
        exit_code: 42,
    }
}

#[test]
fn json_carries_the_exit_code_and_text_ends_with_it() {
    let json = run_exec(output(), true);
    assert_eq!((json.stderr.as_str(), json.exit_code), ("", 0));
    match &json.stdout[0] {
        agentssh::printing::Printout::Pretty(value) => {
            let data = value.get("data").unwrap();
            assert_eq!(data.get("exit_code").unwrap().as_u64(), Some(42));
            assert_eq!(data.get("exit_status").unwrap().as_u64(), Some(42));
            assert_eq!(data.get("stdout").unwrap().as_str(), Some("hi\n"));
            assert_eq!(data.get("stderr").unwrap().as_str(), Some("warning\n"));
        }
        other => panic!("unexpected: {other:?}"),
    }
    let text = run_exec(output(), false);
    assert_eq!(text.stdout, vec![agentssh::printing::Printout::Raw("hi\n".to_string())]);
    assert_eq!((text.stderr.as_str(), text.exit_code), ("warning\n", 42));
}

#[test]
fn shell_passes_bytes_on() {
    assert!(matches!(
        shell_on_channel(ChannelEvent::Data(b"$ ".to_vec())),
        ShellStep::Stdout(d) if d == b"$ "
    ));
    assert!(matches!(
        shell_on_channel(ChannelEvent::ExtendedData { ext: 1, data: b"e".to_vec() }),
        ShellStep::Stderr(_)
    ));
    assert!(matches!(
        shell_on_channel(ChannelEvent::ExtendedData { ext: 2, data: b"e".to_vec() }),
        ShellStep::Nothing
    ));
    assert!(matches!(shell_on_channel(ChannelEvent::ExitStatus(0)), ShellStep::Stop));
    assert!(matches!(shell_on_channel(ChannelEvent::Close), ShellStep::Nothing));
    assert!(matches!(shell_on_input(Some(b"ls\n".to_vec())), ShellStep::Send(d) if d == b"ls\n"));
    assert!(matches!(shell_on_input(Some(Vec::new())), ShellStep::Eof));
    assert!(matches!(shell_on_input(None), ShellStep::Stop));
}

#[test]
fn secrets_may_come_from_the_environment() {
    assert_eq!(variable_name("$PASS").as_deref(), Some("PASS"));
    assert_eq!(variable_name("PASS"), None);
    assert_eq!(resolve_env("$PASS", Some("hunter2".into())).as_deref(), Some("hunter2"));
    assert_eq!(resolve_env("$PASS", None), None);
    assert_eq!(resolve_env("literal", None).as_deref(), Some("literal"));
}

#[test]
fn private_keys_are_files_variables_or_texts() {
    let key = |value: &str, variable: Option<&str>, state: PathState| {
        resolve_private_key(
            &Some(value.to_string()),
            variable.map(|s| s.to_string()),
            "/home/u/key",
            state,
        )
    };
    assert!(matches!(
        key("~/key", None, PathState::Text),
        Some(PrivateKey::File(path)) if path == "/home/u/key"
    ));
    assert!(key("~/key", None, PathState::Unreadable).is_none());
    assert!(matches!(
        key("-----BEGIN", None, PathState::Missing),
        Some(PrivateKey::Text(text)) if text == "-----BEGIN"
    ));
    assert!(matches!(
        key("$KEY", Some("-----BEGIN"), PathState::Text),
        Some(PrivateKey::Text(text)) if text == "-----BEGIN"
    ));
    assert!(key("$KEY", None, PathState::Text).is_none());
    assert!(resolve_private_key(&None, None, "", PathState::Text).is_none());
}

#[test]
fn key_then_password_and_no_agent() {
    let args = ConnectArgs {
        private_key: Some("k".into()),
        password: Some("p".into()),
        ..ConnectArgs::default()
    };
    let mut login = Authentication::start(
        &args,
        Some(PrivateKey::Text("k".to_string())),
        Some("p".to_string()),
        Some("pp".to_string()),
    );
    match login.current().unwrap() {
        AuthAttempt::Key { key: PrivateKey::Text(k), passphrase } => {
            assert_eq!((k.as_str(), passphrase.as_deref()), ("k", Some("pp")));
        }
        other => panic!("unexpected: {other:?}"),
    }
    login.refused();
    assert!(matches!(login.current(), Ok(AuthAttempt::Password(p)) if p == "p"));
    login.refused();
    assert_eq!(
        login.current().unwrap_err().to_string(),
        "all authentication methods failed"
    );
}

#[test]
fn agent_keys_are_tried_one_by_one() {
    let mut login = Authentication::start(&ConnectArgs::default(), None, None, None);
    assert!(matches!(login.current(), Ok(AuthAttempt::Agent)));
    login.listed(2);
    assert!(matches!(login.current(), Ok(AuthAttempt::Identity(0))));
    login.refused();
    assert!(matches!(login.current(), Ok(AuthAttempt::Identity(1))));
    login.refused();
    assert!(login.current().is_err());
    let mut empty = Authentication::start(&ConnectArgs::default(), None, None, None);
    empty.listed(0);
    assert!(empty.current().is_err());
}

#[test]
fn unset_password_variable_leaves_nothing_to_try() {
    let args = ConnectArgs { password: Some("$NOT_SET".into()), ..ConnectArgs::default() };
    let login = Authentication::start(&args, None, None, None);
    assert!(login.current().is_err());
}
