use agentssh::cli::{
    name_profile, run, Action, Cli, Command, ConnectArgs, DaemonCommand, DaemonGroup, ExpectRespondPair,
    FileCommand, FileGroup, FileOnce, ReadFileCommand, SessionCommand, SessionGroup,
    SessionInputCommand, StatusCommand,
};
use agentssh::connection::{
    connect_target, merge_connect_args, prepare_connect, resolve_connect_args, retry_after,
    with_default_profile,
};
use agentssh::error::Error;
use agentssh::profile::ProfileStore;
use agentssh::protocol::WireRequest;
use agentssh::ssh_backend::command_line;
use agentssh::util::OutputFormat;

fn input(expect: [Option<&str>; 3], respond: [Option<&str>; 3]) -> SessionInputCommand {
    let own = |s: Option<&str>| s.map(|s| s.to_string());
    SessionInputCommand {
        session_id: "s1".to_string(),
        input: "sudo whoami\n".to_string(),
        crlf: false,
        wait_ms: 100,
        limit: 1000,
        raw: false,
        strip_ansi: false,
        wait_for_exit: false,
        timeout: None,
        expect: own(expect[0]),
        respond: own(respond[0]),
        expect2: own(expect[1]),
        respond2: own(respond[1]),
        expect3: own(expect[2]),
        respond3: own(respond[2]),
    }
}

#[test]
fn rejects_incomplete_expect_pair() {
    let command = SessionInputCommand {
        session_id: "s1".to_string(),
        input: "sudo whoami\n".to_string(),
        crlf: false,
        wait_ms: 100,
        limit: 1000,
        raw: false,
        strip_ansi: false,
        wait_for_exit: false,
        timeout: None,
        expect: Some("password".to_string()),
        respond: None,
        expect2: None,
        respond2: None,
        expect3: None,
        respond3: None,
    };

    let error = command.expect_pairs().expect_err("missing respond should fail");
    assert!(error.to_string().contains("--expect requires matching --respond"));
}

#[test]
fn rejects_response_without_pattern() {
    let error = input([Some("a"), None, None], [Some("b"), Some("c"), None])
        .expect_pairs()
        .expect_err("missing expect should fail");
    assert_eq!(error.to_string(), "--respond requires matching --expect");
}

#[test]
fn expect_pairs_keep_their_order_and_skip_gaps() {
    let pairs = input([Some("[sudo] password"), None, Some("continue?")], [
        Some("secret\n"),
        None,
        Some("y\n"),
    ])
    .expect_pairs()
    .expect("pairs should validate");
    assert_eq!(
        pairs,
        vec![
            ExpectRespondPair {
                expect: "[sudo] password".to_string(),
                respond: "secret\n".to_string(),
            },
            ExpectRespondPair { expect: "continue?".to_string(), respond: "y\n".to_string() },
        ]
    );
}

#[test]
fn merge_connect_args_preserves_retry_fields() {
    let base = ConnectArgs {
        profile: None,
        host: Some("base-host".into()),
        port: Some(2222),
        username: Some("base-user".into()),
        password: None,
        private_key: None,
        passphrase: None,
        ready_timeout_ms: None,
        retry: Some(3),
        retry_delay_ms: Some(500),
    };
    let override_args = ConnectArgs {
        profile: None,
        host: Some("override-host".into()),
        port: None,
        username: None,
        password: None,
        private_key: None,
        passphrase: None,
        ready_timeout_ms: None,
        retry: None,
        retry_delay_ms: None,
    };
    let merged = merge_connect_args(&base, &override_args);
    assert_eq!(merged.host.as_deref(), Some("override-host"));
    assert_eq!(merged.port, Some(2222));
    assert_eq!(merged.retry, Some(3));
    assert_eq!(merged.retry_delay_ms, Some(500));
}

fn named(profile: &str) -> ConnectArgs {
    ConnectArgs { profile: Some(profile.to_string()), ..ConnectArgs::default() }
}

fn store() -> ProfileStore {
    let mut store = ProfileStore::new();
    store.profiles.insert("prod".to_string(), ConnectArgs {
        host: Some("app.example.com".to_string()),
        username: Some("deploy".to_string()),
        ..ConnectArgs::default()
    });
    store
}

#[test]
fn inline_host_wins_over_profile() {
    let args = ConnectArgs { host: Some("emergency.example.com".into()), ..named("prod") };
    let (resolved, target) = prepare_connect(&args, &Ok(store())).expect("resolves");
    assert_eq!(target.host, "emergency.example.com");
    assert_eq!(target.username, "deploy");
    assert_eq!(target.port, 22);
    assert_eq!(resolved.profile.as_deref(), Some("prod"));
}

#[test]
fn unknown_profile_is_reported() {
    let error = resolve_connect_args(&named("nonexistent"), &Ok(store())).expect_err("unknown");
    assert_eq!(
        error.to_string(),
        "profile 'nonexistent' not found. Run 'agentssh profile list' to see saved profiles."
    );
}

#[test]
fn profiles_matter_only_where_one_is_named() {
    let broken = || Err(Error::Outside("read profiles.json".to_string()));
    assert!(resolve_connect_args(&ConnectArgs::default(), &broken()).is_ok());
    let error = resolve_connect_args(&named("prod"), &broken()).expect_err("unreadable");
    assert_eq!(error.to_string(), "read profiles.json");
}

#[test]
fn default_profile_fills_in_and_gives_way() {
    let filled = with_default_profile(ConnectArgs::default(), Some("prod".to_string()));
    assert_eq!(filled.profile.as_deref(), Some("prod"));
    let kept = with_default_profile(named("staging"), Some("prod".to_string()));
    assert_eq!(kept.profile.as_deref(), Some("staging"));
}

#[test]
fn host_and_user_are_required() {
    let nothing = connect_target(&ConnectArgs::default()).expect_err("no host");
    assert_eq!(nothing.to_string(), "--host is required");
    let no_user = connect_target(&ConnectArgs {
        host: Some("example.com".into()),
        ..ConnectArgs::default()
    })
    .expect_err("no user");
    assert_eq!(no_user.to_string(), "--username is required");
}

#[test]
fn retries_are_counted() {
    let args = ConnectArgs { retry: Some(3), retry_delay_ms: Some(250), ..ConnectArgs::default() };
    assert_eq!(retry_after(&args, 1), Some(250));
    assert_eq!(retry_after(&args, 3), Some(250));
    assert_eq!(retry_after(&args, 4), None);
    assert_eq!(retry_after(&ConnectArgs::default(), 1), None);
}

#[test]
fn commands_go_where_they_belong() {
    let ping = Cli {
        json: false,
        output: Some(OutputFormat::Json),
        command: Command::Session(SessionGroup {
            command: SessionCommand::Ping(StatusCommand { session_id: "s1".to_string() }),
        }),
    };
    match run(ping) {
        (Action::Client(WireRequest::Ping(c)), true) => assert_eq!(c.session_id, "s1"),
        other => panic!("unexpected action: {other:?}"),
    }
    let status = Cli {
        json: false,
        output: Some(OutputFormat::Text),
        command: Command::Daemon(DaemonGroup { command: DaemonCommand::Status }),
    };
    assert!(matches!(run(status), (Action::DaemonStatus, false)));
}

fn read_file(session_id: Option<&str>) -> Cli {
    Cli {
        json: true,
        output: None,
        command: Command::File(FileGroup {
            command: FileCommand::Read(ReadFileCommand {
                connect: ConnectArgs::default(),
                session_id: session_id.map(|s| s.to_string()),
                remote: "/etc/hosts".to_string(),
            }),
        }),
    }
}

#[test]
fn file_commands_use_the_daemon_for_sessions_only() {
    assert!(matches!(
        run(read_file(Some("s1"))),
        (Action::Client(WireRequest::ReadFile(_)), true)
    ));
    assert!(matches!(run(read_file(None)), (Action::FileOnce(FileOnce::Read(_)), true)));
}

fn profile_of(action: Action) -> Option<String> {
    match action {
        Action::Shell(connect) => connect.profile,
        other => panic!("unexpected: {other:?}"),
    }
}

#[test]
fn a_profile_is_named_where_none_is() {
    let (flag, env) = (Some("flag".to_string()), Some("env".to_string()));
    let own = || Action::Shell(named("own"));
    let none = || Action::Shell(ConnectArgs::default());
    assert_eq!(
        profile_of(name_profile(own(), flag.clone(), env.clone())).as_deref(),
        Some("own")
    );
    assert_eq!(
        profile_of(name_profile(none(), flag, env.clone())).as_deref(),
        Some("flag")
    );
    assert_eq!(profile_of(name_profile(none(), None, env.clone())).as_deref(), Some("env"));
    assert_eq!(profile_of(name_profile(none(), None, None)), None);
    assert!(matches!(name_profile(Action::Serve, None, env), Action::Serve));
}

#[test]
fn words_of_a_command_make_one_line() {
    let words = ["grep", "ERROR", "/var/log/syslog", "|", "tail", "-5"];
    let words = words.map(|w| w.to_string()).to_vec();
    assert_eq!(command_line(&words), "grep ERROR /var/log/syslog | tail -5");
    assert_eq!(command_line(&Vec::new()), "");
}
