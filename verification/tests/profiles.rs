use agentssh::cli::{ConnectArgs, ProfileAction};
use agentssh::printing::Printout;
use agentssh::profile::{
    build_profile_from_prompts, has_profile_add_flags, profile_json, run_profile, store_profile,
    ProfileStep, ProfileStore,
};

fn args(host: &str, username: Option<&str>, port: Option<u16>) -> ConnectArgs {
    ConnectArgs {
        host: Some(host.to_string()),
        username: username.map(|s| s.to_string()),
        port,
        ..ConnectArgs::default()
    }
}

fn with(name: &str, profile: ConnectArgs) -> ProfileStore {
    store_profile(ProfileStore::new(), name.to_string(), profile, false).0
}

fn printed(step: ProfileStep) -> Vec<Printout> {
    match step {
        ProfileStep::Print(output) => {
            assert_eq!((output.stderr.as_str(), output.exit_code), ("", 0));
            output.stdout
        }
        other => panic!("expected something to print, got {other:?}"),
    }
}

#[test]
fn build_profile_from_interactive_input_uses_defaults() {
    let profile = build_profile_from_prompts("example.com\n\n\n\n").expect("profile should build");

    assert_eq!(profile.host.as_deref(), Some("example.com"));
    assert_eq!(profile.username.as_deref(), Some("root"));
    assert_eq!(profile.port, Some(22));
    assert_eq!(profile.private_key, None);
}

#[test]
fn prompts_are_read_line_by_line() {
    let profile =
        build_profile_from_prompts(" h \r\n deploy \r\n 2222 \r\n ~/.ssh/id \r\n").unwrap();
    assert_eq!(profile.host.as_deref(), Some("h"));
    assert_eq!(profile.username.as_deref(), Some("deploy"));
    assert_eq!(profile.port, Some(2222));
    assert_eq!(profile.private_key.as_deref(), Some("~/.ssh/id"));
    assert_eq!(build_profile_from_prompts("h").unwrap().port, Some(22));
}

#[test]
fn wrong_answers_are_refused() {
    assert_eq!(
        build_profile_from_prompts("  \nroot\n").unwrap_err().to_string(),
        "host is required"
    );
    assert_eq!(build_profile_from_prompts("").unwrap_err().to_string(), "host is required");
    for port in ["65536", "-1", "22x", "+"] {
        let input = format!("h\n\n{port}\n");
        assert_eq!(
            build_profile_from_prompts(&input).unwrap_err().to_string(),
            "port must be a valid u16"
        );
    }
}

#[test]
fn any_flag_makes_a_profile() {
    assert!(!has_profile_add_flags(&ConnectArgs::default()));
    assert!(!has_profile_add_flags(&ConnectArgs {
        profile: Some("p".into()),
        ..ConnectArgs::default()
    }));
    assert!(has_profile_add_flags(&args("h", None, None)));
    assert!(has_profile_add_flags(&ConnectArgs { retry: Some(0), ..ConnectArgs::default() }));
}

#[test]
fn empty_listing_says_so() {
    let step = run_profile(ProfileAction::List, ProfileStore::new(), false).unwrap();
    assert_eq!(printed(step), vec![Printout::Line("No SSH profiles.".to_string())]);
}

#[test]
fn written_profile_is_listed_and_read() {
    let store = with("test-host", args("10.0.0.1", Some("admin"), Some(2222)));
    let step = run_profile(ProfileAction::List, store, false).unwrap();
    assert_eq!(printed(step), vec![Printout::Line("test-host\tadmin@10.0.0.1:2222".to_string())]);

    let store = with("myserver", args("example.com", Some("root"), None));
    let read = ProfileAction::Read { name: "myserver".to_string() };
    match &printed(run_profile(read, store, false).unwrap())[0] {
        Printout::Pretty(value) => {
            assert_eq!(value.get("host").unwrap().as_str(), Some("example.com"));
            assert_eq!(value.get("username").unwrap().as_str(), Some("root"));
            assert_eq!(value.get("port").unwrap().as_u64(), None);
        }
        other => panic!("unexpected: {other:?}"),
    }
}

#[test]
fn listing_is_in_order_with_defaults() {
    let (store, _) = store_profile(with("b", ConnectArgs::default()), "a".into(), args("h", None, None), false);
    let lines = printed(run_profile(ProfileAction::List, store, false).unwrap());
    assert_eq!(
        lines,
        vec![Printout::Line("a\t@h:22".to_string()), Printout::Line("b\t@:22".to_string())]
    );
}

#[test]
fn missing_profile_is_reported() {
    let read = ProfileAction::Read { name: "ghost".to_string() };
    let error = run_profile(read, ProfileStore::new(), false).unwrap_err();
    assert!(error.to_string().contains("'ghost' not found"));
}

#[test]
fn deleted_profile_is_gone() {
    let store = with("doomed", args("1.2.3.4", None, None));
    let delete = ProfileAction::Delete { name: "doomed".to_string() };
    match run_profile(delete, store, false).unwrap() {
        ProfileStep::Save { store, printout } => {
            assert_eq!(printout, Printout::Line("profile_deleted: doomed".to_string()));
            assert_eq!(store.profiles.len(), 0);
        }
        other => panic!("unexpected: {other:?}"),
    }
}

#[test]
fn writing_overwrites() {
    let (store, printout) = store_profile(
        with("srv", args("old.example.com", None, None)),
        "srv".to_string(),
        args("new.example.com", None, None),
        false,
    );
    assert_eq!(printout, Printout::Line("profile_written: srv".to_string()));
    assert_eq!(store.profiles.len(), 1);
    assert_eq!(store.profiles.get("srv").unwrap().host.as_deref(), Some("new.example.com"));
}

#[test]
fn adding_asks_only_without_flags() {
    let flagged = ProfileAction::Add {
        name: "flagged".to_string(),
        connect: args("flag.example.com", Some("testuser"), Some(2222)),
    };
    match run_profile(flagged, ProfileStore::new(), true).unwrap() {
        ProfileStep::Save { store, printout: Printout::Pretty(value) } => {
            assert!(store.profiles.contains_key("flagged"));
            let data = value.get("data").unwrap();
            assert_eq!(data.get("event").unwrap().as_str(), Some("profile_written"));
        }
        other => panic!("unexpected: {other:?}"),
    }
    let bare = ProfileAction::Add { name: "bare".to_string(), connect: ConnectArgs::default() };
    assert!(matches!(
        run_profile(bare, ProfileStore::new(), false),
        Ok(ProfileStep::Prompt { name, .. }) if name == "bare"
    ));
    let write = ProfileAction::Write { name: "w".to_string(), data: "{}".to_string() };
    assert!(matches!(
        run_profile(write, ProfileStore::new(), false),
        Ok(ProfileStep::Parse { data, .. }) if data == "{}"
    ));
}

#[test]
fn listing_in_json_holds_the_profiles() {
    let store = with("jhost", args("json.example.com", None, None));
    match &printed(run_profile(ProfileAction::List, store, true).unwrap())[0] {
        Printout::Pretty(value) => {
            assert_eq!(value.get("ok").unwrap().as_bool(), Some(true));
            let profile = value.get("data").unwrap().get("jhost").unwrap();
            assert_eq!(profile.get("host").unwrap().as_str(), Some("json.example.com"));
        }
        other => panic!("unexpected: {other:?}"),
    }
    let value = profile_json(&ConnectArgs { retry: Some(3), ..ConnectArgs::default() });
    assert_eq!(value.get("retry").unwrap().as_u64(), Some(3));
    assert_eq!(value.get("host").unwrap().as_str(), None);
}
