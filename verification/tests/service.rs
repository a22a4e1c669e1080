use agentssh::json::Json;
use agentssh::printing::Printout;
use agentssh::service::{
    daemon_install, daemon_uninstall, service_supported, unit_file, unit_path,
};

const UNIT: &str = "/home/u/.config/systemd/user/agentssh.service";

fn line(text: &str) -> Printout {
    Printout::Line(text.to_string())
}

fn field(printed: &[Printout], name: &str) -> String {
    match printed {
        [Printout::Pretty(value)] => {
            let value: &Json = value.get("data").unwrap().get(name).unwrap();
            value.as_str().unwrap().to_string()
        }
        other => panic!("unexpected: {other:?}"),
    }
}

#[test]
fn the_service_runs_the_daemon() {
    assert_eq!(
        unit_file("/usr/bin/agentssh", "/run/user/1000/agentssh-u.sock"),
        "[Unit]\n\
         Description=AgentSSH daemon\n\
         \n\
         [Service]\n\
         ExecStart=\"/usr/bin/agentssh\" daemon serve\n\
         ExecStopPost=-/bin/rm -f \"/run/user/1000/agentssh-u.sock\"\n\
         Restart=on-failure\n\
         \n\
         [Install]\n\
         WantedBy=default.target\n"
    );
    assert_eq!(unit_path("/home/u/.config"), UNIT);
}

#[test]
fn paths_keep_what_they_hold_in_a_unit_file() {
    let text = unit_file("/a b/100%/\"x\"\\$y\nz", "/tmp/$u%");
    assert!(text.contains("ExecStart=\"/a b/100%%/\\\"x\\\"\\\\$y\\nz\" daemon serve\n"));
    assert!(text.contains("rm -f \"/tmp/$$u%%\"\n"));
}

#[test]
fn services_are_for_linux() {
    assert!(service_supported("linux").is_ok());
    assert_eq!(
        service_supported("macos").unwrap_err().to_string(),
        "systemd services are available on Linux only"
    );
}

#[test]
fn installing_says_what_is_where() {
    let install = |json| daemon_install("/bin/agentssh", "/run/a.sock", UNIT, json).stdout;
    assert_eq!(
        install(false),
        vec![
            line("Daemon binary: /bin/agentssh"),
            line("Socket path: /run/a.sock"),
            line("Installed systemd user service: /home/u/.config/systemd/user/agentssh.service"),
        ]
    );
    let printed = install(true);
    assert_eq!(field(&printed, "binary"), "/bin/agentssh");
    assert_eq!(field(&printed, "socket"), "/run/a.sock");
    assert_eq!(field(&printed, "unit"), UNIT);
}

#[test]
fn uninstalling_says_what_is_gone() {
    assert_eq!(
        daemon_uninstall(UNIT, false).stdout,
        vec![
            line("Removed systemd user service: /home/u/.config/systemd/user/agentssh.service"),
            line("Daemon socket removed."),
        ]
    );
    let printed = daemon_uninstall(UNIT, true).stdout;
    assert_eq!(field(&printed, "message"), "Daemon socket removed.");
    assert_eq!(field(&printed, "unit"), UNIT);
}
