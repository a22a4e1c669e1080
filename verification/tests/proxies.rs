use agentssh::json::Json;
use agentssh::proxy::{
    fixed_destination, listener_accepted, listener_goes_on, parse_host_port, proxy_list,
    proxy_mode_from_command, proxy_ping, ProxyMode, ProxyState, ProxyStatus,
};
use agentssh::socks5::{
    ipv4_to_text, ipv6_to_text, socks5_step, Socks5Stage, Socks5Step,
};
use agentssh::sorted::SortedMap;

fn text(value: &Json, key: &str) -> String {
    value.get(key).and_then(|v| v.as_str()).expect("a text").to_string()
}

fn proxies(status: Option<ProxyStatus>) -> SortedMap<ProxyState> {
    let mut proxies = SortedMap::new();
    proxies.insert(
        "p1".to_string(),
        ProxyState {
            id: "p1".into(),
            connection_id: "c1".into(),
            mode: ProxyMode::Socks5 { local_addr: "127.0.0.1:1080".into() },
            local_addr: "127.0.0.1:1080".into(),
            status,
            shutdown: false,
        },
    );
    proxies
}

#[test]
fn test_parse_host_port() {
    let (host, port) = parse_host_port("127.0.0.1:8080").unwrap();
    assert_eq!(host, "127.0.0.1");
    assert_eq!(port, 8080);

    let (host, port) = parse_host_port("example.com:22").unwrap();
    assert_eq!(host, "example.com");
    assert_eq!(port, 22);
}

#[test]
fn host_is_all_before_the_last_colon() {
    let (host, port) = parse_host_port("::1:443").unwrap();
    assert_eq!((host.as_str(), port), ("::1", 443));
    let (host, port) = parse_host_port(":+80").unwrap();
    assert_eq!((host.as_str(), port), ("", 80));
}

#[test]
fn addresses_without_port_are_refused() {
    assert_eq!(
        parse_host_port("example.com").unwrap_err().to_string(),
        "invalid host:port format: example.com"
    );
    assert_eq!(parse_host_port("h:65536").unwrap_err().to_string(), "invalid port: 65536");
    assert_eq!(parse_host_port("h:").unwrap_err().to_string(), "invalid port: ");
}

#[test]
fn test_proxy_mode_from_command() {
    let mode = proxy_mode_from_command(Some("127.0.0.1:9999"), Some("10.0.0.1:80"), None).unwrap();
    match mode {
        ProxyMode::LocalForward { local_addr, remote_host, remote_port } => {
            assert_eq!(local_addr, "127.0.0.1:9999");
            assert_eq!(remote_host, "10.0.0.1");
            assert_eq!(remote_port, 80);
        }
        _ => panic!("expected LocalForward"),
    }

    let mode = proxy_mode_from_command(None, None, Some("127.0.0.1:1080")).unwrap();
    match mode {
        ProxyMode::Socks5 { local_addr } => assert_eq!(local_addr, "127.0.0.1:1080"),
        _ => panic!("expected Socks5"),
    }
}

#[test]
fn unclear_modes_are_refused() {
    for (local, remote, socks5) in [
        (None, None, None),
        (Some("a:1"), None, None),
        (None, Some("b:2"), None),
        (Some("a:1"), Some("b:2"), Some("c:3")),
        (Some("a:1"), None, Some("c:3")),
    ] {
        let error = proxy_mode_from_command(local, remote, socks5).unwrap_err();
        assert_eq!(
            error.to_string(),
            "specify --local + --remote for port forwarding, or --socks5 for SOCKS5 proxy"
        );
    }
}

#[test]
fn test_proxy_summary() {
    let proxies = SortedMap::new();
    let summary = proxy_list(&proxies);
    assert_eq!(summary.get("proxies").unwrap().as_array().unwrap().len(), 0);
}

#[test]
fn test_proxy_ping_running() {
    let result = proxy_ping("p1", &proxies(Some(ProxyStatus::Running))).unwrap();
    assert_eq!(text(&result, "status"), "running");
    assert_eq!(text(&result, "proxy_id"), "p1");
    assert_eq!(result.get("ok").unwrap().as_bool(), Some(true));
}

#[test]
fn test_proxy_ping_stopped() {
    let result = proxy_ping("p1", &proxies(Some(ProxyStatus::Stopped))).unwrap();
    assert_eq!(text(&result, "status"), "stopped");
}

#[test]
fn test_proxy_ping_error() {
    let result =
        proxy_ping("p1", &proxies(Some(ProxyStatus::Error("bind failed".into())))).unwrap();
    assert_eq!(text(&result, "status"), "bind failed");
}

#[test]
fn test_proxy_ping_not_found() {
    let proxies: SortedMap<ProxyState> = SortedMap::new();
    let err = proxy_ping("nonexistent", &proxies).unwrap_err();
    assert!(err.to_string().contains("not found"));
}

#[test]
fn test_proxy_ping_lock_contended() {
    let result = proxy_ping("p1", &proxies(None)).unwrap();
    assert_eq!(text(&result, "status"), "unknown");
}

#[test]
fn listing_shows_status_and_mode() {
    for (status, word) in [
        (Some(ProxyStatus::Running), "running"),
        (Some(ProxyStatus::Error("bind failed".into())), "error: bind failed"),
        (None, "running"),
    ] {
        let list = proxy_list(&proxies(status));
        let entry = &list.get("proxies").unwrap().as_array().unwrap()[0];
        assert_eq!(text(entry, "id"), "p1");
        assert_eq!(text(entry, "connection_id"), "c1");
        assert_eq!(text(entry, "status"), word);
        let mode = entry.get("mode").unwrap().get("Socks5").unwrap();
        assert_eq!(text(mode, "local_addr"), "127.0.0.1:1080");
    }
}

#[test]
fn listeners_stop_when_told_or_when_they_fail() {
    assert!(listener_goes_on(false).is_ok());
    assert!(matches!(listener_goes_on(true), Err(ProxyStatus::Stopped)));
    assert!(listener_accepted(Ok(())).is_ok());
    match listener_accepted(Err("too many open files".to_string())) {
        Err(ProxyStatus::Error(message)) => assert_eq!(message, "too many open files"),
        other => panic!("unexpected: {other:?}"),
    }
}

#[test]
fn forwards_have_a_fixed_destination() {
    let mode = ProxyMode::LocalForward {
        local_addr: "127.0.0.1:9999".into(),
        remote_host: "db".into(),
        remote_port: 5432,
    };
    assert_eq!(fixed_destination(&mode), Some(("db".to_string(), 5432)));
    assert_eq!(fixed_destination(&ProxyMode::Socks5 { local_addr: "x".into() }), None);
}

/// Drives a handshake over all that a client sends.
fn handshake(mut stream: &[u8]) -> Result<(Vec<u8>, String, u16, usize), String> {
    let mut stage = Socks5Stage::Greeting;
    let mut sent = Vec::new();
    loop {
        let n = stage.wanted();
        if stream.len() < n {
            return Err("waiting".to_string());
        }
        let (part, rest) = stream.split_at(n);
        stream = rest;
        match socks5_step(stage, part).map_err(|e| e.to_string())? {
            Socks5Step::Next { reply, stage: next } => {
                sent.extend(reply);
                stage = next;
            }
            Socks5Step::Done { reply, host, port } => {
                sent.extend(reply);
                return Ok((sent, host, port, stream.len()));
            }
        }
    }
}

#[test]
fn socks5_connect_by_name() {
    let mut stream = vec![5, 2, 0, 2, 5, 1, 0, 3, 11];
    stream.extend(b"example.com");
    stream.extend([0x01, 0xbb, b'G', b'E', b'T']);
    let (sent, host, port, left) = handshake(&stream).expect("understood");
    assert_eq!(sent, vec![5, 0, 5, 0, 0, 1, 0, 0, 0, 0, 0, 0]);
    assert_eq!((host.as_str(), port, left), ("example.com", 443, 3));
}

#[test]
fn socks5_connect_by_address() {
    let (_, host, port, _) =
        handshake(&[5, 0, 5, 1, 0, 1, 10, 0, 0, 255, 0, 80]).expect("understood");
    assert_eq!((host.as_str(), port), ("10.0.0.255", 80));
    let mut six = vec![5, 1, 0, 5, 1, 0, 4];
    six.extend([0x20, 0x01, 0x0d, 0xb8, 0, 0, 0, 0, 0, 0, 0, 0, 0, 0, 0, 1]);
    six.extend([0x1f, 0x90]);
    let (_, host, port, _) = handshake(&six).expect("understood");
    assert_eq!((host.as_str(), port), ("2001:db8::1", 8080));
}

#[test]
fn socks5_refusals() {
    assert_eq!(handshake(&[4, 1]).unwrap_err(), "not a SOCKS5 connection (version: 4)");
    assert_eq!(
        handshake(&[5, 0, 4, 1, 0, 1]).unwrap_err(),
        "SOCKS5: expected version 5, got 4"
    );
    assert_eq!(
        handshake(&[5, 0, 5, 2, 0, 1]).unwrap_err(),
        "SOCKS5: only CONNECT (0x01) supported, got 2"
    );
    assert_eq!(
        handshake(&[5, 0, 5, 1, 0, 2]).unwrap_err(),
        "SOCKS5: unsupported address type: 2"
    );
    assert_eq!(handshake(&[5, 1]).unwrap_err(), "waiting");
}

fn six(groups: [u16; 8]) -> String {
    let bytes: Vec<u8> = groups.iter().flat_map(|g| g.to_be_bytes()).collect();
    ipv6_to_text(&bytes)
}

#[test]
fn addresses_in_words() {
    assert_eq!(ipv4_to_text(&[127, 0, 0, 1]), "127.0.0.1");
    assert_eq!(six([0, 0, 0, 0, 0, 0, 0, 0]), "::");
    assert_eq!(six([0, 0, 0, 0, 0, 0, 0, 1]), "::1");
    assert_eq!(six([0xfe80, 0, 0, 0, 0, 0, 0, 0]), "fe80::");
    assert_eq!(six([1, 0, 2, 3, 4, 5, 6, 7]), "1:0:2:3:4:5:6:7");
    assert_eq!(six([1, 0, 0, 2, 3, 0, 0, 4]), "1::2:3:0:0:4");
    assert_eq!(six([1, 0, 0, 2, 0, 0, 0, 4]), "1:0:0:2::4");
    assert_eq!(six([0, 0, 0, 0, 0, 0xffff, 0xc0a8, 0x0101]), "::ffff:192.168.1.1");
    assert_eq!(six([0xabcd, 0xef01, 0x2345, 0x6789, 0xabcd, 0xef01, 0x2345, 0x6789]),
        "abcd:ef01:2345:6789:abcd:ef01:2345:6789");
}
