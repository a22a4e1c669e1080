use agentssh::known_hosts::{
    append_known_host, canonical_public_key, glob_match, host_pattern_matches,
    known_hosts_has_key, known_hosts_patterns, patterns_match, verify_or_trust_host_key, HostKey,
    Trust,
};
use agentssh::util::temporary_name;

const SAMPLE_KEY_A: &str =
    "ssh-ed25519 AAAAC3NzaC1lZDI1NTE5AAAAILM+rvN+ot98qgEN796jTiQfZfG1KaT0PtFDJ/XFSqti test-a";
const SAMPLE_KEY_B: &str =
    "ssh-ed25519 AAAAC3NzaC1lZDI1NTE5AAAAIB9dG4kjRhQTtWTVzd2t27+t0DEHBPW7iOD23TUiYLio test-b";

#[test]
fn known_hosts_accepts_matching_default_port_key() {
    let key = HostKey::from_openssh(SAMPLE_KEY_A).expect("valid sample key");
    let known_hosts = "example.com ssh-ed25519 AAAAC3NzaC1lZDI1NTE5AAAAILM+rvN+ot98qgEN796jTiQfZfG1KaT0PtFDJ/XFSqti\n";

    let matched = known_hosts_has_key(known_hosts, &known_hosts_patterns("example.com", 22), &key)
        .expect("lookup succeeds");

    assert!(matched);
}

#[test]
fn known_hosts_rejects_changed_key_for_same_host() {
    let key = HostKey::from_openssh(SAMPLE_KEY_B).expect("valid sample key");
    let known_hosts = "example.com ssh-ed25519 AAAAC3NzaC1lZDI1NTE5AAAAILM+rvN+ot98qgEN796jTiQfZfG1KaT0PtFDJ/XFSqti\n";

    let error = known_hosts_has_key(known_hosts, &known_hosts_patterns("example.com", 22), &key)
        .expect_err("mismatched key must fail");

    assert!(error.to_string().contains("host key mismatch"));
}

#[test]
fn known_hosts_uses_bracketed_host_for_non_default_port() {
    let patterns = known_hosts_patterns("example.com", 2222);
    assert_eq!(patterns, vec!["[example.com]:2222"]);
}

#[test]
fn append_known_host_writes_new_line() {
    let key = HostKey::from_openssh(SAMPLE_KEY_A).expect("valid sample key");
    let canonical = canonical_public_key(&key).expect("encodable");

    let written = append_known_host("", &known_hosts_patterns("example.com", 22), &canonical);

    assert!(written.starts_with("example.com ssh-ed25519 AAAAC3NzaC1lZDI1NTE5AAAAILM+rvN+ot98qgEN796jTiQfZfG1KaT0PtFDJ/XFSqti"));
    assert!(written.ends_with('\n'));
}

#[test]
fn known_hosts_returns_none_for_unknown_host() {
    let key = HostKey::from_openssh(SAMPLE_KEY_A).expect("valid sample key");
    let known_hosts = "";
    let result = known_hosts_has_key(known_hosts, &known_hosts_patterns("unknown.host", 22), &key)
        .expect("lookup succeeds");
    assert!(!result, "empty known_hosts should return false (not found)");
}

#[test]
fn known_hosts_ignores_hashed_entries() {
    let key = HostKey::from_openssh(SAMPLE_KEY_A).expect("valid sample key");
    let known_hosts =
        "|1|c2FsdA==|aGFzaA== ssh-ed25519 AAAAC3NzaC1lZDI1NTE5AAAAILM+rvN+ot98qgEN796jTiQfZfG1KaT0PtFDJ/XFSqti hashed-host\n";
    let result =
        known_hosts_has_key(known_hosts, &known_hosts_patterns("hashed-host", 22), &key)
            .expect("lookup succeeds");
    assert!(!result, "hashed entries should not be matched");
}

#[test]
fn known_hosts_skips_malformed_lines() {
    let key = HostKey::from_openssh(SAMPLE_KEY_A).expect("valid sample key");
    let known_hosts = "\
# comment line

only-host-no-algo
example.com ssh-ed25519 AAAAC3NzaC1lZDI1NTE5AAAAILM+rvN+ot98qgEN796jTiQfZfG1KaT0PtFDJ/XFSqti ok
";
    let result = known_hosts_has_key(known_hosts, &known_hosts_patterns("example.com", 22), &key)
        .expect("lookup succeeds");
    assert!(result, "valid entry must be found among malformed lines");

    let result2 = known_hosts_has_key(known_hosts, &known_hosts_patterns("other.host", 22), &key)
        .expect("lookup succeeds");
    assert!(!result2);
}

#[test]
fn known_hosts_multiple_hosts_first_matches() {
    let key_a = HostKey::from_openssh(SAMPLE_KEY_A).expect("valid sample key A");
    let _key_b = HostKey::from_openssh(SAMPLE_KEY_B).expect("valid sample key B");
    let known_hosts = "\
host-one ssh-ed25519 AAAAC3NzaC1lZDI1NTE5AAAAILM+rvN+ot98qgEN796jTiQfZfG1KaT0PtFDJ/XFSqti first
host-two ssh-ed25519 AAAAC3NzaC1lZDI1NTE5AAAAIB9dG4kjRhQTtWTVzd2t27+t0DEHBPW7iOD23TUiYLio second
";
    let result = known_hosts_has_key(known_hosts, &known_hosts_patterns("host-one", 22), &key_a)
        .expect("lookup succeeds");
    assert!(result, "first host must match its key");

    let err = known_hosts_has_key(known_hosts, &known_hosts_patterns("host-two", 22), &key_a)
        .expect_err("wrong key for host-two must error");
    assert!(err.to_string().contains("host key mismatch"));
}

#[test]
fn known_hosts_default_port_uses_plain_hostname() {
    let patterns = known_hosts_patterns("example.com", 22);
    assert_eq!(patterns, vec!["example.com"]);
    assert!(!patterns[0].contains('['), "default port should use plain hostname");
    assert!(!patterns[0].contains(':'), "default port should use plain hostname");
}

fn remember(existing: &str, host: &str, port: u16, key: &HostKey) -> String {
    match verify_or_trust_host_key(existing, host, port, key).expect("trusted") {
        Trust::Remember(contents) => contents,
        Trust::Known => panic!("{host} should not be known"),
    }
}

#[test]
fn host_is_trusted_on_first_use_and_held_to_its_key() {
    let a = HostKey::from_openssh(SAMPLE_KEY_A).expect("key a");
    let b = HostKey::from_openssh(SAMPLE_KEY_B).expect("key b");
    let first = remember("", "example.com", 2222, &a);
    assert_eq!(
        first,
        "[example.com]:2222 ssh-ed25519 AAAAC3NzaC1lZDI1NTE5AAAAILM+rvN+ot98qgEN796jTiQfZfG1KaT0PtFDJ/XFSqti\n"
    );
    assert!(matches!(
        verify_or_trust_host_key(&first, "example.com", 2222, &a),
        Ok(Trust::Known)
    ));
    let refused = verify_or_trust_host_key(&first, "example.com", 2222, &b).expect_err("other key");
    assert_eq!(
        refused.to_string(),
        "SSH host key mismatch for [example.com]:2222; known_hosts contains a different key"
    );
    // Another port of the same host is another host.
    let both = remember(&first, "example.com", 22, &b);
    assert!(both.starts_with(&first));
    assert!(matches!(verify_or_trust_host_key(&both, "example.com", 22, &b), Ok(Trust::Known)));
    assert!(matches!(verify_or_trust_host_key(&both, "example.com", 2222, &a), Ok(Trust::Known)));
}

#[test]
fn unfinished_last_line_is_finished_first() {
    let a = HostKey::from_openssh(SAMPLE_KEY_A).expect("key a");
    let contents = remember("other ssh-ed25519 nonsense", "h", 22, &a);
    assert!(contents.starts_with("other ssh-ed25519 nonsense\nh ssh-ed25519 "));
}

#[test]
fn key_comments_do_not_count() {
    let a = HostKey::from_openssh(SAMPLE_KEY_A).expect("key a");
    assert_eq!(
        canonical_public_key(&a).expect("encodable"),
        "ssh-ed25519 AAAAC3NzaC1lZDI1NTE5AAAAILM+rvN+ot98qgEN796jTiQfZfG1KaT0PtFDJ/XFSqti"
    );
    assert!(HostKey::from_openssh("ssh-ed25519 nonsense").is_none());
    assert!(HostKey::from_openssh("").is_none());
}

#[test]
fn shell_patterns_match() {
    assert!(glob_match(b"*", b""));
    assert!(glob_match(b"*.example.com", b"db.example.com"));
    assert!(!glob_match(b"*.example.com", b"example.com"));
    assert!(glob_match(b"h?st*", b"host-one"));
    assert!(!glob_match(b"h?st", b"hst"));
    assert!(glob_match(b"a*b*c", b"a-b-b-c"));
    assert!(!glob_match(b"", b"x"));
}

#[test]
fn negated_patterns_exclude() {
    let patterns = vec!["*.example.com".to_string(), "!db.example.com".to_string()];
    assert!(patterns_match(&patterns, "web.example.com"));
    assert!(!patterns_match(&patterns, "db.example.com"));
    assert!(!patterns_match(&vec!["!other".to_string()], "web.example.com"));
    assert!(!host_pattern_matches("|1|salt|hash", "|1|salt|hash"));
    assert!(host_pattern_matches("example.com", "example.com"));
}

#[test]
fn markers_and_comments_are_read_past() {
    let key = HostKey::from_openssh(SAMPLE_KEY_A).expect("key a");
    let contents = "@cert-authority a,b ssh-ed25519 AAAAC3NzaC1lZDI1NTE5AAAAILM+rvN+ot98qgEN796jTiQfZfG1KaT0PtFDJ/XFSqti # trusted\r\n";
    assert!(known_hosts_has_key(contents, &known_hosts_patterns("b", 22), &key).expect("known"));
    assert!(!known_hosts_has_key(contents, &known_hosts_patterns("c", 22), &key).expect("unknown"));
}

#[test]
fn known_hosts_are_replaced_by_way_of_another_file() {
    assert_eq!(temporary_name(Some("known_hosts".to_string())), ".known_hosts.agentssh.tmp");
    assert_eq!(temporary_name(None), ".known_hosts.agentssh.tmp");
}

fn field(bytes: &[u8]) -> Vec<u8> {
    let mut out = (bytes.len() as u32).to_be_bytes().to_vec();
    out.extend_from_slice(bytes);
    out
}

/// The data of a certificate of an Ed25519 key under `label`, signed by `signer`.
fn certificate(label: &str, signer: &[u8]) -> Vec<u8> {
    let mut out = field(label.as_bytes());
    out.extend(field(&[1; 32]));
    out.extend(field(&[2; 32]));
    out.extend(7u64.to_be_bytes());
    out.extend(2u32.to_be_bytes());
    out.extend(field(b"id"));
    out.extend(field(&field(b"example.com")));
    out.extend(0u64.to_be_bytes());
    out.extend(u64::MAX.to_be_bytes());
    out.extend(field(b""));
    out.extend(field(b""));
    out.extend(field(b""));
    out.extend(field(signer));
    let mut signature = field(b"ssh-ed25519");
    signature.extend(field(&[3; 64]));
    out.extend(field(&signature));
    out
}

fn encoded(data: &[u8]) -> String {
    base64::Engine::encode(&base64::engine::general_purpose::STANDARD, data)
}

fn plain_signer() -> Vec<u8> {
    let mut out = field(b"ssh-ed25519");
    out.extend(field(&[4; 32]));
    out
}

const ED25519_CERTIFICATE: &str = "ssh-ed25519-cert-v01@openssh.com";

#[test]
fn a_certificate_is_read_under_the_algorithm_that_it_certifies() {
    let data = encoded(&certificate(ED25519_CERTIFICATE, &plain_signer()));
    let text = format!("ssh-ed25519 {data}");
    let read = HostKey::from_openssh(&text).expect("a whole certificate");
    assert_eq!(canonical_public_key(&read).unwrap(), text);
    assert!(HostKey::from_openssh(&format!("{ED25519_CERTIFICATE} {data}")).is_none());

    let key = HostKey::from_openssh(SAMPLE_KEY_A).expect("key");
    let hosts = format!("other {text}\n");
    let patterns = known_hosts_patterns("other", 22);
    assert!(known_hosts_has_key(&hosts, &patterns, &read).expect("known"));
    let error = known_hosts_has_key(&hosts, &patterns, &key).expect_err("another key");
    assert!(error.to_string().contains("host key mismatch"));
    let patterns = known_hosts_patterns("example.com", 22);
    assert!(!known_hosts_has_key(&hosts, &patterns, &key).expect("not its line"));

    let named = encoded(&certificate("thing-cert-v01@example.com", &plain_signer()));
    let text = format!("thing@example.com {named}");
    let read = HostKey::from_openssh(&text).expect("a certificate of another algorithm");
    assert_eq!(canonical_public_key(&read).unwrap(), text);
}

#[test]
fn what_is_left_of_a_certificate_is_skipped() {
    let key = HostKey::from_openssh(SAMPLE_KEY_A).expect("key");
    let mut cut = field(ED25519_CERTIFICATE.as_bytes());
    cut.extend(field(b"nonce"));
    let mut nameless = field(b"-cert-v01@domain");
    nameless.extend(field(b""));
    for text in [
        format!("ssh-ed25519 {}", encoded(&cut)),
        format!("@domain {}", encoded(&nameless)),
    ] {
        assert!(HostKey::from_openssh(&text).is_none());
        let hosts = format!("other {text}\n");
        let patterns = known_hosts_patterns("other", 22);
        assert!(!known_hosts_has_key(&hosts, &patterns, &key).expect("unknown"));
        let more = format!("{hosts}other {SAMPLE_KEY_A}\n");
        assert!(known_hosts_has_key(&more, &patterns, &key).expect("known"));
    }
}

#[test]
fn certificates_without_a_name_and_within_another_are_none() {
    let nameless = encoded(&certificate("-cert-v01@domain", &plain_signer()));
    assert!(HostKey::from_openssh(&format!("@domain {nameless}")).is_none());
    let inner = certificate(ED25519_CERTIFICATE, &plain_signer());
    let nested = encoded(&certificate(ED25519_CERTIFICATE, &inner));
    assert!(HostKey::from_openssh(&format!("ssh-ed25519 {nested}")).is_none());
    let mut mentioned = field(b"thing@example.com");
    mentioned.extend(field(b"-cert-v01@-cert-v01@"));
    let text = format!("thing@example.com {}", encoded(&mentioned));
    let key = HostKey::from_openssh(&text).expect("no certificate");
    assert_eq!(canonical_public_key(&key).unwrap(), text);
}

#[test]
fn what_is_not_base64_is_no_key() {
    assert!(HostKey::from_openssh("").is_none());
    assert!(HostKey::from_openssh("ssh-ed25519").is_none());
    assert!(HostKey::from_openssh("ssh-ed25519 ????").is_none());
    assert!(HostKey::from_openssh("ssh-ed25519 AAAA").is_none());
    assert!(HostKey::from_openssh("ssh-ed25519 AAAAAAAA").is_none());
    let text = "thing@example.com AAAAEXRoaW5nQGV4YW1wbGUuY29tAAAABGRhdGE= note";
    let named = HostKey::from_openssh(text).expect("a key");
    assert_eq!(
        canonical_public_key(&named).unwrap(),
        "thing@example.com AAAAEXRoaW5nQGV4YW1wbGUuY29tAAAABGRhdGE="
    );
}
