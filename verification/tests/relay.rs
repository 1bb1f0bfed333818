//! The relay of oblivious DNS over HTTPS.
use numa::relay::{is_valid_hostname, RelayState, RelayStep, MAX_BODY_BYTES};

const KIND: Option<&str> = Some("application/oblivious-dns-message");

fn refused(state: &mut RelayState, kind: Option<&str>, len: usize, host: &str, path: &str) -> u16 {
    match state.handle_relay(kind, len, host, path) {
        RelayStep::Refuse(status, _) => status,
        RelayStep::Forward(url) => panic!("forwarded to {url}"),
    }
}

#[test]
fn rejects_missing_content_type() {
    let mut state = RelayState::new();
    let status = refused(&mut state, None, 4, "odoh.example.com", "/dns-query");
    assert_eq!(status, 415);
    assert_eq!(state.rejected_bad_request, 1);
}

#[test]
fn rejects_oversized_body() {
    let mut state = RelayState::new();
    let status =
        refused(&mut state, KIND, MAX_BODY_BYTES + 1, "odoh.example.com", "/dns-query");
    assert_eq!(status, 413);
}

#[test]
fn rejects_targethost_without_dot() {
    let mut state = RelayState::new();
    assert_eq!(refused(&mut state, KIND, 4, "localhost", "/dns-query"), 400);
    assert_eq!(state.rejected_bad_request, 1);
}

#[test]
fn rejects_userinfo_ssrf_attempt() {
    let mut state = RelayState::new();
    assert_eq!(refused(&mut state, KIND, 4, "evil.com@internal.host", "/dns-query"), 400);
    assert_eq!(state.rejected_bad_request, 1);
}

#[test]
fn rejects_targetpath_without_leading_slash() {
    let mut state = RelayState::new();
    assert_eq!(refused(&mut state, KIND, 4, "odoh.example.com", "dns-query"), 400);
    assert_eq!(state.rejected_bad_request, 1);
}

#[test]
fn health_endpoint_reports_counters() {
    let state = RelayState::new();
    let body = state.handle_health();
    assert!(body.contains("ok\n"));
    assert!(body.contains("forwarded_ok 0"));
    assert_eq!(
        body,
        "ok\ntotal 0\nforwarded_ok 0\nforwarded_err 0\nrejected_bad_request 0\n"
    );
}

#[test]
fn hostname_validator_accepts_and_rejects() {
    assert!(is_valid_hostname("odoh.cloudflare-dns.com"));
    assert!(is_valid_hostname("a.b"));
    assert!(!is_valid_hostname(""));
    assert!(!is_valid_hostname("localhost"));
    assert!(!is_valid_hostname(".leading.dot"));
    assert!(!is_valid_hostname("trailing.dot."));
    assert!(!is_valid_hostname("-leading.dash"));
    assert!(!is_valid_hostname("evil.com@internal.host"));
    assert!(!is_valid_hostname("evil.com/../admin"));
    assert!(!is_valid_hostname(&"a".repeat(254)));
}

#[test]
fn good_requests_go_on_and_are_counted() {
    let mut state = RelayState::new();
    let kind = Some(" application/oblivious-dns-message ; q=1");
    match state.handle_relay(kind, 100, "odoh.example.com", "/dns-query") {
        RelayStep::Forward(url) => assert_eq!(url, "https://odoh.example.com/dns-query"),
        RelayStep::Refuse(status, text) => panic!("{status} {text}"),
    }
    assert_eq!(state.forwarded(Some(300)), None);
    assert_eq!(state.forwarded(Some(8193)), Some((502, "target unreachable")));
    assert_eq!(state.forwarded(None), Some((502, "target unreachable")));
    assert_eq!(state.total_requests, 1);
    assert_eq!(state.forwarded_ok, 1);
    assert_eq!(state.forwarded_err, 2);
}
