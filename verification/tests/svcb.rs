//! Hints in SVCB and HTTPS records.
use numa::acl::CidrMatcher;
use numa::svcb::{strip_ipv6hint, strip_private_hints};

fn build_rdata(priority: u16, target: &[&str], params: &[(u16, Vec<u8>)]) -> Vec<u8> {
    let mut out = Vec::new();
    out.extend_from_slice(&priority.to_be_bytes());
    for label in target {
        out.push(label.len() as u8);
        out.extend_from_slice(label.as_bytes());
    }
    out.push(0);
    for (key, value) in params {
        out.extend_from_slice(&key.to_be_bytes());
        out.extend_from_slice(&(value.len() as u16).to_be_bytes());
        out.extend_from_slice(value);
    }
    out
}

fn alpn_h3() -> (u16, Vec<u8>) {
    // alpn = ["h3"]: one length-prefixed ALPN id
    (1, vec![0x02, b'h', b'3'])
}

fn ipv4hint_single() -> (u16, Vec<u8>) {
    (4, vec![93, 184, 216, 34])
}

fn ipv6hint_single() -> (u16, Vec<u8>) {
    // 2606:4700::1
    (
        6,
        vec![
            0x26, 0x06, 0x47, 0x00, 0, 0, 0, 0, 0, 0, 0, 0, 0, 0, 0, 0x01,
        ],
    )
}

#[test]
fn strips_ipv6hint_and_keeps_other_params() {
    let rdata = build_rdata(1, &[], &[alpn_h3(), ipv4hint_single(), ipv6hint_single()]);
    let stripped = strip_ipv6hint(&rdata).expect("ipv6hint present -> stripped");
    let expected = build_rdata(1, &[], &[alpn_h3(), ipv4hint_single()]);
    assert_eq!(stripped, expected);
}

#[test]
fn no_ipv6hint_returns_none() {
    let rdata = build_rdata(1, &[], &[alpn_h3(), ipv4hint_single()]);
    assert!(strip_ipv6hint(&rdata).is_none());
}

#[test]
fn alias_mode_empty_params_returns_none() {
    let rdata = build_rdata(0, &["example", "com"], &[]);
    assert!(strip_ipv6hint(&rdata).is_none());
}

#[test]
fn only_ipv6hint_yields_empty_param_section() {
    let rdata = build_rdata(1, &[], &[ipv6hint_single()]);
    let stripped = strip_ipv6hint(&rdata).expect("ipv6hint present -> stripped");
    let expected = build_rdata(1, &[], &[]);
    assert_eq!(stripped, expected);
}

#[test]
fn preserves_target_name() {
    let rdata = build_rdata(1, &["svc", "example", "net"], &[ipv6hint_single()]);
    let stripped = strip_ipv6hint(&rdata).unwrap();
    assert!(stripped.starts_with(&[0x00, 0x01])); // priority
    assert_eq!(&stripped[2..6], b"\x03svc");
}

#[test]
fn truncated_rdata_returns_none() {
    // Priority only, no target terminator.
    assert!(strip_ipv6hint(&[0, 1, 3, b'c', b'o', b'm']).is_none());
}

#[test]
fn empty_input_returns_none() {
    assert!(strip_ipv6hint(&[]).is_none());
}

#[test]
fn param_length_overflow_returns_none() {
    // key=6, length=0xFFFF but value is short — malformed.
    let rdata = vec![0, 1, 0, 0, 6, 0xFF, 0xFF, 0, 1, 2];
    assert!(strip_ipv6hint(&rdata).is_none());
}

fn is_priv() -> CidrMatcher {
    let ranges: Vec<String> =
        ["10.0.0.0/8", "192.168.0.0/16", "fc00::/7"].iter().map(|s| s.to_string()).collect();
    CidrMatcher::from_entries(&ranges, &vec![], "test").unwrap()
}

fn ipv4hint(addrs: &[[u8; 4]]) -> (u16, Vec<u8>) {
    (4, addrs.concat())
}

fn ipv6hint(addrs: &[[u8; 16]]) -> (u16, Vec<u8>) {
    (6, addrs.concat())
}

const PUB4: [u8; 4] = [93, 184, 216, 34];
const PRIV4: [u8; 4] = [192, 168, 1, 1];
const PUB6: [u8; 16] = [0x26, 0x06, 0x47, 0, 0, 0, 0, 0, 0, 0, 0, 0, 0, 0, 0, 1]; // 2606:4700::1
const ULA6: [u8; 16] = [0xfd, 0, 0, 0, 0, 0, 0, 0, 0, 0, 0, 0, 0, 0, 0, 1]; // fd00::1

#[test]
fn private_hints_keeps_public_drops_private() {
    let rdata = build_rdata(1, &[], &[alpn_h3(), ipv4hint(&[PUB4, PRIV4])]);
    let out = strip_private_hints(&rdata, &is_priv()).expect("private hint -> rewritten");
    let expected = build_rdata(1, &[], &[alpn_h3(), ipv4hint(&[PUB4])]);
    assert_eq!(out, expected);
}

#[test]
fn private_hints_drops_emptied_param_but_keeps_alpn() {
    let rdata = build_rdata(1, &[], &[alpn_h3(), ipv4hint(&[PRIV4])]);
    let out = strip_private_hints(&rdata, &is_priv()).expect("all-private hint -> param dropped");
    let expected = build_rdata(1, &[], &[alpn_h3()]);
    assert_eq!(out, expected);
}

#[test]
fn private_hints_filters_ipv6() {
    let rdata = build_rdata(1, &[], &[ipv6hint(&[PUB6, ULA6])]);
    let out = strip_private_hints(&rdata, &is_priv()).expect("ULA hint -> rewritten");
    let expected = build_rdata(1, &[], &[ipv6hint(&[PUB6])]);
    assert_eq!(out, expected);
}

#[test]
fn private_hints_all_public_returns_none() {
    let rdata = build_rdata(1, &[], &[alpn_h3(), ipv4hint(&[PUB4]), ipv6hint(&[PUB6])]);
    assert!(strip_private_hints(&rdata, &is_priv()).is_none());
}

#[test]
fn private_hints_malformed_ipv4hint_returns_none() {
    // ipv4hint value length 5 is not a multiple of 4.
    let rdata = build_rdata(1, &[], &[(4, vec![1, 2, 3, 4, 5])]);
    assert!(strip_private_hints(&rdata, &is_priv()).is_none());
}

#[test]
fn stripping_hints_twice_changes_nothing() {
    let rdata = build_rdata(1, &[], &[alpn_h3(), ipv6hint_single()]);
    let once = strip_ipv6hint(&rdata).unwrap();
    assert!(strip_ipv6hint(&once).is_none());
    let rdata = build_rdata(1, &[], &[ipv4hint(&[PUB4, PRIV4])]);
    let once = strip_private_hints(&rdata, &is_priv()).unwrap();
    assert!(strip_private_hints(&once, &is_priv()).is_none());
}
