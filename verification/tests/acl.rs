//! Which clients may ask.
use numa::acl::{AllowFromAcl, CidrMatcher};
use numa::net::{parse_ip, IpAddr};

fn acl(entries: &[&str]) -> AllowFromAcl {
    AllowFromAcl::from_entries(&entries.iter().map(|s| s.to_string()).collect::<Vec<_>>())
        .unwrap()
}

fn matcher(included: &[&str], excluded: &[&str]) -> CidrMatcher {
    CidrMatcher::from_entries(
        &included.iter().map(|s| s.to_string()).collect::<Vec<_>>(),
        &excluded.iter().map(|s| s.to_string()).collect::<Vec<_>>(),
        "test",
    )
    .unwrap()
}

fn check_allows(a: &AllowFromAcl, cases: &[(&str, bool)]) {
    for &(peer, want) in cases {
        assert_eq!(a.allows(parse_ip(peer).unwrap()), want, "{peer}");
    }
}

fn check_matches(m: &CidrMatcher, cases: &[(&str, bool)]) {
    for &(peer, want) in cases {
        assert_eq!(m.matches(parse_ip(peer).unwrap()), want, "{peer}");
    }
}

#[test]
fn empty_acl_allows_everything() {
    let a = AllowFromAcl::default();
    assert!(!a.is_enabled());
    check_allows(&a, &[("1.2.3.4", true), ("2001:db8::1", true)]);
}

/// Pure test: the LOCAL exemption can't be hit through a listener: the test
/// peer is always loopback, which `allows` exempts regardless.
#[test]
fn local_command_bypasses_allow_from() {
    let a = AllowFromAcl {
        matcher: matcher(&["10.0.0.0/8"], &[]),
    };
    let outside: IpAddr = parse_ip("192.0.2.1").unwrap();
    let inside: IpAddr = parse_ip("10.1.2.3").unwrap();
    assert!(
        a.admits(outside, true),
        "LOCAL command bypasses the allowlist"
    );
    assert!(!a.admits(outside, false), "real client outside is gated");
    assert!(a.admits(inside, false), "real client inside is admitted");
}

#[test]
fn cidr_v4_allows_in_range_blocks_out_of_range() {
    let a = acl(&["192.168.0.0/16"]);
    assert!(a.is_enabled());
    check_allows(&a, &[("192.168.1.5", true), ("10.0.0.1", false)]);
}

#[test]
fn cidr_v6_allows_in_range_blocks_out_of_range() {
    check_allows(
        &acl(&["2001:db8::/32"]),
        &[("2001:db8::5", true), ("2001:db9::5", false)],
    );
}

#[test]
fn bare_ip_is_treated_as_host_route() {
    check_allows(
        &acl(&["10.1.2.3", "fe80::1"]),
        &[("10.1.2.3", true), ("10.1.2.4", false), ("fe80::1", true)],
    );
}

#[test]
fn loopback_always_allowed_even_when_acl_is_set() {
    check_allows(
        &acl(&["192.168.1.0/24"]),
        &[("127.0.0.1", true), ("127.0.0.2", true), ("::1", true)],
    );
}

#[test]
fn invalid_entry_rejects() {
    assert!(AllowFromAcl::from_entries(&vec!["not-a-cidr".to_string()]).is_err());
    assert!(AllowFromAcl::from_entries(&vec!["192.168.1.0/40".to_string()]).is_err());
}

#[test]
fn acl_ipv4_mapped_client_matches_v4_rule() {
    // Dual-stack `[::]` binds deliver IPv4 peers as `::ffff:a.b.c.d`;
    // an IPv4 CIDR allowlist must still match (and still reject out-of-range).
    check_allows(
        &acl(&["192.168.1.0/24"]),
        &[("::ffff:192.168.1.50", true), ("::ffff:10.0.0.1", false)],
    );
}

#[test]
fn ipv4_mapped_loopback_always_allowed() {
    // IPv4-mapped loopback on a dual-stack bind must pass through too.
    check_allows(&acl(&["192.168.1.0/24"]), &[("::ffff:127.0.0.1", true)]);
}

#[test]
fn mixed_v4_and_v6_entries() {
    check_allows(
        &acl(&["10.0.0.0/8", "2001:db8::/32", "172.16.0.5"]),
        &[
            ("10.1.2.3", true),
            ("2001:db8::abcd", true),
            ("172.16.0.5", true),
            ("8.8.8.8", false),
        ],
    );
}

#[test]
fn exclude_subtracts_from_include() {
    check_matches(
        &matcher(&["192.168.1.0/24"], &["192.168.1.254"]),
        &[("192.168.1.50", true), ("192.168.1.254", false)],
    );
}

#[test]
fn exclude_wins_over_nested_include() {
    // A more-specific included does not override an excluded: subtraction,
    // not longest-prefix.
    check_matches(
        &matcher(&["192.168.1.0/24", "192.168.1.254/32"], &["192.168.1.254"]),
        &[("192.168.1.254", false)],
    );
}

#[test]
fn exclude_matches_v4_mapped_peer() {
    check_matches(
        &matcher(&["192.168.1.0/24"], &["192.168.1.254"]),
        &[
            ("::ffff:192.168.1.254", false),
            ("::ffff:192.168.1.50", true),
        ],
    );
}

#[test]
fn empty_include_matches_nothing() {
    let m = CidrMatcher::default();
    assert!(m.is_empty());
    check_matches(&m, &[("192.168.1.1", false)]);
}
