//! The filter against DNS rebinding.
use numa::domain_list::PersistedDomainList;
use numa::net::{parse_ipv4, parse_ipv6};
use numa::packet::DnsPacket;
use numa::rebind::RebindFilter;
use numa::record::DnsRecord;

fn filter(allowlist: &[&str]) -> RebindFilter {
    let mut allow = PersistedDomainList::unpersisted();
    for d in allowlist {
        allow.insert_from_config(d);
    }
    RebindFilter::new(true, allow, &vec![]).unwrap()
}

fn a(addr: &str) -> DnsRecord {
    DnsRecord::A {
        domain: "host.example.".into(),
        addr: parse_ipv4(addr).unwrap(),
        ttl: 60,
    }
}

fn aaaa(addr: &str) -> DnsRecord {
    DnsRecord::AAAA {
        domain: "host.example.".into(),
        addr: parse_ipv6(addr).unwrap(),
        ttl: 60,
    }
}

/// Apply `f` to `answers` for `qname`; return (count stripped, survivors).
fn run(f: &RebindFilter, qname: &str, answers: Vec<DnsRecord>) -> (usize, Vec<DnsRecord>) {
    let mut p = DnsPacket::new();
    p.answers = answers;
    let n = f.apply(qname, &mut p);
    (n, p.answers)
}

/// The common case: default ranges, no allowlist, throwaway public qname.
fn strip(answers: Vec<DnsRecord>) -> (usize, Vec<DnsRecord>) {
    run(&filter(&[]), "evil.com", answers)
}

#[test]
fn strips_rfc1918_v4() {
    let r = strip(vec![a("8.8.8.8"), a("192.168.1.1"), a("10.0.0.5")]);
    assert_eq!(r, (2, vec![a("8.8.8.8")]));
}

#[test]
fn strips_link_local_and_this_host() {
    let r = strip(vec![a("169.254.1.1"), a("0.0.0.0"), a("1.1.1.1")]);
    assert_eq!(r, (2, vec![a("1.1.1.1")]));
}

#[test]
fn strips_ula_and_link_local_v6() {
    let r = strip(vec![aaaa("2606:4700::1"), aaaa("fd00::1"), aaaa("fe80::1")]);
    assert_eq!(r, (2, vec![aaaa("2606:4700::1")]));
}

#[test]
fn strips_v4_mapped_private_v6() {
    // ::ffff:192.168.1.1 canonicalizes to the v4 range: no explicit
    // ::ffff:0:0/96 entry needed.
    let r = strip(vec![aaaa("::ffff:192.168.1.1"), aaaa("::ffff:8.8.8.8")]);
    assert_eq!(r, (1, vec![aaaa("::ffff:8.8.8.8")]));
}

#[test]
fn loopback_stripped_by_default() {
    assert_eq!(strip(vec![a("127.0.0.1"), aaaa("::1")]), (2, vec![]));
}

#[test]
fn allowlisted_dnsbl_zone_keeps_127_response() {
    // RBL lookups legitimately resolve to 127.0.0.x; allowlisting the zone
    // exempts them from the loopback strip.
    let f = filter(&["spamhaus.org"]);
    assert_eq!(
        run(&f, "2.0.0.127.zen.spamhaus.org", vec![a("127.0.0.2")]).0,
        0
    );
}

#[test]
fn allowlist_suffix_exempts_subdomain_not_lookalike() {
    let f = filter(&["example.com"]);
    let priv_a = vec![a("192.168.1.50")];
    assert_eq!(
        run(&f, "nas.example.com", priv_a.clone()).0,
        0,
        "subdomain exempt"
    );
    assert_eq!(
        run(&f, "evilexample.com", priv_a).0,
        1,
        "lookalike not exempt"
    );
}

#[test]
fn disabled_passes_through() {
    let f = RebindFilter::new(false, PersistedDomainList::unpersisted(), &vec![]).unwrap();
    assert_eq!(
        run(&f, "evil.com", vec![a("192.168.1.1")]),
        (0, vec![a("192.168.1.1")])
    );
}

#[test]
fn custom_ranges_override_defaults() {
    // Only block ULA; RFC1918 v4 now passes.
    let f = RebindFilter::new(
        true,
        PersistedDomainList::unpersisted(),
        &vec!["fc00::/7".to_string()],
    )
    .unwrap();
    let r = run(&f, "evil.com", vec![a("192.168.1.1"), aaaa("fd00::1")]);
    assert_eq!(r, (1, vec![a("192.168.1.1")]));
}

#[test]
fn strips_cgnat_and_nat64() {
    // 100.64/10: rebinding to a CGNAT/Tailscale address reaches tailnet
    // services; 64:ff9b::/96: NAT64 synthesis routes to the embedded
    // private v4 (64:ff9b::c0a8:101 -> 192.168.1.1).
    let r = strip(vec![
        a("100.100.1.1"),
        aaaa("64:ff9b::c0a8:101"),
        a("8.8.8.8"),
    ]);
    assert_eq!(r, (2, vec![a("8.8.8.8")]));
}

#[test]
fn scrubs_authority_and_additional_sections() {
    let f = filter(&[]);
    let mut p = DnsPacket::new();
    p.answers.push(a("1.1.1.1"));
    p.authorities.push(a("192.168.1.1"));
    p.resources.push(aaaa("fd00::1"));
    p.resources.push(a("8.8.8.8"));
    assert_eq!(f.apply("evil.com", &mut p), 2);
    assert!(p.authorities.is_empty());
    assert_eq!(p.resources, vec![a("8.8.8.8")]);
    assert_eq!(p.answers.len(), 1, "public answer untouched");
}

#[test]
fn invalid_custom_range_errors() {
    assert!(RebindFilter::new(
        true,
        PersistedDomainList::unpersisted(),
        &vec!["not-a-cidr".to_string()]
    )
    .is_err());
}

#[test]
fn runtime_allowlist_add_exempts_remove_restores() {
    let mut f = filter(&["config.example"]);
    f.add_to_allowlist("nas.example.com");
    assert_eq!(run(&f, "nas.example.com", vec![a("192.168.1.50")]).0, 0);
    assert!(f.remove_from_allowlist("nas.example.com"));
    assert_eq!(run(&f, "nas.example.com", vec![a("192.168.1.50")]).0, 1);
    // Config entries are file-owned: not removable at runtime.
    assert!(!f.remove_from_allowlist("config.example"));
    assert_eq!(run(&f, "config.example", vec![a("10.0.0.1")]).0, 0);
}

#[test]
fn filtering_twice_takes_nothing_more() {
    let f = filter(&[]);
    let (n, left) = run(&f, "evil.com", vec![a("192.168.1.1"), a("8.8.8.8")]);
    assert_eq!(n, 1);
    assert_eq!(run(&f, "evil.com", left.clone()), (0, left));
}

#[test]
fn default_ranges_and_message() {
    let f = filter(&["b.example", "a.example"]);
    assert!(f.is_enabled());
    assert!(f.ranges().contains(&"192.168.0.0/16".to_string()));
    assert_eq!(f.allowlist(), vec!["a.example", "b.example"]);
    let e = RebindFilter::new(
        true,
        PersistedDomainList::unpersisted(),
        &vec!["10.0.0.0/8".to_string(), "x\"y".to_string()],
    )
    .err()
    .unwrap();
    assert_eq!(e, "invalid CIDR or IP in rebind_private_ranges: \"x\\\"y\"");
}

#[test]
fn once_is_enough() {
    let f = filter(&[]);
    let mut p = DnsPacket::new();
    p.answers = vec![a("8.8.8.8"), a("10.0.0.1")];
    p.authorities = vec![aaaa("fd00::1")];
    p.resources = vec![a("192.168.0.1"), aaaa("2606:4700::1")];
    assert_eq!(f.apply("evil.com", &mut p), 3);
    assert_eq!(p.answers, vec![a("8.8.8.8")]);
    assert!(p.authorities.is_empty());
    assert_eq!(p.resources, vec![aaaa("2606:4700::1")]);
    let after = p.clone();
    assert_eq!(f.apply("evil.com", &mut p), 0);
    assert_eq!(p, after);
}
