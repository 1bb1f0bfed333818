//! The configuration, its zones and its forwarding rules.
use numa::config::{
    default_bind_addrs, merge_forwarding_rules, Config, ForwardingRuleConfig, LanConfig, ProxyConfig, ServerConfig,
    UpstreamConfig, UpstreamMode,
};
use numa::forward::{socket_to_text, Upstream, UpstreamPool};
use numa::net::{parse_ip, parse_socket_addr, IpAddr, Ipv4Addr, SocketAddr};
use numa::paths::Platform;
use numa::question::QueryType;
use numa::record::DnsRecord;
use numa::system_dns::{match_forwarding_rule, ForwardingRule};
use numa::zone::{build_zone_map, ZoneError, ZoneRecord};


#[test]
fn lan_disabled_by_default() {
    assert!(!LanConfig::default().enabled);
}

#[test]
fn build_zone_map_accepts_ptr() {
    let zones = vec![ZoneRecord {
        domain: "1.0.168.192.in-addr.arpa".into(),
        record_type: "PTR".into(),
        value: "router.lan".into(),
        ttl: 300,
    }];
    let map = build_zone_map(&zones).expect("PTR must load");
    let records = map
        .lookup("1.0.168.192.in-addr.arpa", QueryType::PTR)
        .expect("hit");
    match &records[0] {
        DnsRecord::PTR { host, ttl, .. } => {
            assert_eq!(host, "router.lan");
            assert_eq!(*ttl, 300);
        }
        other => panic!("expected PTR, got {:?}", other),
    }
}

fn zone(domain: &str, record_type: &str, value: &str) -> ZoneRecord {
    ZoneRecord {
        domain: domain.into(),
        record_type: record_type.into(),
        value: value.into(),
        ttl: 300,
    }
}

#[test]
fn wildcard_exact_match_takes_precedence() {
    let map = build_zone_map(&vec![
        zone("pool.ntp.org", "A", "10.0.0.1"),
        zone("*.pool.ntp.org", "A", "10.0.0.2"),
    ])
    .unwrap();
    let records = map.lookup("pool.ntp.org", QueryType::A).expect("hit");
    match &records[0] {
        DnsRecord::A { addr, .. } => assert_eq!(addr.octets(), [10, 0, 0, 1]),
        other => panic!("expected A, got {:?}", other),
    }
}

#[test]
fn wildcard_matches_descendant() {
    let map = build_zone_map(&vec![zone("*.pool.ntp.org", "A", "10.0.0.2")]).unwrap();
    let records = map.lookup("time2.pool.ntp.org", QueryType::A).expect("hit");
    match &records[0] {
        DnsRecord::A { domain, addr, .. } => {
            assert_eq!(domain, "time2.pool.ntp.org", "owner must be QNAME");
            assert_eq!(addr.octets(), [10, 0, 0, 2]);
        }
        other => panic!("expected A, got {:?}", other),
    }
}

#[test]
fn wildcard_does_not_match_parent_itself() {
    let map = build_zone_map(&vec![zone("*.pool.ntp.org", "A", "10.0.0.2")]).unwrap();
    assert!(
        map.lookup("pool.ntp.org", QueryType::A).is_none(),
        "wildcard parent must not match the wildcard itself (RFC 4592 section 2.1.1)"
    );
}

#[test]
fn wildcard_longest_suffix_wins() {
    let map = build_zone_map(&vec![
        zone("*.b.c", "A", "10.0.0.1"),
        zone("*.a.b.c", "A", "10.0.0.2"),
    ])
    .unwrap();
    let records = map.lookup("x.a.b.c", QueryType::A).expect("hit");
    match &records[0] {
        DnsRecord::A { addr, .. } => assert_eq!(addr.octets(), [10, 0, 0, 2]),
        other => panic!("expected A, got {:?}", other),
    }
}

#[test]
fn wildcard_matches_multi_label_descendant() {
    let map = build_zone_map(&vec![zone("*.example.com", "A", "10.0.0.3")]).unwrap();
    let records = map
        .lookup("deep.sub.example.com", QueryType::A)
        .expect("hit");
    match &records[0] {
        DnsRecord::A { domain, addr, .. } => {
            assert_eq!(domain, "deep.sub.example.com");
            assert_eq!(addr.octets(), [10, 0, 0, 3]);
        }
        other => panic!("expected A, got {:?}", other),
    }
}

#[test]
fn wildcard_invalid_configs_rejected() {
    assert!(build_zone_map(&vec![zone("*", "A", "10.0.0.1")]).is_err());
    assert!(build_zone_map(&vec![zone("*.*.foo", "A", "10.0.0.1")]).is_err());
    assert!(build_zone_map(&vec![zone("foo.*.bar", "A", "10.0.0.1")]).is_err());
    assert!(build_zone_map(&vec![zone("*foo.bar", "A", "10.0.0.1")]).is_err());
}

#[test]
fn wildcard_cname_rdata_stays_literal() {
    let map = build_zone_map(&vec![zone("*.pool.ntp.org", "CNAME", "time.onsite")]).unwrap();
    let records = map.lookup("x.pool.ntp.org", QueryType::CNAME).expect("hit");
    match &records[0] {
        DnsRecord::CNAME { domain, host, .. } => {
            assert_eq!(domain, "x.pool.ntp.org", "owner is QNAME");
            assert_eq!(
                host, "time.onsite",
                "RDATA target stays literal (RFC 4592 section 2.3.1)"
            );
        }
        other => panic!("expected CNAME, got {:?}", other),
    }
}

#[test]
fn cname_returned_when_qtype_absent() {
    // RFC 1034 section 3.6.2: a query on a CNAME owner for a different qtype must
    // return the CNAME so the chase layer can follow it. Exact + wildcard.
    let map = build_zone_map(&vec![
        zone("alias.test", "CNAME", "real.test"),
        zone("*.svc.home", "CNAME", "proxy.home"),
    ])
    .unwrap();

    let exact = map.lookup("alias.test", QueryType::A).expect("hit");
    assert!(matches!(&exact[0], DnsRecord::CNAME { host, .. } if host == "real.test"));

    let wild = map.lookup("git.svc.home", QueryType::A).expect("hit");
    match &wild[0] {
        DnsRecord::CNAME { domain, host, .. } => {
            assert_eq!(domain, "git.svc.home", "wildcard owner must be QNAME");
            assert_eq!(host, "proxy.home");
        }
        other => panic!("expected CNAME, got {:?}", other),
    }
}

#[test]
fn wildcard_nodata_when_qtype_absent() {
    let map = build_zone_map(&vec![zone("*.foo", "A", "10.0.0.1")]).unwrap();
    let result = map.lookup("x.foo", QueryType::AAAA);
    assert!(
        result.as_ref().is_some_and(|r| r.is_empty()),
        "wildcard parent matched but no AAAA: must be NODATA (Some/empty), not None (RFC 4592 section 2.2.1)"
    );
}

#[test]
fn exact_name_shadows_wildcard_across_types() {
    let map = build_zone_map(&vec![
        zone("foo.bar", "A", "10.0.0.1"),
        zone("*.bar", "AAAA", "::1"),
    ])
    .unwrap();
    let result = map.lookup("foo.bar", QueryType::AAAA);
    assert!(
        result.as_ref().is_some_and(|r| r.is_empty()),
        "exact name shadows wildcard for all types (RFC 4592 section 3.3.1)"
    );
}

#[test]
fn wildcard_trailing_dot_normalized() {
    let map = build_zone_map(&vec![zone("*.foo.bar.", "A", "10.0.0.1")]).unwrap();
    let records = map.lookup("x.foo.bar", QueryType::A).expect("hit");
    match &records[0] {
        DnsRecord::A { addr, .. } => assert_eq!(addr.octets(), [10, 0, 0, 1]),
        other => panic!("expected A, got {:?}", other),
    }
}

#[test]
fn api_binds_localhost_by_default() {
    assert_eq!(ServerConfig::default().api_bind_addr, "127.0.0.1");
}

#[test]
fn proxy_binds_localhost_by_default() {
    assert_eq!(ProxyConfig::default().bind_addr, "127.0.0.1");
}

#[test]
fn proxy_cert_and_key_paths_default_to_none() {
    let cfg = ProxyConfig::default();
    assert!(cfg.cert_path.is_none());
    assert!(cfg.key_path.is_none());
}

#[test]
fn filter_aaaa_defaults_false() {
    assert!(!ServerConfig::default().filter_aaaa);
}

#[test]
fn odoh_config_parses_and_validates() {
    let mut upstream = UpstreamConfig { mode: UpstreamMode::Odoh, ..Default::default() };
    upstream.relay = Some("https://odoh-relay.numa.rs/relay".to_string());
    upstream.target = Some("https://odoh.cloudflare-dns.com/dns-query".to_string());
    assert!(matches!(upstream.mode, UpstreamMode::Odoh));
    let odoh = upstream.odoh_upstream().unwrap();
    assert_eq!(odoh.relay_url, "https://odoh-relay.numa.rs/relay");
    assert_eq!(odoh.target_host, "odoh.cloudflare-dns.com");
    assert_eq!(odoh.target_path, "/dns-query");
    assert!(odoh.strict, "strict defaults to true under mode=odoh");
}

#[test]
fn odoh_strict_false_is_honoured() {
    let mut upstream = UpstreamConfig { mode: UpstreamMode::Odoh, ..Default::default() };
    upstream.relay = Some("https://odoh-relay.numa.rs/relay".to_string());
    upstream.target = Some("https://odoh.cloudflare-dns.com/dns-query".to_string());
    upstream.strict = Some(false);
    assert!(!upstream.odoh_upstream().unwrap().strict);
}

#[test]
fn odoh_rejects_same_host_relay_and_target() {
    let mut upstream = UpstreamConfig { mode: UpstreamMode::Odoh, ..Default::default() };
    upstream.relay = Some("https://odoh.example.com/relay".to_string());
    upstream.target = Some("https://odoh.example.com/dns-query".to_string());
    let err = upstream.odoh_upstream().err().unwrap();
    assert!(err.contains("same host"), "got: {err}");
}

#[test]
fn odoh_rejects_shared_registrable_domain() {
    let mut upstream = UpstreamConfig { mode: UpstreamMode::Odoh, ..Default::default() };
    upstream.relay = Some("https://r.cloudflare.com/relay".to_string());
    upstream.target = Some("https://odoh.cloudflare.com/dns-query".to_string());
    let err = upstream.odoh_upstream().err().unwrap();
    assert!(err.contains("registrable domain"), "got: {err}");
    assert!(err.contains("cloudflare.com"), "got: {err}");
}

#[test]
fn odoh_rejects_shared_registrable_under_multi_label_suffix() {
    let mut upstream = UpstreamConfig { mode: UpstreamMode::Odoh, ..Default::default() };
    upstream.relay = Some("https://a.foo.co.uk/relay".to_string());
    upstream.target = Some("https://b.foo.co.uk/dns-query".to_string());
    let err = upstream.odoh_upstream().err().unwrap();
    assert!(err.contains("foo.co.uk"), "got: {err}");
}

#[test]
fn odoh_accepts_distinct_registrable_under_multi_label_suffix() {
    let mut upstream = UpstreamConfig { mode: UpstreamMode::Odoh, ..Default::default() };
    upstream.relay = Some("https://relay.foo.co.uk/relay".to_string());
    upstream.target = Some("https://target.bar.co.uk/dns-query".to_string());
    assert!(upstream.odoh_upstream().is_ok());
}

#[test]
fn odoh_accepts_distinct_private_psl_suffix_subdomains() {
    // *.github.io is a public suffix, so foo.github.io and bar.github.io
    // are independent registrable domains: accept.
    let mut upstream = UpstreamConfig { mode: UpstreamMode::Odoh, ..Default::default() };
    upstream.relay = Some("https://foo.github.io/relay".to_string());
    upstream.target = Some("https://bar.github.io/dns-query".to_string());
    assert!(upstream.odoh_upstream().is_ok());
}

#[test]
fn odoh_rejects_non_https() {
    let mut upstream = UpstreamConfig { mode: UpstreamMode::Odoh, ..Default::default() };
    upstream.relay = Some("http://odoh-relay.numa.rs/relay".to_string());
    upstream.target = Some("https://odoh.cloudflare-dns.com/dns-query".to_string());
    let err = upstream.odoh_upstream().err().unwrap();
    assert!(err.contains("https"), "got: {err}");
}

#[test]
fn odoh_missing_relay_rejected() {
    let mut upstream = UpstreamConfig { mode: UpstreamMode::Odoh, ..Default::default() };
    upstream.target = Some("https://odoh.cloudflare-dns.com/dns-query".to_string());
    let err = upstream.odoh_upstream().err().unwrap();
    assert!(err.contains("upstream.relay"), "got: {err}");
}

#[test]
fn odoh_bootstrap_ips_parse_into_socket_addrs() {
    let mut upstream = UpstreamConfig { mode: UpstreamMode::Odoh, ..Default::default() };
    upstream.relay = Some("https://odoh-relay.numa.rs/relay".to_string());
    upstream.target = Some("https://odoh.cloudflare-dns.com/dns-query".to_string());
    upstream.relay_ip = parse_ip("178.104.229.30");
    upstream.target_ip = parse_ip("104.16.249.249");
    let odoh = upstream.odoh_upstream().unwrap();
    assert_eq!(odoh.relay_host, "odoh-relay.numa.rs");
    assert_eq!(
        socket_to_text(odoh.relay_bootstrap.unwrap()),
        "178.104.229.30:443"
    );
    assert_eq!(
        socket_to_text(odoh.target_bootstrap.unwrap()),
        "104.16.249.249:443"
    );
}

#[test]
fn odoh_bootstrap_ips_optional() {
    let mut upstream = UpstreamConfig { mode: UpstreamMode::Odoh, ..Default::default() };
    upstream.relay = Some("https://odoh-relay.numa.rs/relay".to_string());
    upstream.target = Some("https://odoh.cloudflare-dns.com/dns-query".to_string());
    let odoh = upstream.odoh_upstream().unwrap();
    assert!(odoh.relay_bootstrap.is_none());
    assert!(odoh.target_bootstrap.is_none());
}

#[test]
fn odoh_bootstrap_uses_url_port_when_non_default() {
    let mut upstream = UpstreamConfig { mode: UpstreamMode::Odoh, ..Default::default() };
    upstream.relay = Some("https://odoh-relay.numa.rs:8443/relay".to_string());
    upstream.target = Some("https://odoh.cloudflare-dns.com/dns-query".to_string());
    upstream.relay_ip = parse_ip("178.104.229.30");
    let odoh = upstream.odoh_upstream().unwrap();
    assert_eq!(
        socket_to_text(odoh.relay_bootstrap.unwrap()),
        "178.104.229.30:8443"
    );
}

#[test]
fn hedge_delay_zeroed_for_odoh_mode() {
    assert_eq!(
        UpstreamMode::Odoh.hedge_delay(50),
        0,
        "ODoH mode must zero hedge regardless of configured hedge_ms"
    );
    assert_eq!(
        UpstreamMode::Forward.hedge_delay(50),
        50,
        "non-ODoH modes honour configured hedge_ms"
    );
}

#[test]
fn odoh_missing_target_rejected() {
    let mut upstream = UpstreamConfig { mode: UpstreamMode::Odoh, ..Default::default() };
    upstream.relay = Some("https://odoh-relay.numa.rs/relay".to_string());
    let err = upstream.odoh_upstream().err().unwrap();
    assert!(err.contains("upstream.target"), "got: {err}");
}

#[test]
fn forwarding_suffix_array_expands_to_multiple_runtime_rules() {
    let rule = ForwardingRuleConfig {
        suffix: vec!["168.192.in-addr.arpa".to_string(), "onsite".to_string()],
        upstream: vec!["192.168.88.1".to_string()],
    };
    let runtime = rule.to_runtime_rules().unwrap();
    assert_eq!(runtime.len(), 2);
    assert_eq!(runtime[0].suffix, "168.192.in-addr.arpa");
    assert_eq!(runtime[1].suffix, "onsite");
    assert_eq!(
        runtime[0].upstream.preferred(),
        runtime[1].upstream.preferred()
    );
}

#[test]
fn forwarding_upstream_with_explicit_port() {
    let rule = ForwardingRuleConfig {
        suffix: vec!["home.local".to_string()],
        upstream: vec!["100.90.1.63:5361".to_string()],
    };
    let runtime = rule.to_runtime_rules().unwrap();
    assert_eq!(runtime.len(), 1);
    let preferred = runtime[0].upstream.preferred().unwrap();
    assert!(matches!(preferred, Upstream::Udp(_)));
    assert_eq!(preferred.to_text(), "100.90.1.63:5361");
    assert_eq!(runtime[0].suffix, "home.local");
}

#[test]
fn forwarding_upstream_defaults_to_port_53() {
    let rule = ForwardingRuleConfig {
        suffix: vec!["home.local".to_string()],
        upstream: vec!["100.90.1.63".to_string()],
    };
    let runtime = rule.to_runtime_rules().unwrap();
    assert_eq!(
        runtime[0].upstream.preferred().unwrap().to_text(),
        "100.90.1.63:53"
    );
}

#[test]
fn forwarding_invalid_upstream_returns_error() {
    let rule = ForwardingRuleConfig {
        suffix: vec!["home.local".to_string()],
        upstream: vec!["not-a-valid-host".to_string()],
    };
    assert!(rule.to_runtime_rules().is_err());
}

#[test]
fn forwarding_upstream_accepts_dot_scheme() {
    let rule = ForwardingRuleConfig {
        suffix: vec!["google.com".to_string()],
        upstream: vec!["tls://9.9.9.9#dns.quad9.net".to_string()],
    };
    let runtime = rule
        .to_runtime_rules()
        .expect("tls:// upstream should parse");
    assert_eq!(runtime.len(), 1);
    assert_eq!(
        runtime[0].upstream.preferred().unwrap().to_text(),
        "tls://9.9.9.9:853#dns.quad9.net"
    );
}

#[test]
fn forwarding_upstream_accepts_doh_scheme() {
    let rule = ForwardingRuleConfig {
        suffix: vec!["goog".to_string()],
        upstream: vec!["https://dns.quad9.net/dns-query".to_string()],
    };
    let runtime = rule
        .to_runtime_rules()
        .expect("https:// upstream should parse");
    assert_eq!(runtime.len(), 1);
    assert_eq!(
        runtime[0].upstream.preferred().unwrap().to_text(),
        "https://dns.quad9.net/dns-query"
    );
}

#[test]
fn forwarding_config_rules_take_precedence_over_discovered() {
    let config_rules = vec![ForwardingRuleConfig {
        suffix: vec!["home.local".to_string()],
        upstream: vec!["10.0.0.1:53".to_string()],
    }];
    let discovered = vec![ForwardingRule::new(
        "home.local".to_string(),
        UpstreamPool::new(
            vec![Upstream::Udp(
                parse_socket_addr("192.168.1.1:53").unwrap(),
            )],
            vec![],
        ),
    )];
    let merged = merge_forwarding_rules(&config_rules, discovered).unwrap();
    let picked = match_forwarding_rule("host.home.local", &merged)
        .expect("rule should match");
    assert_eq!(picked.preferred().unwrap().to_text(), "10.0.0.1:53");
}

#[test]
fn forwarding_merge_preserves_non_overlapping_discovered() {
    let config_rules = vec![ForwardingRuleConfig {
        suffix: vec!["home.local".to_string()],
        upstream: vec!["10.0.0.1:53".to_string()],
    }];
    let discovered = vec![ForwardingRule::new(
        "corp.example".to_string(),
        UpstreamPool::new(
            vec![Upstream::Udp(
                parse_socket_addr("192.168.1.1:53").unwrap(),
            )],
            vec![],
        ),
    )];
    let merged = merge_forwarding_rules(&config_rules, discovered).unwrap();
    assert_eq!(merged.len(), 2);
    let picked = match_forwarding_rule("host.corp.example", &merged)
        .expect("discovered rule should still match");
    assert_eq!(picked.preferred().unwrap().to_text(), "192.168.1.1:53");
}

#[test]
fn forwarding_merge_suffix_array_expands_to_multiple_rules() {
    let config_rules = vec![ForwardingRuleConfig {
        suffix: vec!["a.local".to_string(), "b.local".to_string()],
        upstream: vec!["10.0.0.1:53".to_string()],
    }];
    let merged = merge_forwarding_rules(&config_rules, vec![]).unwrap();
    assert_eq!(merged.len(), 2);
}

#[test]
fn forwarding_upstream_array_builds_pool_with_multiple_primaries() {
    let rule = ForwardingRuleConfig {
        suffix: vec!["google.com".to_string()],
        upstream: vec![
            "tls://9.9.9.9#dns.quad9.net".to_string(),
            "tls://149.112.112.112#dns.quad9.net".to_string(),
        ],
    };
    let runtime = rule.to_runtime_rules().unwrap();
    assert_eq!(runtime.len(), 1);
    let label = runtime[0].upstream.label();
    assert!(label.contains("+1 more"), "label was: {}", label);
}

#[test]
fn forwarding_empty_upstream_array_errors() {
    let rule = ForwardingRuleConfig {
        suffix: vec!["home.local".to_string()],
        upstream: vec![],
    };
    assert!(rule.to_runtime_rules().is_err());
}

#[test]
fn empty_configuration_is_the_default() {
    let config = Config::default();
    assert!(!config.lan.enabled);
    assert_eq!(config.server.api_bind_addr, "127.0.0.1");
    assert_eq!(config.proxy.bind_addr, "127.0.0.1");
    assert_eq!(config.server.api_port, ServerConfig::default().api_port);
    assert!(config.upstream.address.is_empty());
    assert!(config.upstream.fallback.is_empty());
    assert!(config.forwarding.is_empty());
}

#[test]
fn zone_errors_are_told_apart() {
    let fault = |z: ZoneRecord| build_zone_map(&vec![z]).err().unwrap();
    assert!(matches!(fault(zone("*", "A", "10.0.0.1")), ZoneError::InvalidWildcard(_)));
    assert!(matches!(fault(zone("x.y", "A", "nope")), ZoneError::InvalidA(_)));
    assert!(matches!(fault(zone("x.y", "AAAA", "1.2.3.4")), ZoneError::InvalidAaaa(_)));
    assert!(matches!(fault(zone("x.y", "MX", "mail")), ZoneError::MxShape(_)));
    assert!(matches!(fault(zone("x.y", "MX", "high mail.y")), ZoneError::MxPriority(_)));
    assert!(matches!(fault(zone("x.y", "LOC", "here")), ZoneError::UnsupportedType(_)));
}

#[test]
fn zones_are_counted_by_name_and_type() {
    let map = build_zone_map(&vec![
        zone("a.test", "A", "10.0.0.1"),
        zone("a.test", "A", "10.0.0.2"),
        zone("a.test", "AAAA", "::1"),
        zone("*.w.test", "a", "10.0.0.3"),
    ])
    .unwrap();
    assert_eq!(map.len(), 3);
    assert!(!map.is_empty());
    assert_eq!(map.lookup("a.test", QueryType::A).unwrap().len(), 2);
}

#[test]
fn mapped_addresses_are_written_out() {
    let text = socket_to_text(SocketAddr { ip: IpAddr::V4(Ipv4Addr::new(1, 2, 3, 4)), port: 5, scope: 0 });
    assert_eq!(text, "1.2.3.4:5");
    let text = socket_to_text(parse_socket_addr("[2001:db8::1]:853").unwrap());
    assert_eq!(text, "[2001:db8::1]:853");
}

#[test]
fn odoh_hosts_are_overridden_in_order() {
    let mut upstream = UpstreamConfig::default();
    upstream.mode = UpstreamMode::Odoh;
    upstream.relay = Some("https://odoh-relay.numa.rs/relay".to_string());
    upstream.target = Some("https://a-target.cloudflare-dns.com/dns-query".to_string());
    assert!(upstream.odoh_upstream().unwrap().host_ip_overrides().is_empty());
    let relay = parse_ip("178.104.229.30").unwrap();
    let target = parse_ip("104.16.249.249").unwrap();
    upstream.relay_ip = Some(relay);
    upstream.target_ip = Some(target);
    let hosts = upstream.odoh_upstream().unwrap().host_ip_overrides();
    assert_eq!(hosts.len(), 2);
    assert_eq!(hosts[0].host, "a-target.cloudflare-dns.com");
    assert_eq!(hosts[0].addrs, vec![target]);
    assert_eq!(hosts[1].host, "odoh-relay.numa.rs");
    assert_eq!(hosts[1].addrs, vec![relay]);
}

#[test]
fn scopes_of_link_local_addresses_are_kept() {
    let a = parse_socket_addr("[fe80::1%3]:53").unwrap();
    assert_eq!(a.scope, 3);
    assert_eq!(socket_to_text(a), "[fe80::1%3]:53");
    let b = parse_socket_addr("[fe80::1]:53").unwrap();
    assert_eq!(b.scope, 0);
    assert_eq!(socket_to_text(b), "[fe80::1]:53");
    assert_ne!(a, b);
    assert_eq!(parse_socket_addr("[fe80::1%]:53"), None);
    assert_eq!(parse_socket_addr("[fe80::1%4294967296]:53"), None);
}

#[test]
fn dns_is_served_where_the_system_leads_it() {
    assert_eq!(default_bind_addrs(Platform::Windows), vec!["127.0.0.2:53"]);
    assert_eq!(default_bind_addrs(Platform::Linux), vec!["0.0.0.0:53"]);
    assert_eq!(default_bind_addrs(Platform::Macos), vec!["0.0.0.0:53"]);
    assert_eq!(ServerConfig::default_on(Platform::Windows).bind_addr, vec!["127.0.0.2:53"]);
    assert_eq!(ServerConfig::default().bind_addr, vec!["0.0.0.0:53"]);
}
