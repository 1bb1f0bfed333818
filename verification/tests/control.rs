//! The control interface, the proxy, the health report, and starting the server.
use numa::acl::AllowFromAcl;
use numa::api::{
    add_route, create_service, default_pause_minutes, default_ttl, diagnose, list_routes,
    list_services, override_duration, pause_secs, query_log_filter, removal_status, remove_route,
    remove_service, serve_qr, stats, total_estimated, CreatedService, Found, StatsInputs,
    UpstreamProbe,
};
use numa::banner::{print_banner, BannerInfo};
use numa::config::{Config, ForwardingRuleConfig, ServiceConfig, UpstreamMode};
use numa::client_policy::ClientPolicyConfig;
use numa::ctx::ServerCtx;
use numa::header::ResultCode;
use numa::health::{compute_ca_fingerprint, HealthMeta, HealthResponse};
use numa::name_set::NameSet;
use numa::net::{parse_ip, parse_socket_addr, IpAddr, Ipv4Addr};
use numa::pp2::PpConfig;
use numa::proxy::{allow_from_guard, extract_host, proxy_handler, ProxyStep};
use numa::question::QueryType;
use numa::record::DnsRecord;
use numa::runtime::{
    background_services, check_bind_addrs, flushes_peers, load_blocklists, network_watch,
    take_datagram, upstream_detected,
};
use numa::serve::{build_ctx, resolve_upstream_pool, Discovered, Kept, StartError};
use numa::service_store::{ServiceEntry, ServiceStore};
use numa::stats::QueryPath;
use numa::zone::{ZoneMap, ZoneRecord};

fn found() -> Discovered {
    Discovered {
        default_upstream: None,
        network_upstream: None,
        rules: vec![],
        probe_ok: false,
        lan_ip: None,
    }
}

fn kept() -> Kept {
    Kept {
        blocking_allow: vec![],
        blocking_block: vec![],
        rebind_allow: vec![],
        services: vec![],
    }
}

fn test_ctx() -> ServerCtx {
    build_ctx(&Config::default(), found(), &kept(), 100).ok().unwrap().0
}

fn create(
    store: &mut ServiceStore,
    name: &str,
    port: u16,
    host: Option<&str>,
) -> Result<CreatedService, (u16, &'static str)> {
    create_service(store, name, port, host, false, "numa")
}

#[test]
fn services_crud() {
    let mut store = ServiceStore::new();
    let made = create(&mut store, "testapp", 3000, None).unwrap();
    assert_eq!(made.status, 201);
    let list = list_services(&store, false, "numa");
    assert!(list.iter().any(|l| l.entry.name == "testapp"));
    assert_eq!(remove_service(&mut store, "testapp"), 204);
    let list = list_services(&store, false, "numa");
    assert!(!list.iter().any(|l| l.entry.name == "testapp"));
}

#[test]
fn services_are_known_by_their_lower_case_names() {
    let mut store = ServiceStore::new();
    let made = create(&mut store, "TestApp", 3000, None).unwrap();
    assert_eq!(made.name, "testapp");
    assert!(made.is_new);
    assert_eq!(made.url, "http://testapp.numa");
    assert!(!create(&mut store, "testapp", 3001, None).unwrap().is_new);
    let list = list_services(&store, false, "numa");
    assert_eq!(list.len(), 1);
    assert_eq!(list[0].entry.target_port, 3001);
    assert_eq!(list[0].source, "api");
    assert_eq!(remove_service(&mut store, "TESTAPP"), 204);
    assert_eq!(remove_service(&mut store, "testapp"), 404);
    assert!(list_services(&store, false, "numa").is_empty());
}

#[test]
fn own_service_is_not_removed() {
    let mut ctx = test_ctx();
    assert_eq!(remove_service(&mut ctx.services, "NUMA"), 403);
    let list = list_services(&ctx.services, true, "numa");
    assert_eq!(list[0].source, "config");
    assert_eq!(list[0].url, "https://numa.numa");
}

#[test]
fn create_service_accepts_target_host() {
    let mut store = ServiceStore::new();
    let made = create(&mut store, "nas", 80, Some("192.168.1.50")).unwrap();
    assert_eq!(made.status, 201);
    assert_eq!(made.target_host.as_deref(), Some("192.168.1.50"));
    let list = list_services(&store, false, "numa");
    let entry = list.iter().find(|l| l.entry.name == "nas").expect("listed service");
    assert_eq!(entry.entry.target_host.as_deref(), Some("192.168.1.50"));
}

#[test]
fn create_service_strips_default_target_host() {
    for (i, host) in ["localhost", "127.0.0.1", "", "   "].iter().enumerate() {
        let mut store = ServiceStore::new();
        let made = create(&mut store, &format!("app{i}"), 3000, Some(host)).unwrap();
        assert_eq!(made.status, 201, "host={host:?}");
        assert!(made.target_host.is_none(), "host={host:?} should collapse to default");
    }
}

#[test]
fn create_service_rejects_overlong_target_host() {
    let mut store = ServiceStore::new();
    let (status, _) = create(&mut store, "app", 80, Some(&"a".repeat(254))).unwrap_err();
    assert_eq!(status, 400);
}

#[test]
fn create_service_rejects_target_host_with_scheme() {
    let mut store = ServiceStore::new();
    let (status, _) = create(&mut store, "app", 80, Some("http://x.y")).unwrap_err();
    assert_eq!(status, 400);
}

#[test]
fn service_faults_are_told_apart() {
    let mut store = ServiceStore::new();
    let mut fault = |name: &str, port, host| create(&mut store, name, port, host).unwrap_err().1;
    assert_eq!(fault("", 80, None), "name must be 1-63 characters");
    assert_eq!(fault(&"a".repeat(64), 80, None), "name must be 1-63 characters");
    assert_eq!(fault(&"\u{e4}".repeat(32), 80, None), "name must be 1-63 characters");
    assert_eq!(
        fault("a.b", 80, None),
        "name must contain only alphanumeric characters and hyphens"
    );
    assert_eq!(fault("ab", 0, None), "target_port must be > 0");
    assert_eq!(
        fault("ab", 1, Some("a b")),
        "target_host must be a bare hostname or IP (no scheme, port, or path)"
    );
}

#[test]
fn service_url_uses_https_when_byo_cert_configured() {
    let mut store = ServiceStore::new();
    let made = create_service(&mut store, "nas", 80, None, true, "numa").unwrap();
    assert_eq!(made.url, "https://nas.numa");
}

#[test]
fn routes_are_checked() {
    let mut store = ServiceStore::new();
    create(&mut store, "app", 3000, None).unwrap();
    let mut add = |path: &str, port| add_route(&mut store, "app", path.to_string(), port, false);
    assert_eq!(add("/api", 4000), Ok(201));
    assert_eq!(add("api", 4000), Err((400, "path must start with /".to_string())));
    for path in ["/a/../b", "/a/..", "/a%2e"] {
        let message = "path must not contain '..' or percent-encoding".to_string();
        assert_eq!(add(path, 4000), Err((400, message)), "{path}");
    }
    assert_eq!(add("/x", 0), Err((400, "port must be > 0".to_string())));
    assert_eq!(
        add_route(&mut store, "ghost", "/a".to_string(), 1, false),
        Err((404, "service 'ghost' not found".to_string()))
    );
    assert_eq!(list_routes(&store, "app").unwrap().len(), 1);
    assert_eq!(list_routes(&store, "ghost").err(), Some(404));
    assert_eq!(remove_route(&mut store, "app", "/api"), 204);
    assert_eq!(remove_route(&mut store, "app", "/api"), 404);
}

#[test]
fn query_log_empty() {
    let ctx = test_ctx();
    let filter = query_log_filter(None, None, None, Some(10));
    assert!(ctx.query_log.query(&filter).is_empty());
}

#[test]
fn log_requests_name_types_and_ways() {
    let f = query_log_filter(Some("x".to_string()), Some("aaaa"), Some("CACHED"), None);
    assert_eq!(f.query_type, Some(QueryType::AAAA));
    assert_eq!(f.path, Some(QueryPath::Cached));
    let f = query_log_filter(None, Some("nonsense"), Some("nonsense"), None);
    assert_eq!(f.query_type, None);
    assert_eq!(f.path, None);
}

fn inputs() -> StatsInputs {
    StatsInputs {
        version: "1.2.3",
        config_path: "c".to_string(),
        data_dir: "d".to_string(),
        srtt_enabled: true,
        srtt_entries: 1,
        srtt_bytes: 2,
        cache_entries: 3,
        cache_max: 4,
        cache_bytes: 5,
        overrides_active: 6,
        overrides_bytes: 7,
        blocking_paused: false,
        blocklist_bytes: 8,
        lan_peers: 9,
        mobile_enabled: true,
        mobile_port: 10,
        process_memory_bytes: 11,
    }
}

#[test]
fn stats_returns_json() {
    let ctx = test_ctx();
    let r = stats(&ctx, inputs(), 60_000_000_100);
    assert_eq!(r.counters.uptime_secs, 60);
    assert_eq!(r.counters.total, 0);
    assert_eq!(r.mode, "forward");
    assert_eq!(r.upstream, "https://9.9.9.9/dns-query");
    assert_eq!(r.memory.total_estimated_bytes, 5 + 8 + 2 + 7);
    assert_eq!(total_estimated(usize::MAX, 1, 0, 0, 0), usize::MAX);
}

#[test]
fn blocking_stats_returns_json() {
    let mut ctx = test_ctx();
    let lists = vec!["ads.example\n0.0.0.0 t.example\n".to_string(), "ads.example\n".to_string()];
    assert_eq!(load_blocklists(&mut ctx, &lists), 2);
    let r = stats(&ctx, inputs(), 160);
    assert!(r.blocking.enabled);
    assert_eq!(r.blocking.domains_loaded, 2);
    assert!(ctx.blocklist.is_blocked("sub.t.example"));
}

#[test]
fn diagnosis_names_each_source() {
    let mut ctx = test_ctx();
    ctx.zone_map = ZoneMap::from_exact(vec![DnsRecord::A {
        domain: "a.test".to_string(),
        addr: Ipv4Addr::new(1, 2, 3, 4),
        ttl: 60,
    }]);
    let found = Found {
        override_entry: Some(("a.test".to_string(), "1.2.3.4".to_string(), QueryType::A)),
        cached_answers: Some(2),
    };
    let steps = diagnose(&ctx, "A.test", &found, &UpstreamProbe::Answered(ResultCode::NOERROR, 3));
    let shown: Vec<(&str, bool, Option<&str>)> =
        steps.iter().map(|s| (s.source, s.matched, s.detail.as_deref())).collect();
    assert_eq!(
        shown,
        vec![
            ("override", true, Some("a.test -> 1.2.3.4 (A)")),
            ("blocklist", false, None),
            ("local_zone", true, Some("1 records")),
            ("cache", true, Some("2 answers")),
            ("upstream", true, Some("NOERROR (3 answers)")),
        ]
    );
    let none = Found { override_entry: None, cached_answers: None };
    let steps = diagnose(&ctx, "x.y", &none, &UpstreamProbe::Failed("timeout".to_string()));
    assert_eq!(steps[4].detail.as_deref(), Some("error: timeout"));
    let steps = diagnose(&ctx, "x.y", &none, &UpstreamProbe::Unconfigured);
    assert_eq!(steps[4].detail.as_deref(), Some("no upstream configured"));
    assert!(!steps[4].matched);
}

#[test]
fn defaults_of_requests() {
    assert_eq!(default_ttl(), 60);
    assert_eq!(default_pause_minutes(), 5);
    assert_eq!(pause_secs(5), Some(300));
    assert_eq!(pause_secs(u64::MAX), None);
    assert_eq!(override_duration(Some(1), Some(2)), Some(1));
    assert_eq!(override_duration(None, Some(2)), Some(2));
}

#[test]
fn phones_are_shown_a_code() {
    let lan = Ipv4Addr::new(192, 168, 1, 5);
    let svg = serve_qr(true, lan, 8765).unwrap();
    assert!(svg.contains("<svg"));
    assert!(svg.contains("#2c2418") && svg.contains("#faf7f2"));
    assert_ne!(svg, serve_qr(true, lan, 8766).unwrap());
    assert_eq!(serve_qr(false, lan, 8765), Err(404));
}

fn meta(dot: bool, ca: Option<&str>, features: &[&str]) -> HealthMeta {
    HealthMeta {
        version: "0.10.0",
        hostname: "test-host".to_string(),
        sni: "numa.numa".to_string(),
        dot_enabled: dot,
        dot_port: 853,
        api_port: 8765,
        ca_fingerprint_sha256: ca.map(|s| s.to_string()),
        features: features.iter().map(|s| s.to_string()).collect(),
        started_at: 50,
    }
}

#[test]
fn health_response_contains_required_fields() {
    let meta = meta(true, Some("abcd1234"), &["dot", "dnssec"]);
    let r = HealthResponse::build(&meta, Some(Ipv4Addr::new(192, 168, 1, 50)), 10_999_999_999);
    assert_eq!(r.status, "ok");
    assert_eq!(r.version, "0.10.0");
    assert_eq!(r.hostname, "test-host");
    assert_eq!(r.lan_ip.as_deref(), Some("192.168.1.50"));
    assert_eq!(r.sni, "numa.numa");
    assert_eq!(r.dot.port, Some(853));
    assert_eq!(r.api.port, 8765);
    assert_eq!(r.ca.fingerprint_sha256.as_deref(), Some("abcd1234"));
    assert_eq!(r.features, vec!["dot", "dnssec"]);
    assert_eq!(r.uptime_secs, 10);
}

#[test]
fn health_response_omits_dot_port_when_disabled() {
    let r = HealthResponse::build(&meta(false, None, &[]), None, 10);
    assert!(!r.dot.enabled);
    assert_eq!(r.dot.port, None);
    assert!(!r.ca.present);
    assert_eq!(r.lan_ip, None);
    assert_eq!(r.uptime_secs, 0);
}

#[test]
fn ca_fingerprint_returns_none_for_missing_file() {
    assert!(compute_ca_fingerprint(None).is_none());
}

#[test]
fn fingerprint_is_the_sha256_in_hex() {
    assert_eq!(
        compute_ca_fingerprint(Some(b"abc")).as_deref(),
        Some("ba7816bf8f01cfea414140de5dae2223b00361a396177a9cb410ff61f20015ad")
    );
    let m = HealthMeta::build(
        "1",
        "h".to_string(),
        None,
        true,
        853,
        8765,
        true,
        true,
        true,
        true,
        true,
        7,
    );
    assert_eq!(m.features, vec!["doh", "dot", "recursive", "blocking", "mdns", "dnssec"]);
}

#[test]
fn health_returns_ok() {
    assert_eq!(HealthResponse::build(&meta(false, None, &[]), None, 60).status, "ok");
}

#[test]
fn requests_are_routed_to_services() {
    let mut ctx = test_ctx();
    ctx.services.insert("app", 3000, None);
    ctx.services.add_route("app", "/api".to_string(), 4000, true);
    ctx.services.insert("nas", 80, Some("10.0.0.9".to_string()));
    let go = |ctx: &ServerCtx, host, path, query, peer| proxy_handler(ctx, host, path, query, peer);
    let forwarded = |s| match s {
        ProxyStep::Forward(uri) => uri,
        other => panic!("{other:?}"),
    };
    assert_eq!(
        forwarded(go(&ctx, Some("App.numa:80"), "/api/x", Some("a=1"), None)),
        "http://localhost:4000/x?a=1"
    );
    assert_eq!(
        forwarded(go(&ctx, Some("nas.numa"), "/", None, None)),
        "http://10.0.0.9:80/"
    );
    assert_eq!(
        forwarded(go(&ctx, Some("kiosk.numa"), "/p", None, Some(("10.0.0.5", 8080)))),
        "http://10.0.0.5:8080/p"
    );
    match go(&ctx, Some("ghost.numa"), "/", None, None) {
        ProxyStep::Page(404, page) => {
            assert!(page.contains("<title>404 \u{2014} ghost.numa \u{2014} Numa</title>"));
            assert!(page.contains("{\"name\":\"ghost\",\"target_port\":3000}"));
        }
        other => panic!("{other:?}"),
    }
    match go(&ctx, Some("example.com"), "/", None, None) {
        ProxyStep::Text(502, t) => assert_eq!(t, "not a .numa domain: example.com"),
        other => panic!("{other:?}"),
    }
    assert!(matches!(go(&ctx, None, "/", None, None), ProxyStep::Text(400, _)));
    let mut domains = NameSet::new();
    domains.insert("ads.example".to_string());
    ctx.blocklist.swap_domains(domains);
    match go(&ctx, Some("ads.example"), "/", None, None) {
        ProxyStep::Page(403, page) => {
            assert!(page.contains("<div class=\"domain\">ads.example</div>"));
            assert!(page.contains("{\"domain\":\"ads.example\"}"));
            assert!(page.contains("  font-family: system-ui"));
        }
        other => panic!("{other:?}"),
    }
    assert_eq!(extract_host(Some("A.B:1")).as_deref(), Some("a.b"));
}

/// The plain proxy: outside `allow_from` -> 403, inside -> pass, loopback exempt.
#[test]
fn proxy_allow_from_guard_gates_by_peer_ip() {
    let mut ctx = test_ctx();
    ctx.allow_from = AllowFromAcl::from_entries(&vec!["10.0.0.0/8".to_string()]).unwrap();
    for (peer, want) in
        [("10.1.2.3", Ok(())), ("192.0.2.1", Err(403)), ("127.0.0.1", Ok(()))]
    {
        assert_eq!(allow_from_guard(&ctx, parse_ip(peer).unwrap()), want, "peer {peer}");
    }
}

#[test]
fn upstreams_are_chosen_by_mode() {
    let mut c = Config::default().upstream;
    let none = None;
    let dhcp = Some("10.0.0.1".to_string());
    let system = Some("192.168.1.1".to_string());
    let label = |c: &numa::config::UpstreamConfig, s: &Option<String>, n: &Option<String>, p| {
        let u = resolve_upstream_pool(c, s, n, p).ok().unwrap();
        (u.mode, u.auto, u.label)
    };
    assert_eq!(
        label(&c, &none, &none, false),
        (UpstreamMode::Forward, true, "https://9.9.9.9/dns-query".to_string())
    );
    assert_eq!(label(&c, &none, &dhcp, false).2, "10.0.0.1:53 (+1 more)");
    assert_eq!(label(&c, &system, &dhcp, false).2, "192.168.1.1:53 (+1 more)");
    c.address = vec!["1.1.1.1".to_string(), "tls://9.9.9.9".to_string()];
    c.fallback = vec!["tcp://1.1.1.1".to_string()];
    assert!(!label(&c, &system, &none, false).1);
    c.mode = UpstreamMode::Auto;
    assert_eq!(label(&c, &none, &none, true).0, UpstreamMode::Recursive);
    assert_eq!(
        label(&c, &none, &none, false),
        (UpstreamMode::Forward, false, "https://9.9.9.9/dns-query".to_string())
    );
    c.mode = UpstreamMode::Recursive;
    assert_eq!(label(&c, &none, &none, false).2, "recursive (root hints)");
    c.mode = UpstreamMode::Odoh;
    assert!(resolve_upstream_pool(&c, &none, &none, false).is_err());
    c.relay = Some("https://relay.example.org/relay".to_string());
    c.target = Some("https://odoh.example.net/dns-query".to_string());
    let u = resolve_upstream_pool(&c, &none, &none, false).ok().unwrap();
    assert_eq!(u.mode, UpstreamMode::Odoh);
    assert!(u.pool.fallback.is_empty(), "a strict relay has no fallback");
}

#[test]
fn start_errors_are_told_apart() {
    let fault = |config: &Config| build_ctx(config, found(), &kept(), 0).err().unwrap();
    let mut c = Config::default();
    c.zones = vec![ZoneRecord {
        domain: "*".to_string(),
        record_type: "A".to_string(),
        value: "1.2.3.4".to_string(),
        ttl: 1,
    }];
    assert!(matches!(fault(&c), StartError::Zones(_)));
    c.server.bind_addr = vec![];
    assert!(matches!(fault(&c), StartError::NoBindAddr));
    c.server.rebind_private_ranges = vec!["x".to_string()];
    match fault(&c) {
        StartError::Rebind(m) => assert!(m.starts_with("invalid [server] rebind config: ")),
        other => panic!("{other:?}"),
    }
    c.client_policy = vec![ClientPolicyConfig::default()];
    match fault(&c) {
        StartError::ClientPolicy(m) => assert!(m.starts_with("invalid [[client_policy]]: ")),
        other => panic!("{other:?}"),
    }
    c.server.allow_from = vec!["x".to_string()];
    match fault(&c) {
        StartError::AllowFrom(m) => assert_eq!(
            m,
            "invalid [server].allow_from: invalid CIDR or IP in allow_from: \"x\""
        ),
        other => panic!("{other:?}"),
    }
    c.forwarding = vec![ForwardingRuleConfig { suffix: vec!["a".to_string()], upstream: vec![] }];
    assert!(matches!(fault(&c), StartError::Forwarding(_)));
    c.upstream.address = vec!["not an address".to_string()];
    assert!(matches!(fault(&c), StartError::Upstream(_)));
}

#[test]
fn server_starts_as_configured() {
    let mut c = Config::default();
    c.services = vec![ServiceConfig {
        name: "App".to_string(),
        target_port: 3000,
        target_host: None,
        routes: vec![],
    }];
    c.proxy.tld = "home".to_string();
    c.blocking.enabled = false;
    let mut k = kept();
    k.services = vec![
        ServiceEntry {
            name: "app".to_string(),
            target_port: 1,
            target_host: None,
            routes: vec![],
        },
        ServiceEntry {
            name: "kept".to_string(),
            target_port: 2,
            target_host: None,
            routes: vec![],
        },
    ];
    k.blocking_block = vec!["bad.example".to_string()];
    let (ctx, label) = build_ctx(&c, found(), &k, 9).ok().unwrap();
    assert_eq!(label, "https://9.9.9.9/dns-query");
    assert_eq!(ctx.proxy_tld_suffix, ".home");
    assert_eq!(ctx.services.lookup("app").unwrap().target_port, 3000);
    assert_eq!(ctx.services.lookup("kept").unwrap().target_port, 2);
    assert_eq!(ctx.services.lookup("numa").unwrap().target_port, c.server.api_port);
    assert!(!ctx.blocklist.is_blocked("bad.example"), "blocking is off");
    assert_eq!(ctx.stats.started_at, 9);
}

#[test]
fn bind_udp_listeners_rejects_empty() {
    let err = check_bind_addrs(&vec![]).unwrap_err();
    assert!(err.contains("bind_addr is empty"));
    assert!(check_bind_addrs(&vec!["x".to_string()]).is_ok());
}

#[test]
fn background_services_follow_the_configuration() {
    let mut c = Config::default();
    c.proxy.enabled = true;
    c.proxy.tls_port = 443;
    c.proxy.bind_addr = "not an address".to_string();
    c.blocking.enabled = true;
    c.blocking.lists = vec!["https://lists.example/x".to_string()];
    c.blocking.refresh_hours = 2;
    let p = background_services(&c, UpstreamMode::Recursive, false).unwrap();
    assert_eq!(p.blocklists, Some(7200));
    assert!(p.prime);
    assert_eq!(p.proxy_bind, Ipv4Addr::new(127, 0, 0, 1));
    assert_eq!(p.proxy, Some(c.proxy.port));
    assert_eq!(p.proxy_tls, None);
    let p = background_services(&c, UpstreamMode::Forward, true).unwrap();
    assert_eq!(p.proxy_tls, Some(443));
    assert!(!p.prime);
    c.server.api_bind_addr = "nowhere".to_string();
    assert!(background_services(&c, UpstreamMode::Forward, true).is_none());
}

#[test]
fn network_changes_are_followed() {
    let mut ctx = test_ctx();
    assert!(ctx.upstream_auto);
    let ip = Ipv4Addr::new(10, 0, 0, 2);
    let s = network_watch(&mut ctx, 1, Some(ip));
    assert!(s.ip_changed && s.redetect && !s.probe_udp);
    assert_eq!(ctx.lan_ip, ip);
    let s = network_watch(&mut ctx, 2, Some(ip));
    assert!(!s.ip_changed && !s.redetect);
    let s = network_watch(&mut ctx, 60, None);
    assert!(s.redetect && s.probe_udp);
    assert!(flushes_peers(s, true) && !flushes_peers(s, false));
    assert!(upstream_detected(&mut ctx, None, Some("10.0.0.1".to_string())));
    assert!(!upstream_detected(&mut ctx, Some("10.0.0.1".to_string()), None));
    assert!(upstream_detected(&mut ctx, None, None));
    assert_eq!(ctx.upstream_pool.label(), "9.9.9.9:53");
}

#[test]
fn datagrams_are_taken_or_dropped() {
    let mut ctx = test_ctx();
    ctx.allow_from = AllowFromAcl::from_entries(&vec!["10.0.0.0/8".to_string()]).unwrap();
    let mut buf = *b"hello";
    let inside = parse_socket_addr("10.0.0.1:5").unwrap();
    let outside = parse_socket_addr("192.0.2.1:5").unwrap();
    assert_eq!(take_datagram(&mut ctx, &mut buf, 5, inside, None), Some((inside, 5)));
    assert_eq!(take_datagram(&mut ctx, &mut buf, 5, outside, None), None);

    // A front-end that asks for itself is not held to the list of clients.
    let pp = PpConfig {
        from: vec![numa::net::IpNet::host(outside.ip)],
        header_timeout: 1,
    };
    let mut buf = *b"\r\n\r\n\x00\r\nQUIT\n\x20\x00\x00\x00dns";
    assert_eq!(take_datagram(&mut ctx, &mut buf, 19, outside, Some(&pp)), Some((outside, 3)));
    assert_eq!(&buf[..3], b"dns");
    assert_eq!(ctx.stats.proxy_v2_local_command, 1);
    assert!(matches!(outside.ip, IpAddr::V4(_)));
}

#[test]
fn banner_is_framed() {
    let mut c = Config::default();
    c.server.bind_addr = vec!["0.0.0.0:53".to_string()];
    c.proxy.bind_addr = "0.0.0.0".to_string();
    let info = BannerInfo {
        version: "1.0",
        api_url: "http://localhost:5380",
        upstream_label: "9.9.9.9:53",
        upstream_mode: UpstreamMode::Forward,
        zone_count: 2,
        doh_enabled: false,
        rule_count: 1,
        config_found: false,
        config_path: "numa.toml",
        data_dir: "/var/lib/numa",
        services_path: "/x/services.json",
    };
    let text = print_banner(&c, &info);
    let plain: String = {
        let mut out = String::new();
        let mut skip = false;
        for ch in text.chars() {
            if ch == '\u{1b}' {
                skip = true;
            } else if skip {
                skip = ch != 'm';
            } else {
                out.push(ch);
            }
        }
        out
    };
    let lines: Vec<&str> = plain.lines().filter(|l| !l.is_empty()).collect();
    let width = lines[0].chars().count();
    assert!(lines.iter().all(|l| l.chars().count() == width), "{plain}");
    assert!(plain.contains("\u{2551} NUMA  DNS that governs itself  v1.0"));
    assert!(plain.contains("  Zones     2 records"));
    assert!(plain.contains("  Routing   1 conditional rules"));
    assert!(plain.contains("  Config    numa.toml (defaults)"));
    assert!(!plain.contains("DoH"));
}

#[test]
fn exceptions_to_blocking_come_and_go() {
    let mut ctx = test_ctx();
    load_blocklists(&mut ctx, &vec!["ads.example\n".to_string()]);
    assert!(ctx.blocklist.is_blocked("ads.example"));
    assert!(ctx.blocklist.add_to_allowlist("Ads.example."));
    assert!(!ctx.blocklist.add_to_allowlist("ads.example"));
    assert!(!ctx.blocklist.is_blocked("ads.example"));
    assert_eq!(ctx.blocklist.allowlist(), vec!["ads.example"]);
    assert_eq!(removal_status(ctx.blocklist.remove_from_allowlist("ads.example")), 204);
    assert_eq!(removal_status(ctx.blocklist.remove_from_allowlist("ads.example")), 404);
}
