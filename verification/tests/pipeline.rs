//! The way of a query through the server.
use numa::chase::{Answer, Resolution};
use numa::client_policy::{ClientPolicyConfig, ClientPolicySet};
use numa::config::{Config, UpstreamMode};
use numa::ctx::{parse_reply, refresh_entry, resolve_local, Findings, Refresh, ServerCtx};
use numa::dnssec::DnssecStatus;
use numa::domain_list::PersistedDomainList;
use numa::forward::{Upstream, UpstreamPool};
use numa::header::ResultCode;
use numa::inflight::{acquire_inflight, follower_outcome, leader_outcome, Disposition};
use numa::name_set::NameSet;
use numa::net::{parse_ip, parse_ipv4, parse_ipv6, parse_socket_addr, IpAddr, Ipv4Addr, Ipv6Addr};
use numa::packet::{DnsPacket, EdnsOpt};
use numa::question::{DnsQuestion, QueryType};
use numa::question_set::QuestionSet;
use numa::rebind::RebindFilter;
use numa::record::DnsRecord;
use numa::resolve::{resolve_query, resolve_remote, CacheHit, Plan, Progress, RemoteStep};
use numa::serve::{build_ctx, Discovered, Kept};
use numa::shape::{serialize_with_fallback, shape_response_for_client, to_wire};
use numa::special_use::{answer_record, is_special_use_domain};
use numa::stats::{QueryPath, Transport, UpstreamTransport};
use numa::system_dns::ForwardingRule;
use numa::zone::{build_zone_map, ZoneMap, ZoneRecord};

fn test_ctx() -> ServerCtx {
    let mut config = Config::default();
    config.dnssec.enabled = false;
    config.upstream.address = vec!["192.0.2.53".to_string()];
    let found = Discovered {
        default_upstream: None,
        network_upstream: None,
        rules: vec![],
        probe_ok: false,
        lan_ip: None,
    };
    let kept = Kept {
        blocking_allow: vec![],
        blocking_block: vec![],
        rebind_allow: vec![],
        services: vec![],
    };
    build_ctx(&config, found, &kept, 0).ok().unwrap().0
}

/// What the rest of the server has to say while a query is resolved.
struct World {
    overrides: Vec<(String, DnsRecord)>,
    peers: Vec<(String, IpAddr)>,
    cached: Vec<(String, DnsPacket, DnssecStatus, bool)>,
    upstream: Vec<(String, Result<DnsPacket, String>)>,
    status: DnssecStatus,
}

fn world() -> World {
    World {
        overrides: vec![],
        peers: vec![],
        cached: vec![],
        upstream: vec![],
        status: DnssecStatus::Indeterminate,
    }
}

/// A message as it arrives after it was sent.
fn over_the_wire(p: &DnsPacket) -> Result<DnsPacket, String> {
    let buf = to_wire(p).map_err(|e| format!("{e:?}"))?;
    parse_reply(buf.filled()).map_err(|e| format!("{e:?}"))
}

impl World {
    fn findings(&self, name: &str) -> Findings {
        Findings {
            override_record: self
                .overrides
                .iter()
                .find(|(n, _)| n == name)
                .map(|(_, r)| r.clone()),
            peer: self
                .peers
                .iter()
                .find(|(n, _)| Some(n.as_str()) == name.strip_suffix(".numa"))
                .map(|(_, ip)| *ip),
            egress: None,
        }
    }

    fn remote(&self, ctx: &mut ServerCtx, query: &DnsPacket, name: &str, qtype: QueryType) -> Answer {
        let hit = self.cached.iter().find(|(n, ..)| n == name).map(|(_, p, status, old)| CacheHit {
            response: p.clone(),
            status: *status,
            needs_refresh: *old,
        });
        match resolve_remote(ctx, query, name, qtype, hit) {
            RemoteStep::Cached(a, _) => a,
            RemoteStep::Lead(plan) => {
                assert!(ctx.inflight.contains(name, qtype));
                let found = match self.upstream.iter().find(|(n, _)| n == name) {
                    Some((_, Ok(p))) => over_the_wire(p),
                    Some((_, Err(e))) => Err(e.clone()),
                    None => Err("unreachable".to_string()),
                };
                plan.led(ctx, query, name, qtype, found).0
            }
            RemoteStep::Wait(plan) => plan.waited(query, None),
        }
    }
}

fn run_from(
    ctx: &mut ServerCtx,
    world: &World,
    src: &str,
    query: DnsPacket,
) -> (DnsPacket, QueryPath) {
    let src = parse_socket_addr(src).unwrap();
    let opening = resolve_query(query).unwrap();
    let found = world.findings(&opening.qname);
    let mut progress = opening.looked_up(src, ctx, &found);
    let done: Resolution = loop {
        progress = match progress {
            Progress::AskFirst(o) => {
                let a = world.remote(ctx, &o.query, &o.qname, o.qtype);
                o.answered(a, ctx)
            }
            Progress::Lookup(r, name) => {
                let found = world.findings(&name);
                r.looked_up(src, ctx, &found)
            }
            Progress::Ask(r) => {
                let name = r.current.clone();
                let sub = r.sub_query(&name);
                let a = world.remote(ctx, &sub, &name, r.qtype);
                r.answered(a, ctx)
            }
            Progress::Validate(r) => {
                let mut r = r;
                r.validated(world.status, ctx.dnssec_strict);
                Progress::Finish(r)
            }
            Progress::Finish(r) => break r,
        };
    };
    let reply = done.finish(ctx, src, Transport::Udp, 1, 2, 3).unwrap();
    let resp = parse_reply(reply.buffer.filled()).unwrap();
    (resp, reply.path)
}

fn run_query(ctx: &mut ServerCtx, world: &World, query: DnsPacket) -> (DnsPacket, QueryPath) {
    run_from(ctx, world, "127.0.0.1:1234", query)
}

fn resolve(ctx: &mut ServerCtx, domain: &str, qtype: QueryType) -> (DnsPacket, QueryPath) {
    run_query(ctx, &world(), DnsPacket::query(0xBEEF, domain, qtype))
}

fn a_record(domain: &str, addr: Ipv4Addr, ttl: u32) -> DnsRecord {
    DnsRecord::A { domain: domain.to_string(), addr, ttl }
}

fn cname_record(domain: &str, host: &str, ttl: u32) -> DnsRecord {
    DnsRecord::CNAME { domain: domain.to_string(), host: host.to_string(), ttl }
}

fn a_record_response(domain: &str, addr: Ipv4Addr, ttl: u32) -> DnsPacket {
    let mut p = DnsPacket::new();
    p.header.response = true;
    p.header.rescode = ResultCode::NOERROR;
    p.questions.push(DnsQuestion::new(domain.to_string(), QueryType::A));
    p.answers.push(a_record(domain, addr, ttl));
    p
}

fn pool(addr: &str) -> UpstreamPool {
    UpstreamPool::new(vec![Upstream::Udp(parse_socket_addr(addr).unwrap())], vec![])
}

fn rule(suffix: &str) -> ForwardingRule {
    ForwardingRule::new(suffix.to_string(), pool("192.0.2.1:53"))
}

fn block(ctx: &mut ServerCtx, domain: &str) {
    let mut domains = NameSet::new();
    domains.insert(domain.to_string());
    ctx.blocklist.swap_domains(domains);
}

fn rebind_on() -> RebindFilter {
    RebindFilter::new(true, PersistedDomainList::unpersisted(), &vec![]).unwrap()
}

const LOCALHOST: Ipv4Addr = Ipv4Addr { bits: 0x7f00_0001 };
const UNSPECIFIED: Ipv4Addr = Ipv4Addr { bits: 0 };

fn addr_of(resp: &DnsPacket) -> Ipv4Addr {
    match &resp.answers[0] {
        DnsRecord::A { addr, .. } => *addr,
        other => panic!("expected A record, got {other:?}"),
    }
}

// Questions that are being resolved.

#[test]
fn inflight_guard_removes_key_on_drop() {
    let mut map = QuestionSet::new();
    acquire_inflight(&mut map, "example.com", QueryType::A);
    assert_eq!(map.len(), 1);
    map.remove("example.com", QueryType::A);
    assert!(map.is_empty());
}

#[test]
fn inflight_guard_only_removes_own_key() {
    let mut map = QuestionSet::new();
    map.insert("a.com", QueryType::A);
    map.insert("b.com", QueryType::A);
    map.remove("a.com", QueryType::A);
    assert_eq!(map.len(), 1);
    assert!(map.contains("b.com", QueryType::A));
}

#[test]
fn inflight_guard_same_domain_different_qtype_independent() {
    let mut map = QuestionSet::new();
    map.insert("example.com", QueryType::A);
    map.insert("example.com", QueryType::AAAA);
    map.remove("example.com", QueryType::A);
    assert_eq!(map.len(), 1);
    assert!(map.contains("example.com", QueryType::AAAA));
}

#[test]
fn first_caller_becomes_leader() {
    let mut map = QuestionSet::new();
    let d = acquire_inflight(&mut map, "test.com", QueryType::A);
    assert_eq!(d, Disposition::Leader);
    assert_eq!(map.len(), 1);
}

#[test]
fn second_caller_becomes_follower() {
    let mut map = QuestionSet::new();
    assert_eq!(acquire_inflight(&mut map, "test.com", QueryType::A), Disposition::Leader);
    assert_eq!(acquire_inflight(&mut map, "test.com", QueryType::A), Disposition::Follower);
    // Map still has exactly 1 entry: the follower did not add one.
    assert_eq!(map.len(), 1);
}

fn recursive_ctx() -> ServerCtx {
    let mut ctx = test_ctx();
    ctx.upstream_mode = UpstreamMode::Recursive;
    ctx
}

fn mock_response(domain: &str) -> DnsPacket {
    let mut resp = DnsPacket::new();
    resp.header.response = true;
    resp.header.rescode = ResultCode::NOERROR;
    resp.answers.push(a_record(domain, Ipv4Addr::new(10, 0, 0, 1), 300));
    resp
}

/// What comes of queries that arrive while the first is being resolved, and how
/// many of them were asked for elsewhere.
fn resolve_together(
    ctx: &mut ServerCtx,
    queries: &[DnsPacket],
    found: Result<DnsPacket, String>,
) -> (Vec<(Answer, Option<String>)>, usize) {
    let steps: Vec<RemoteStep> = queries
        .iter()
        .map(|q| {
            let asked = &q.questions[0];
            resolve_remote(ctx, q, &asked.name, asked.qtype, None)
        })
        .collect();
    let mut asked_elsewhere = 0;
    let mut out = Vec::new();
    for (q, step) in queries.iter().zip(steps) {
        let asked = &q.questions[0];
        out.push(match step {
            RemoteStep::Lead(plan) => {
                asked_elsewhere += 1;
                plan.led(ctx, q, &asked.name, asked.qtype, found.clone())
            }
            RemoteStep::Wait(plan) => (plan.waited(q, found.clone().ok()), None),
            RemoteStep::Cached(..) => panic!("nothing is cached"),
        });
    }
    (out, asked_elsewhere)
}

#[test]
fn leader_broadcast_reaches_follower() {
    let mut resp = DnsPacket::new();
    resp.header.id = 42;
    resp.answers.push(a_record("test.com", Ipv4Addr::new(1, 2, 3, 4), 300));
    let queries = [
        DnsPacket::query(42, "test.com", QueryType::A),
        DnsPacket::query(42, "test.com", QueryType::A),
    ];
    let mut ctx = recursive_ctx();
    let (out, _) = resolve_together(&mut ctx, &queries, Ok(resp));
    let received = &out[1].0.response;
    assert_eq!(received.header.id, 42);
    assert_eq!(received.answers.len(), 1);
}

#[test]
fn multiple_followers_all_receive_via_acquire() {
    let mut resp = DnsPacket::new();
    resp.answers.push(a_record("multi.com", Ipv4Addr::new(10, 0, 0, 1), 60));
    let queries: Vec<DnsPacket> =
        (0..4).map(|i| DnsPacket::query(i, "multi.com", QueryType::A)).collect();
    let mut ctx = recursive_ctx();
    let (out, _) = resolve_together(&mut ctx, &queries, Ok(resp));
    for (a, _) in &out[1..] {
        assert_eq!(a.path, QueryPath::Coalesced);
        assert_eq!(a.response.answers.len(), 1);
    }
}

#[test]
fn concurrent_queries_coalesce_to_single_resolution() {
    let queries: Vec<DnsPacket> =
        (0..5).map(|i| DnsPacket::query(100 + i, "coalesce.test", QueryType::A)).collect();
    let mut ctx = recursive_ctx();
    let (out, actual) =
        resolve_together(&mut ctx, &queries, Ok(mock_response("coalesce.test")));
    assert_eq!(actual, 1, "expected 1 resolution, got {}", actual);

    let recursive = out.iter().filter(|(a, _)| a.path == QueryPath::Recursive).count();
    let coalesced = out.iter().filter(|(a, _)| a.path == QueryPath::Coalesced).count();
    assert_eq!(recursive, 1, "expected 1 RECURSIVE, got {}", recursive);
    assert_eq!(coalesced, 4, "expected 4 COALESCED, got {}", coalesced);

    assert!(ctx.inflight.is_empty());
}

#[test]
fn different_qtypes_not_coalesced() {
    let query_a = DnsPacket::query(200, "same.domain", QueryType::A);
    let query_aaaa = DnsPacket::query(201, "same.domain", QueryType::AAAA);
    let mut ctx = recursive_ctx();
    let (out, actual) =
        resolve_together(&mut ctx, &[query_a, query_aaaa], Ok(mock_response("same.domain")));

    assert_eq!(actual, 2, "A and AAAA should each resolve, got {}", actual);
    assert_eq!(out[0].0.path, QueryPath::Recursive);
    assert_eq!(out[1].0.path, QueryPath::Recursive);

    assert!(ctx.inflight.is_empty());
}

#[test]
fn inflight_map_cleaned_after_error() {
    let query = DnsPacket::query(300, "will-fail.test", QueryType::A);
    let mut ctx = recursive_ctx();
    let (out, _) = resolve_together(&mut ctx, &[query], Err("upstream timeout".to_string()));
    assert_eq!(out[0].0.path, QueryPath::UpstreamError);
    assert!(ctx.inflight.is_empty());
}

#[test]
fn follower_gets_servfail_when_leader_fails() {
    let queries: Vec<DnsPacket> =
        (0..3).map(|i| DnsPacket::query(400 + i, "fail.test", QueryType::A)).collect();
    let mut ctx = recursive_ctx();
    let (out, _) = resolve_together(&mut ctx, &queries, Err("upstream error".to_string()));

    let mut paths = Vec::new();
    for (a, _) in &out {
        assert_eq!(a.response.header.rescode, ResultCode::SERVFAIL);
        assert_eq!(a.response.questions.len(), 1, "SERVFAIL must echo question section");
        assert_eq!(a.response.questions[0].name, "fail.test");
        paths.push(a.path);
    }

    let errors = paths.iter().filter(|p| **p == QueryPath::UpstreamError).count();
    assert_eq!(errors, 3, "all 3 should be UpstreamError, got {}", errors);

    assert!(ctx.inflight.is_empty());
}

#[test]
fn servfail_leader_includes_question_section() {
    let query = DnsPacket::query(500, "question.test", QueryType::A);
    let mut ctx = recursive_ctx();
    let (out, _) = resolve_together(&mut ctx, &[query], Err("fail".to_string()));
    let resp = &out[0].0.response;

    assert_eq!(resp.header.rescode, ResultCode::SERVFAIL);
    assert_eq!(resp.questions.len(), 1, "SERVFAIL must echo question section");
    assert_eq!(resp.questions[0].name, "question.test");
    assert_eq!(resp.questions[0].qtype, QueryType::A);
    assert_eq!(resp.header.id, 500);
}

#[test]
fn leader_error_preserves_message() {
    let query = DnsPacket::query(700, "err-msg.test", QueryType::A);
    let c = leader_outcome(
        &query,
        QueryPath::Recursive,
        Err("connection refused by upstream".to_string()),
    );
    assert_eq!(c.path, QueryPath::UpstreamError);
    assert_eq!(
        c.error.as_deref(),
        Some("connection refused by upstream"),
        "error message must be preserved for logging"
    );
    let mut ctx = recursive_ctx();
    let (out, _) = resolve_together(
        &mut ctx,
        &[query],
        Err("connection refused by upstream".to_string()),
    );
    assert_eq!(out[0].0.path, QueryPath::UpstreamError);
    assert_eq!(out[0].1.as_deref(), Some("connection refused by upstream"));
}

#[test]
fn follower_answers_under_its_own_id() {
    let query = DnsPacket::query(0x55, "a.test", QueryType::A);
    let shared = a_record_response("a.test", Ipv4Addr::new(1, 2, 3, 4), 60);
    let c = follower_outcome(&query, Some(shared));
    assert_eq!(c.path, QueryPath::Coalesced);
    assert_eq!(c.response.header.id, 0x55);
    assert_eq!(c.response.answers.len(), 1);
}

#[test]
fn waiting_question_is_not_tagged() {
    let mut ctx = test_ctx();
    let query = DnsPacket::query(0xBEEF, "a.test", QueryType::A);
    let lead = resolve_remote(&mut ctx, &query, "a.test", QueryType::A, None);
    assert!(matches!(lead, RemoteStep::Lead(Plan::Upstream(_))));
    match resolve_remote(&mut ctx, &query, "a.test", QueryType::A, None) {
        RemoteStep::Wait(plan) => {
            let shared = a_record_response("a.test", Ipv4Addr::new(1, 2, 3, 4), 60);
            let a = plan.waited(&query, Some(shared));
            assert_eq!(a.path, QueryPath::Coalesced);
            assert_eq!(a.upstream, None);
        }
        _ => panic!("expected to wait"),
    }
}

// Names that are answered here.

#[test]
fn special_use_private_ptr_returns_nxdomain() {
    let mut ctx = test_ctx();
    let (resp, path) = resolve(&mut ctx, "153.188.168.192.in-addr.arpa", QueryType::PTR);
    assert_eq!(path, QueryPath::Local);
    assert_eq!(resp.header.rescode, ResultCode::NXDOMAIN);
}

#[test]
fn special_use_names_are_told_from_others() {
    for name in [
        "1.0.0.10.in-addr.arpa",
        "1.2.16.172.in-addr.arpa",
        "1.2.31.172.in-addr.arpa",
        "1.0.0.127.in-addr.arpa",
        "b._dns-sd._udp.1.8.8.8.in-addr.arpa",
        "_dns.resolver.arpa",
        "x._dns.resolver.arpa",
        "ipv4only.arpa",
        "local",
        "printer.local",
    ] {
        assert!(is_special_use_domain(name), "{name}");
    }
    for name in [
        "8.8.8.8.in-addr.arpa",
        "1.2.32.172.in-addr.arpa",
        "1.2.x.172.in-addr.arpa",
        "example.com",
        "mylocal",
    ] {
        assert!(!is_special_use_domain(name), "{name}");
    }
}

#[test]
fn nat64_discovery_is_answered() {
    let mut ctx = test_ctx();
    let (resp, _) = resolve(&mut ctx, "ipv4only.arpa", QueryType::A);
    assert_eq!(resp.answers.len(), 2);
    assert_eq!(addr_of(&resp), Ipv4Addr::new(192, 0, 0, 170));
    let (resp, _) = resolve(&mut ctx, "ipv4only.arpa", QueryType::AAAA);
    assert!(matches!(&resp.answers[0], DnsRecord::AAAA { addr, ttl: 300, .. }
        if *addr == parse_ipv6("64:ff9b::c000:aa").unwrap()));
}

#[test]
fn forwarding_rule_overrides_special_use_domain() {
    let mut reply = DnsPacket::new();
    reply.header.response = true;
    reply.header.rescode = ResultCode::NOERROR;
    let mut ctx = test_ctx();
    ctx.forwarding_rules = vec![rule("168.192.in-addr.arpa")];
    let name = "153.188.168.192.in-addr.arpa";
    let w = World { upstream: vec![(name.to_string(), Ok(reply))], ..world() };

    let (resp, path) = run_query(&mut ctx, &w, DnsPacket::query(0xBEEF, name, QueryType::PTR));
    assert_eq!(
        path,
        QueryPath::Forwarded,
        "forwarding rule must take precedence over special-use NXDOMAIN"
    );
    assert_eq!(resp.header.rescode, ResultCode::NOERROR);
}

#[test]
fn pipeline_rebind_strips_private_from_forwarded() {
    let reply = a_record_response("intranet.evil.test", Ipv4Addr::new(192, 168, 1, 1), 60);
    let mut ctx = test_ctx();
    ctx.rebind = rebind_on();
    ctx.forwarding_rules = vec![rule("evil.test")];
    let w = World { upstream: vec![("intranet.evil.test".to_string(), Ok(reply))], ..world() };

    let query = DnsPacket::query(0xBEEF, "intranet.evil.test", QueryType::A);
    let (resp, path) = run_query(&mut ctx, &w, query);
    assert_eq!(path, QueryPath::Forwarded);
    assert_eq!(
        resp.header.rescode,
        ResultCode::NOERROR,
        "all-stripped is NODATA, not NXDOMAIN"
    );
    assert!(resp.answers.is_empty(), "private answer must be stripped");
    assert_eq!(ctx.stats.rebind_stripped, 1);
    assert!(ctx.query_log.entries[0].rebind_stripped);
}

#[test]
fn pipeline_rebind_leaves_local_override_untouched() {
    let mut ctx = test_ctx();
    ctx.rebind = rebind_on();
    let record = a_record("nas.local", Ipv4Addr::new(192, 168, 1, 50), 60);
    let w = World { overrides: vec![("nas.local".to_string(), record)], ..world() };
    let query = DnsPacket::query(0xBEEF, "nas.local", QueryType::A);
    let (resp, path) = run_query(&mut ctx, &w, query);
    assert_eq!(path, QueryPath::Overridden, "local path is exempt by gating");
    assert_eq!(resp.answers.len(), 1, "override's private IP must not be stripped");
}

#[test]
fn pipeline_rebind_leaves_blocklist_sinkhole_untouched() {
    // The Blocked path returns 0.0.0.0, which is in the default rebind ranges,
    // so it must be exempt, or rebind protection would eat ad-blocking.
    let mut ctx = test_ctx();
    ctx.rebind = rebind_on();
    block(&mut ctx, "ads.tracker.test");
    let (resp, path) = resolve(&mut ctx, "ads.tracker.test", QueryType::A);
    assert_eq!(path, QueryPath::Blocked);
    assert_eq!(resp.answers.len(), 1, "sinkhole answer must survive rebind");
    assert_eq!(addr_of(&resp), UNSPECIFIED);
}

#[test]
fn pipeline_override_takes_precedence() {
    let mut ctx = test_ctx();
    let record = a_record("override.test", Ipv4Addr::new(1, 2, 3, 4), 60);
    let w = World { overrides: vec![("override.test".to_string(), record)], ..world() };
    let query = DnsPacket::query(0xBEEF, "override.test", QueryType::A);
    let (resp, path) = run_query(&mut ctx, &w, query);
    assert_eq!(path, QueryPath::Overridden);
    assert_eq!(resp.header.rescode, ResultCode::NOERROR);
    assert_eq!(resp.answers.len(), 1);
}

#[test]
fn pipeline_localhost_resolves_to_loopback() {
    let mut ctx = test_ctx();
    let (resp, path) = resolve(&mut ctx, "localhost", QueryType::A);
    assert_eq!(path, QueryPath::Local);
    assert_eq!(resp.header.rescode, ResultCode::NOERROR);
    assert_eq!(addr_of(&resp), LOCALHOST);
}

#[test]
fn pipeline_localhost_subdomain_resolves_to_loopback() {
    let mut ctx = test_ctx();
    let (resp, path) = resolve(&mut ctx, "app.localhost", QueryType::A);
    assert_eq!(path, QueryPath::Local);
    assert_eq!(resp.header.rescode, ResultCode::NOERROR);
    assert_eq!(addr_of(&resp), LOCALHOST);
}

#[test]
fn pipeline_local_zone_returns_configured_record() {
    let mut ctx = test_ctx();
    ctx.zone_map =
        ZoneMap::from_exact(vec![a_record("myapp.test", Ipv4Addr::new(10, 0, 0, 42), 300)]);
    let (resp, path) = resolve(&mut ctx, "myapp.test", QueryType::A);
    assert_eq!(path, QueryPath::Local);
    assert_eq!(resp.header.rescode, ResultCode::NOERROR);
    assert_eq!(addr_of(&resp), Ipv4Addr::new(10, 0, 0, 42));
}

fn wildcard(domain: &str, value: &str) -> ZoneMap {
    build_zone_map(&vec![ZoneRecord {
        domain: domain.into(),
        record_type: "A".into(),
        value: value.into(),
        ttl: 300,
    }])
    .ok()
    .unwrap()
}

#[test]
fn pipeline_wildcard_zone_synthesizes_with_qname_owner() {
    let mut ctx = test_ctx();
    ctx.zone_map = wildcard("*.pool.ntp.org", "10.20.30.40");
    let (resp, path) = resolve(&mut ctx, "time2.pool.ntp.org", QueryType::A);
    assert_eq!(path, QueryPath::Local);
    assert_eq!(resp.header.rescode, ResultCode::NOERROR);
    match &resp.answers[0] {
        DnsRecord::A { domain, addr, .. } => {
            assert_eq!(domain, "time2.pool.ntp.org", "owner must be QNAME");
            assert_eq!(*addr, Ipv4Addr::new(10, 20, 30, 40));
        }
        other => panic!("expected A, got {other:?}"),
    }
}

#[test]
fn pipeline_wildcard_zone_nodata_does_not_fall_through() {
    let mut ctx = test_ctx();
    ctx.zone_map = wildcard("*.foo", "10.0.0.1");
    let (resp, path) = resolve(&mut ctx, "x.foo", QueryType::AAAA);
    assert_eq!(path, QueryPath::Local, "must answer locally, not upstream");
    assert_eq!(resp.header.rescode, ResultCode::NOERROR);
    assert!(resp.answers.is_empty(), "NoData must return empty answers");
}

#[test]
fn pipeline_tld_proxy_resolves_service() {
    let mut ctx = test_ctx();
    ctx.services.insert("grafana", 3000, None);
    let (resp, path) = resolve(&mut ctx, "grafana.numa", QueryType::A);
    assert_eq!(path, QueryPath::Local);
    assert_eq!(resp.header.rescode, ResultCode::NOERROR);
    assert_eq!(addr_of(&resp), LOCALHOST);
}

#[test]
fn remote_client_gets_a_reachable_proxy() {
    let mut ctx = test_ctx();
    ctx.services.insert("grafana", 3000, None);
    ctx.lan_ip = Ipv4Addr::new(192, 168, 1, 7);
    let query = DnsPacket::query(0xBEEF, "grafana.numa", QueryType::A);
    let src = parse_socket_addr("192.168.1.9:999").unwrap();
    let mut found = world().findings("grafana.numa");
    let a = resolve_local(&query, src, "grafana.numa", QueryType::A, &ctx, &found).unwrap();
    assert_eq!(addr_of(&a.response), Ipv4Addr::new(192, 168, 1, 7));
    found.egress = Some(Ipv4Addr::new(100, 64, 0, 1));
    let a = resolve_local(&query, src, "grafana.numa", QueryType::A, &ctx, &found).unwrap();
    assert_eq!(addr_of(&a.response), Ipv4Addr::new(100, 64, 0, 1));
}

/// Unknown name in the proxy TLD must NXDOMAIN, not silently return loopback.
#[test]
fn pipeline_tld_proxy_unknown_returns_nxdomain() {
    let mut ctx = test_ctx();
    for qtype in [QueryType::A, QueryType::AAAA] {
        let (resp, path) = resolve(&mut ctx, "no-such-service.numa", qtype);
        assert_eq!(path, QueryPath::Local);
        assert_eq!(resp.header.rescode, ResultCode::NXDOMAIN);
        assert!(resp.answers.is_empty());
    }
}

/// LAN peer with an IPv4 address: A -> native v4, AAAA -> v4-mapped v6.
#[test]
fn pipeline_tld_proxy_v4_peer_returns_native_a_and_mapped_aaaa() {
    let mut ctx = test_ctx();
    let w = World { peers: vec![("kiosk".to_string(), parse_ip("10.0.0.5").unwrap())], ..world() };
    let (resp_a, _) = run_query(&mut ctx, &w, DnsPacket::query(0xBEEF, "kiosk.numa", QueryType::A));
    assert_eq!(resp_a.header.rescode, ResultCode::NOERROR);
    assert_eq!(addr_of(&resp_a), Ipv4Addr::new(10, 0, 0, 5));

    let (resp, _) = run_query(&mut ctx, &w, DnsPacket::query(0xBEEF, "kiosk.numa", QueryType::AAAA));
    assert_eq!(resp.header.rescode, ResultCode::NOERROR);
    match &resp.answers[0] {
        DnsRecord::AAAA { addr, .. } => {
            assert_eq!(*addr, Ipv4Addr::new(10, 0, 0, 5).to_ipv6_mapped());
            assert_eq!(*addr, parse_ipv6("::ffff:10.0.0.5").unwrap());
        }
        other => panic!("expected AAAA record, got {other:?}"),
    }
}

/// LAN peer with only an IPv6 address: AAAA -> native v6, A -> NODATA.
#[test]
fn pipeline_tld_proxy_v6_only_peer_native_aaaa_nodata_a() {
    let v6 = parse_ipv6("2001:db8::42").unwrap();
    let mut ctx = test_ctx();
    let w = World { peers: vec![("ipv6host".to_string(), IpAddr::V6(v6))], ..world() };
    let query = DnsPacket::query(0xBEEF, "ipv6host.numa", QueryType::AAAA);
    let (resp_aaaa, _) = run_query(&mut ctx, &w, query);
    assert_eq!(resp_aaaa.header.rescode, ResultCode::NOERROR);
    match &resp_aaaa.answers[0] {
        DnsRecord::AAAA { addr, .. } => assert_eq!(*addr, v6),
        other => panic!("expected AAAA record, got {other:?}"),
    }

    let (resp_a, _) = run_query(&mut ctx, &w, DnsPacket::query(0xBEEF, "ipv6host.numa", QueryType::A));
    assert_eq!(resp_a.header.rescode, ResultCode::NOERROR);
    assert!(resp_a.answers.is_empty(), "v6-only peer + A query must be NODATA, not loopback");
}

#[test]
fn pipeline_filter_aaaa_returns_nodata() {
    let mut ctx = test_ctx();
    ctx.filter_aaaa = true;
    let (resp, path) = resolve(&mut ctx, "example.com", QueryType::AAAA);
    assert_eq!(path, QueryPath::Local);
    assert_eq!(resp.header.rescode, ResultCode::NOERROR);
    assert!(resp.answers.is_empty(), "AAAA must be filtered to NODATA");
}

#[test]
fn pipeline_filter_aaaa_leaves_a_queries_alone() {
    let mut ctx = test_ctx();
    ctx.filter_aaaa = true;
    let reply = a_record_response("example.com", Ipv4Addr::new(93, 184, 216, 34), 300);
    let w = World { upstream: vec![("example.com".to_string(), Ok(reply))], ..world() };
    let (resp, path) = run_query(&mut ctx, &w, DnsPacket::query(0xBEEF, "example.com", QueryType::A));
    assert_eq!(path, QueryPath::Upstream);
    assert_eq!(resp.answers.len(), 1);
}

#[test]
fn pipeline_filter_aaaa_respects_override() {
    let mut ctx = test_ctx();
    ctx.filter_aaaa = true;
    let record = DnsRecord::AAAA {
        domain: "v6.test".to_string(),
        addr: parse_ipv6("2001:db8::1").unwrap(),
        ttl: 60,
    };
    let w = World { overrides: vec![("v6.test".to_string(), record)], ..world() };
    let (resp, path) = run_query(&mut ctx, &w, DnsPacket::query(0xBEEF, "v6.test", QueryType::AAAA));
    assert_eq!(path, QueryPath::Overridden);
    assert_eq!(resp.answers.len(), 1, "override must win over filter");
}

fn hint_rdata(alpn: bool) -> Vec<u8> {
    let mut out = vec![0, 1, 0];
    if alpn {
        out.extend_from_slice(&[0, 1, 0, 3, 2, b'h', b'3']);
    }
    out.extend_from_slice(&[0, 6, 0, 16]);
    out.extend_from_slice(&[0x26, 0x06, 0x47, 0x00, 0, 0, 0, 0, 0, 0, 0, 0, 0, 0, 0, 0x01]);
    out
}

fn hinted(name: &str, qtype: QueryType, data: Vec<u8>) -> DnsPacket {
    let mut pkt = DnsPacket::new();
    pkt.header.response = true;
    pkt.header.rescode = ResultCode::NOERROR;
    pkt.questions.push(DnsQuestion::new(name.to_string(), qtype));
    pkt.answers.push(DnsRecord::UNKNOWN {
        domain: name.to_string(),
        qtype: qtype.to_num(),
        data,
        ttl: 300,
    });
    pkt
}

#[test]
fn pipeline_filter_aaaa_strips_ipv6hint_from_https_and_svcb() {
    let rdata = hint_rdata(true);
    let mut ctx = test_ctx();
    ctx.filter_aaaa = true;
    for (name, qtype) in [("hints.test", QueryType::HTTPS), ("svc.test", QueryType::SVCB)] {
        let pkt = hinted(name, qtype, rdata.clone());
        let hit = (name.to_string(), pkt, DnssecStatus::Indeterminate, false);
        let w = World { cached: vec![hit], ..world() };
        let (resp, path) = run_query(&mut ctx, &w, DnsPacket::query(0xBEEF, name, qtype));
        assert_eq!(path, QueryPath::Cached, "{name}");
        assert_eq!(resp.answers.len(), 1, "{name}");
        match &resp.answers[0] {
            DnsRecord::UNKNOWN { data, .. } => {
                assert!(data.len() < rdata.len(), "{name}: ipv6hint must be removed");
                assert!(
                    !data.windows(4).any(|w| w == [0, 6, 0, 16]),
                    "{name}: ipv6hint header must be absent"
                );
            }
            other => panic!("{name}: expected UNKNOWN record, got {other:?}"),
        }
    }
}

#[test]
fn pipeline_filter_aaaa_preserves_ipv6hint_for_dnssec_clients() {
    // Modifying HTTPS rdata invalidates any accompanying RRSIG, so a DO=1
    // client must receive the record untouched even when filter_aaaa is on.
    let rdata = hint_rdata(false);
    let mut ctx = test_ctx();
    ctx.filter_aaaa = true;
    let pkt = hinted("hints.test", QueryType::HTTPS, rdata.clone());
    let hit = ("hints.test".to_string(), pkt, DnssecStatus::Indeterminate, false);
    let w = World { cached: vec![hit], ..world() };
    let mut query = DnsPacket::query(0xBEEF, "hints.test", QueryType::HTTPS);
    query.edns = Some(EdnsOpt { do_bit: true, ..Default::default() });
    let (resp, _) = run_query(&mut ctx, &w, query);
    match &resp.answers[0] {
        DnsRecord::UNKNOWN { data, .. } => {
            assert_eq!(data, &rdata, "ipv6hint must be preserved for DO-bit clients");
        }
        other => panic!("expected UNKNOWN record, got {other:?}"),
    }
}

fn ctx_with_policy(from: &[&str], block: &[&str], allow: &[&str]) -> ClientPolicySet {
    ClientPolicySet::from_configs(&vec![ClientPolicyConfig {
        from: from.iter().map(|s| s.to_string()).collect(),
        block: block.iter().map(|s| s.to_string()).collect(),
        allow: allow.iter().map(|s| s.to_string()).collect(),
        ..Default::default()
    }])
    .unwrap()
}

#[test]
fn pipeline_client_policy_blocks_matching_client() {
    let mut ctx = test_ctx();
    ctx.client_policy = ctx_with_policy(&["192.168.1.50/32"], &["youtube.com"], &[]);
    let query = DnsPacket::query(0xBEEF, "m.youtube.com", QueryType::A);
    let (resp, path) = run_from(&mut ctx, &world(), "192.168.1.50:5000", query);
    assert_eq!(path, QueryPath::Blocked);
    assert_eq!(resp.header.rescode, ResultCode::NOERROR);
    assert_eq!(addr_of(&resp), UNSPECIFIED);
}

#[test]
fn pipeline_client_policy_skips_unmatched_client() {
    let mut ctx = test_ctx();
    ctx.client_policy = ctx_with_policy(&["192.168.1.50/32"], &["youtube.com"], &[]);
    ctx.forwarding_rules = vec![rule("youtube.com")];
    let reply = a_record_response("youtube.com", Ipv4Addr::new(8, 8, 8, 8), 60);
    let w = World { upstream: vec![("youtube.com".to_string(), Ok(reply))], ..world() };
    let query = DnsPacket::query(0xBEEF, "youtube.com", QueryType::A);
    let (resp, path) = run_from(&mut ctx, &w, "192.168.1.99:5000", query);
    assert_eq!(path, QueryPath::Forwarded);
    assert_eq!(addr_of(&resp), Ipv4Addr::new(8, 8, 8, 8));
}

#[test]
fn pipeline_client_policy_allow_bypasses_global_blocklist() {
    // Domain is in the global blocklist; client has an allow rule for it.
    let mut ctx = test_ctx();
    block(&mut ctx, "ads.example.com");
    ctx.client_policy = ctx_with_policy(&["192.168.1.50"], &[], &["ads.example.com"]);
    ctx.forwarding_rules = vec![rule("example.com")];
    let reply = a_record_response("ads.example.com", Ipv4Addr::new(1, 2, 3, 4), 60);
    let w = World { upstream: vec![("ads.example.com".to_string(), Ok(reply))], ..world() };
    let query = DnsPacket::query(0xBEEF, "ads.example.com", QueryType::A);
    let (resp, path) = run_from(&mut ctx, &w, "192.168.1.50:5000", query);
    assert_eq!(path, QueryPath::Forwarded);
    assert_eq!(addr_of(&resp), Ipv4Addr::new(1, 2, 3, 4));
}

#[test]
fn pipeline_client_policy_loopback_falls_through_to_global_blocklist() {
    let mut ctx = test_ctx();
    block(&mut ctx, "ads.tracker.test");
    ctx.client_policy = ctx_with_policy(&["127.0.0.0/8"], &["unrelated.test"], &[]);
    let (_, path) = resolve(&mut ctx, "ads.tracker.test", QueryType::A);
    assert_eq!(path, QueryPath::Blocked, "global blocklist still applies");
}

#[test]
fn pipeline_blocklist_sinkhole() {
    let mut ctx = test_ctx();
    block(&mut ctx, "ads.tracker.test");
    let (resp, path) = resolve(&mut ctx, "ads.tracker.test", QueryType::A);
    assert_eq!(path, QueryPath::Blocked);
    assert_eq!(resp.header.rescode, ResultCode::NOERROR);
    assert_eq!(addr_of(&resp), UNSPECIFIED);
}

#[test]
fn answer_record_picks_family_or_nodata() {
    let v4 = UNSPECIFIED;
    let v6 = Ipv6Addr { bits: 0 };

    assert!(matches!(
        answer_record("x.test", QueryType::A, Some(v4), Some(v6), 60),
        Some(DnsRecord::A { .. })
    ));
    assert!(matches!(
        answer_record("x.test", QueryType::AAAA, Some(v4), Some(v6), 60),
        Some(DnsRecord::AAAA { .. })
    ));
    // Family absent -> NODATA (v6-only peer answering an A query).
    assert!(answer_record("x.test", QueryType::A, None, Some(v6), 60).is_none());
    assert!(answer_record("x.test", QueryType::AAAA, Some(v4), None, 60).is_none());
    // Non-address qtype -> NODATA regardless of available families.
    assert!(answer_record("x.test", QueryType::HTTPS, Some(v4), Some(v6), 60).is_none());
}

#[test]
fn pipeline_blocklist_nodata_for_non_address_qtype() {
    let mut ctx = test_ctx();
    block(&mut ctx, "ads.tracker.test");
    let (a_resp, a_path) = resolve(&mut ctx, "ads.tracker.test", QueryType::A);
    assert_eq!(a_path, QueryPath::Blocked);
    assert_eq!(addr_of(&a_resp), UNSPECIFIED);

    // Blocked HTTPS -> clean NODATA (NOERROR, empty), not a qtype-mismatched A.
    let (https_resp, https_path) = resolve(&mut ctx, "ads.tracker.test", QueryType::HTTPS);
    assert_eq!(https_path, QueryPath::Blocked);
    assert_eq!(https_resp.header.rescode, ResultCode::NOERROR);
    assert!(https_resp.answers.is_empty());
}

// What is asked for elsewhere.

#[test]
fn pipeline_cache_hit() {
    let mut ctx = test_ctx();
    let pkt = a_record_response("cached.test", Ipv4Addr::new(5, 5, 5, 5), 3600);
    let hit = ("cached.test".to_string(), pkt, DnssecStatus::Secure, true);
    let w = World { cached: vec![hit], ..world() };
    let (resp, path) = run_query(&mut ctx, &w, DnsPacket::query(0xBEEF, "cached.test", QueryType::A));
    assert_eq!(path, QueryPath::Cached);
    assert_eq!(resp.header.rescode, ResultCode::NOERROR);
    assert_eq!(resp.header.id, 0xBEEF);
    assert!(resp.header.authed_data);
    assert!(ctx.refreshing.contains("cached.test", QueryType::A));
}

#[test]
fn pipeline_forwarding_returns_upstream_answer() {
    let mut ctx = test_ctx();
    ctx.forwarding_rules = vec![rule("corp")];
    let reply = a_record_response("internal.corp", Ipv4Addr::new(10, 1, 2, 3), 600);
    let w = World { upstream: vec![("internal.corp".to_string(), Ok(reply))], ..world() };
    let query = DnsPacket::query(0xBEEF, "internal.corp", QueryType::A);
    let (resp, path) = run_query(&mut ctx, &w, query);
    assert_eq!(path, QueryPath::Forwarded);
    assert_eq!(resp.header.rescode, ResultCode::NOERROR);
    assert_eq!(resp.answers.len(), 1);
    match &resp.answers[0] {
        DnsRecord::A { domain, addr, .. } => {
            assert_eq!(domain, "internal.corp");
            assert_eq!(*addr, Ipv4Addr::new(10, 1, 2, 3));
        }
        other => panic!("expected A record, got {:?}", other),
    }
    assert_eq!(ctx.stats.upstream_transport_udp, 1);
    assert_eq!(ctx.stats.queries_forwarded, 1);
}

#[test]
fn pipeline_forwarding_malformed_upstream_yields_servfail() {
    // The name of the authority record starts with a length byte whose two high
    // bits are reserved.
    let mut wire = vec![
        0x01, 0x00, 0x81, 0x80, // id, flags
        0x00, 0x01, 0x00, 0x00, 0x00, 0x01, 0x00, 0x00, // QD=1 NS=1
        0x01, b'x', 0x04, b't', b'e', b's', b't', 0x00, // qname x.test
        0x00, 0x01, 0x00, 0x01, // A IN
        0x40, // authority name length: 64 with reserved bits 01
    ];
    wire.extend(std::iter::repeat(b'a').take(64)); // 64 bytes of filler label
    wire.extend_from_slice(&[
        0x00, // name terminator
        0x00, 0x02, 0x00, 0x01, // NS IN
        0x00, 0x00, 0x0e, 0x10, // TTL 3600
        0x00, 0x02, 0xc0, 0x0c, // RDLEN=2, rdata = pointer to qname
    ]);
    let parsed = parse_reply(&wire).map_err(|e| format!("{e:?}"));
    assert!(parsed.is_err());

    let mut ctx = test_ctx();
    ctx.forwarding_rules = vec![rule("test")];
    let w = World { upstream: vec![("x.test".to_string(), parsed)], ..world() };
    let query = DnsPacket::query(0xBEEF, "x.test", QueryType::A);
    let (resp, path) = run_query(&mut ctx, &w, query);
    assert_eq!(path, QueryPath::UpstreamError);
    assert_eq!(resp.header.rescode, ResultCode::SERVFAIL);
    assert!(resp.answers.is_empty());
    assert_eq!(ctx.stats.upstream_transport_udp, 0);
}

#[test]
fn pipeline_default_pool_reports_upstream_path() {
    let mut ctx = test_ctx();
    let reply = a_record_response("example.com", Ipv4Addr::new(93, 184, 216, 34), 300);
    let w = World { upstream: vec![("example.com".to_string(), Ok(reply))], ..world() };
    let (resp, path) = run_query(&mut ctx, &w, DnsPacket::query(0xBEEF, "example.com", QueryType::A));
    assert_eq!(path, QueryPath::Upstream);
    assert_eq!(resp.header.rescode, ResultCode::NOERROR);
    assert_eq!(resp.answers.len(), 1);
}

/// What the cache gets from refreshing a name, where only the upstreams of a rule
/// answer.
fn refreshed(ctx: &ServerCtx, name: &str, answer: DnsPacket) -> DnsPacket {
    match refresh_entry(ctx, name, QueryType::A) {
        Refresh::Send(p, buf) => {
            assert_eq!(p.label(), "192.0.2.1:53", "only the rule's upstream answers");
            let query = parse_reply(buf.filled()).unwrap();
            assert_eq!(query.header.id, 0);
            assert_eq!(query.questions[0].name, name);
            assert_eq!(query.questions[0].qtype, QueryType::A);
            over_the_wire(&answer).unwrap()
        }
        _ => panic!("expected to send"),
    }
}

#[test]
fn refresh_entry_honors_forwarding_rule() {
    let rule_resp = a_record_response("internal.corp", Ipv4Addr::new(10, 0, 0, 42), 300);
    let mut ctx = test_ctx();
    ctx.forwarding_rules = vec![rule("corp")];
    let cached = refreshed(&ctx, "internal.corp", rule_resp);
    assert_eq!(addr_of(&cached), Ipv4Addr::new(10, 0, 0, 42));
    match refresh_entry(&ctx, "example.com", QueryType::A) {
        Refresh::Send(p, _) => assert_eq!(p.label(), "192.0.2.53:53 (+1 more)"),
        _ => panic!("expected to send"),
    }
}

#[test]
fn refresh_entry_prefers_forwarding_rule_over_recursive() {
    let rule_resp = a_record_response("db.internal.corp", Ipv4Addr::new(10, 0, 0, 7), 300);
    let mut ctx = test_ctx();
    ctx.upstream_mode = UpstreamMode::Recursive;
    ctx.forwarding_rules = vec![rule("corp")];
    let cached = refreshed(&ctx, "db.internal.corp", rule_resp);
    assert_eq!(addr_of(&cached), Ipv4Addr::new(10, 0, 0, 7));
    assert!(matches!(refresh_entry(&ctx, "example.com", QueryType::A), Refresh::Resolve(_)));
    let long = "a".repeat(64);
    ctx.upstream_mode = UpstreamMode::Forward;
    assert!(matches!(refresh_entry(&ctx, &long, QueryType::A), Refresh::Nothing));
}

#[test]
fn recursive_answers_are_validated() {
    let reply = || a_record_response("signed.test", Ipv4Addr::new(1, 2, 3, 4), 60);
    let name = "signed.test".to_string();
    let mut ctx = test_ctx();
    ctx.upstream_mode = UpstreamMode::Recursive;
    ctx.dnssec_enabled = true;
    let mut w = World {
        upstream: vec![(name.clone(), Ok(reply()))],
        status: DnssecStatus::Secure,
        ..world()
    };
    let (resp, path) = run_query(&mut ctx, &w, DnsPacket::query(0xBEEF, &name, QueryType::A));
    assert_eq!(path, QueryPath::Recursive);
    assert!(resp.header.authed_data);
    assert_eq!(ctx.query_log.entries[0].dnssec, DnssecStatus::Secure);
    assert_eq!(ctx.stats.queries_recursive, 1);
    assert_eq!(ctx.stats.upstream_transport_udp, 0, "there is no upstream on this way");

    w.status = DnssecStatus::Bogus;
    let (resp, _) = run_query(&mut ctx, &w, DnsPacket::query(0xBEEF, &name, QueryType::A));
    assert_eq!(resp.answers.len(), 1);
    ctx.dnssec_strict = true;
    let (resp, _) = run_query(&mut ctx, &w, DnsPacket::query(0xBEEF, &name, QueryType::A));
    assert_eq!(resp.header.rescode, ResultCode::SERVFAIL);
    assert!(resp.answers.is_empty());
}

#[test]
fn query_without_question_is_refused() {
    assert_eq!(resolve_query(DnsPacket::new()).err(), Some("empty question section"));
}

// What the client sees.

#[test]
fn serialize_with_fallback_passes_through_valid_response() {
    let query = DnsPacket::query(0x1234, "example.com", QueryType::A);
    let mut response = DnsPacket::response_from(&query, ResultCode::NOERROR);
    response.answers.push(a_record("example.com", Ipv4Addr::new(192, 0, 2, 1), 300));
    let buf = serialize_with_fallback(&mut response, &query, false).unwrap();
    let parsed = parse_reply(buf.filled()).unwrap();
    assert_eq!(parsed.header.rescode, ResultCode::NOERROR);
    assert!(!parsed.header.truncated_message);
    assert_eq!(parsed.answers.len(), 1);
}

#[test]
fn serialize_with_fallback_sets_tc_on_buffer_overflow() {
    let query = DnsPacket::query(0x1234, "example.com", QueryType::TXT);
    let mut response = DnsPacket::response_from(&query, ResultCode::NOERROR);
    for _ in 0..256 {
        response.answers.push(DnsRecord::UNKNOWN {
            domain: "example.com".into(),
            qtype: QueryType::TXT.to_num(),
            data: vec![0u8; 32],
            ttl: 300,
        });
    }
    let buf = serialize_with_fallback(&mut response, &query, false).unwrap();
    let parsed = parse_reply(buf.filled()).unwrap();
    assert!(parsed.header.truncated_message, "TC bit must be set");
    assert_eq!(parsed.header.rescode, ResultCode::NOERROR);
}

#[test]
fn serialize_with_fallback_returns_servfail_for_malformed_label() {
    // A >63-byte raw label is rejected as SERVFAIL, not TC (TC would send the
    // client to TCP for the same failure).
    let query = DnsPacket::query(0x1234, "example.com", QueryType::A);
    let mut response = DnsPacket::response_from(&query, ResultCode::NOERROR);
    response.answers.push(a_record(
        &format!("{}.example.com", "a".repeat(64)),
        Ipv4Addr::new(192, 0, 2, 1),
        300,
    ));
    let buf = serialize_with_fallback(&mut response, &query, false).unwrap();
    let parsed = parse_reply(buf.filled()).unwrap();
    assert_eq!(parsed.header.rescode, ResultCode::SERVFAIL);
    assert!(!parsed.header.truncated_message, "must not set TC for parse errors");
    assert_eq!(
        response.header.rescode,
        ResultCode::SERVFAIL,
        "caller-visible rescode must reflect SERVFAIL for query logging"
    );
}

#[test]
fn cache_hit_restores_question_and_rd_ra_from_client_query() {
    let mut malformed = DnsPacket::new();
    malformed.header.response = true;
    malformed.header.rescode = ResultCode::NOERROR;
    malformed.answers.push(DnsRecord::NS {
        domain: "ikea.com".into(),
        host: "udns1.cscdns.net".into(),
        ttl: 86400,
    });
    let mut ctx = test_ctx();
    let hit = ("ikea.com".to_string(), malformed, DnssecStatus::Indeterminate, false);
    let w = World { cached: vec![hit], ..world() };
    let (resp, path) = run_query(&mut ctx, &w, DnsPacket::query(0xBEEF, "ikea.com", QueryType::NS));

    assert_eq!(path, QueryPath::Cached);
    assert_eq!(resp.questions.len(), 1);
    assert_eq!(resp.questions[0].name, "ikea.com");
    assert_eq!(resp.questions[0].qtype, QueryType::NS);
    assert!(resp.header.recursion_desired);
    assert!(resp.header.recursion_available);
}

#[test]
fn shape_overrides_do_bit_to_match_client() {
    // The DO bit of a response reflects the requestor's DO bit.
    let mut query = DnsPacket::query(0x1, "example.com", QueryType::A);
    query.edns = Some(EdnsOpt { do_bit: false, ..Default::default() });
    let mut response = DnsPacket::response_from(&query, ResultCode::NOERROR);
    response.edns = Some(EdnsOpt { do_bit: true, ..Default::default() });

    shape_response_for_client(&mut response, &query, false);

    assert!(!response.edns.unwrap().do_bit);
}

#[test]
fn shape_synthesizes_minimal_opt_when_upstream_has_none() {
    let mut query = DnsPacket::query(0x1, "example.com", QueryType::A);
    query.edns = Some(EdnsOpt::default());
    let mut response = DnsPacket::response_from(&query, ResultCode::NOERROR);
    assert!(response.edns.is_none());

    shape_response_for_client(&mut response, &query, false);

    assert!(response.edns.is_some());
}

#[test]
fn shape_strips_dnssec_records_for_non_do_client() {
    let query = DnsPacket::query(0x1, "example.com", QueryType::A);
    let mut response = DnsPacket::response_from(&query, ResultCode::NOERROR);
    response.answers.push(a_record("example.com", Ipv4Addr::new(192, 0, 2, 1), 300));
    response.answers.push(DnsRecord::RRSIG {
        domain: "example.com".into(),
        type_covered: QueryType::A.to_num(),
        algorithm: 13,
        labels: 2,
        original_ttl: 300,
        expiration: 0,
        inception: 0,
        key_tag: 0,
        signer_name: "example.com".into(),
        signature: vec![],
        ttl: 300,
    });

    shape_response_for_client(&mut response, &query, false);

    assert_eq!(response.answers.len(), 1);
    assert!(matches!(response.answers[0], DnsRecord::A { .. }));
}

#[test]
fn pipeline_clears_aa_bit_from_forwarded_response() {
    // Even when upstream sets aa=1, the client must see aa=0.
    let mut upstream_resp = a_record_response("aa.test", Ipv4Addr::new(1, 2, 3, 4), 60);
    upstream_resp.header.authoritative_answer = true;
    let mut ctx = test_ctx();
    ctx.forwarding_rules = vec![rule("aa.test")];
    let w = World { upstream: vec![("aa.test".to_string(), Ok(upstream_resp))], ..world() };
    let query = DnsPacket::query(0xBEEF, "aa.test", QueryType::A);
    let (resp, path) = run_query(&mut ctx, &w, query);
    assert_eq!(path, QueryPath::Forwarded);
    assert!(
        !resp.header.authoritative_answer,
        "aa bit must be cleared even when upstream set it"
    );
}

#[test]
fn pipeline_drops_opt_when_client_sent_none() {
    // Client sent no OPT -> response must have none, even if upstream's had one.
    let mut upstream_resp = a_record_response("noedns.test", Ipv4Addr::new(1, 2, 3, 4), 60);
    upstream_resp.edns = Some(EdnsOpt::default());
    assert!(over_the_wire(&upstream_resp).unwrap().edns.is_some());
    let mut ctx = test_ctx();
    ctx.forwarding_rules = vec![rule("noedns.test")];
    let w = World { upstream: vec![("noedns.test".to_string(), Ok(upstream_resp))], ..world() };
    let query = DnsPacket::query(0xBEEF, "noedns.test", QueryType::A);
    let (resp, _) = run_query(&mut ctx, &w, query);
    assert!(resp.edns.is_none(), "client sent no OPT, response must omit OPT");
}

#[test]
fn pipeline_preserves_upstream_ede_for_edns_client() {
    let ede = vec![0, 15, 0, 2, 0, 22];
    let mut upstream_resp = DnsPacket::new();
    upstream_resp.header.response = true;
    upstream_resp.header.rescode = ResultCode::NOERROR;
    upstream_resp.edns = Some(EdnsOpt { options: ede.clone(), ..Default::default() });
    let mut ctx = test_ctx();
    ctx.forwarding_rules = vec![rule("ede.test")];
    let w = World { upstream: vec![("ede.test".to_string(), Ok(upstream_resp))], ..world() };
    let mut query = DnsPacket::query(0xBEEF, "ede.test", QueryType::A);
    query.edns = Some(EdnsOpt::default());
    let (resp, _) = run_query(&mut ctx, &w, query);
    let edns = resp.edns.expect("OPT must reach the client");
    assert_eq!(edns.options, ede, "EDE option bytes must survive serialize -> reparse");
}

#[test]
fn pipeline_truncated_response_mirrors_client_opt() {
    // The response with the TC bit is made anew when serialization overflows.
    let mut ctx = test_ctx();
    let big_record = DnsRecord::UNKNOWN {
        domain: "huge.test".into(),
        qtype: 99,
        data: vec![0u8; 5000], // exceeds the 4096-byte serialization buffer
        ttl: 60,
    };
    ctx.zone_map = ZoneMap::from_exact(vec![big_record]);
    let mut query = DnsPacket::query(0xBEEF, "huge.test", QueryType::UNKNOWN(99));
    query.edns = Some(EdnsOpt::default());
    let (resp, _) = run_query(&mut ctx, &world(), query);

    assert!(resp.header.truncated_message, "TC bit must be set");
    assert!(resp.edns.is_some(), "TC response must mirror client's OPT");
}

// Following aliases.

fn ctx_with_zone(records: Vec<DnsRecord>) -> ServerCtx {
    let mut ctx = test_ctx();
    ctx.zone_map = ZoneMap::from_exact(records);
    ctx
}

#[test]
fn cname_chase_local_to_local_returns_combined_answer() {
    let mut ctx = ctx_with_zone(vec![
        cname_record("app.example.com", "nas.lan", 60),
        a_record("nas.lan", Ipv4Addr::new(192, 168, 1, 42), 60),
    ]);
    let (resp, path) = resolve(&mut ctx, "app.example.com", QueryType::A);
    assert_eq!(path, QueryPath::Local);
    assert_eq!(resp.header.rescode, ResultCode::NOERROR);
    assert_eq!(resp.answers.len(), 2);
    assert!(matches!(&resp.answers[0], DnsRecord::CNAME { host, .. } if host == "nas.lan"));
    assert!(
        matches!(&resp.answers[1], DnsRecord::A { addr, .. } if *addr == Ipv4Addr::new(192, 168, 1, 42))
    );
}

#[test]
fn cname_chase_direct_cname_query_does_not_chase() {
    let mut ctx = ctx_with_zone(vec![
        cname_record("app.example.com", "nas.lan", 60),
        a_record("nas.lan", Ipv4Addr::new(192, 168, 1, 42), 60),
    ]);
    let (resp, path) = resolve(&mut ctx, "app.example.com", QueryType::CNAME);
    assert_eq!(path, QueryPath::Local);
    assert_eq!(resp.answers.len(), 1);
    assert!(matches!(&resp.answers[0], DnsRecord::CNAME { .. }));
}

#[test]
fn cname_chase_loop_returns_servfail() {
    let mut ctx = ctx_with_zone(vec![
        cname_record("a.test", "b.test", 60),
        cname_record("b.test", "a.test", 60),
    ]);
    let (resp, _) = resolve(&mut ctx, "a.test", QueryType::A);
    assert_eq!(resp.header.rescode, ResultCode::SERVFAIL);
}

#[test]
fn cname_chase_depth_cap_returns_servfail() {
    let chain: Vec<DnsRecord> = (0..10)
        .map(|i| cname_record(&format!("n{}.test", i), &format!("n{}.test", i + 1), 60))
        .collect();
    let mut ctx = ctx_with_zone(chain);
    let (resp, _) = resolve(&mut ctx, "n0.test", QueryType::A);
    assert_eq!(resp.header.rescode, ResultCode::SERVFAIL);
    assert!(resp.answers.is_empty(), "never a bare alias");
}

#[test]
fn cname_chase_local_to_upstream_returns_combined() {
    let mut ctx = ctx_with_zone(vec![cname_record("alias.test", "public.example.org", 60)]);
    let reply = a_record_response("public.example.org", Ipv4Addr::new(93, 184, 216, 34), 300);
    let w = World { upstream: vec![("public.example.org".to_string(), Ok(reply))], ..world() };
    let (resp, _) = run_query(&mut ctx, &w, DnsPacket::query(0xBEEF, "alias.test", QueryType::A));
    assert_eq!(resp.header.rescode, ResultCode::NOERROR);
    assert_eq!(resp.answers.len(), 2);
    assert!(
        matches!(&resp.answers[0], DnsRecord::CNAME { host, .. } if host == "public.example.org")
    );
    assert!(
        matches!(&resp.answers[1], DnsRecord::A { addr, .. } if *addr == Ipv4Addr::new(93, 184, 216, 34))
    );
    assert_eq!(ctx.stats.upstream_transport_udp, 1, "the alias was asked for upstream");
    assert_eq!(parse_ipv4("93.184.216.34"), Some(Ipv4Addr::new(93, 184, 216, 34)));
    assert_eq!(UpstreamTransport::Udp.as_str(), "UDP");
}
