//! The way of a query through the server.
//!
//! Overrides, `.localhost`, local zones, names of special use, the proxy's own
//! domain, client policies and the blocklist are asked in this order. What none
//! of them answers comes from the cache, a forwarding rule, or upstream.
use vstd::prelude::*;

use crate::acl::AllowFromAcl;
use crate::blocklist::BlocklistStore;
use crate::buffer::{BytePacketBuffer, WireError, BUF_SIZE};
use crate::chase::{Answer, Resolution};
use crate::client_policy::{ClientPolicySet, Decision};
use crate::config::UpstreamMode;
use crate::dnssec::DnssecStatus;
use crate::forward::{transport_of, PoolView, UpstreamPool};
use crate::header::{DnsHeader, ResultCode};
use crate::question_set::QuestionSet;
use crate::net::{IpAddr, Ipv4Addr, Ipv6Addr, SocketAddr};
use crate::packet::{
    copy_questions, packet_emission, packet_reading, records, DnsPacket, PacketView,
};
use crate::query_log::{QueryLog, QueryLogEntry};
use crate::question::QueryType;
use crate::rebind::{packet_acted_on, scrubbed_packet, RebindFilter};
use crate::record::DnsRecord;
use crate::service_store::ServiceStore;
use crate::shape::{
    failed, holds_written, serialize_with_fallback, shape_response_for_client, shaped, to_wire,
    truncated, written,
};
use crate::special_use::{
    address_response, is_special_use_domain, respond_with_address, special_response, special_use,
    special_use_response,
};
use crate::stats::{QueryPath, ServerStats, Transport, UpstreamTransport};
use crate::svcb::within;
use crate::system_dns::{first_rule, match_forwarding_rule, no_rule, rules, ForwardingRule};
use crate::text::{drop_suffix, ends_with, has_suffix, lowercase, str_eq, without_suffix};
use crate::zone::ZoneMap;

verus! {

/// What the server knows.
pub struct ServerCtx {
    pub zone_map: ZoneMap,
    /// The questions that are being refreshed.
    pub refreshing: QuestionSet,
    pub stats: ServerStats,
    pub blocklist: BlocklistStore,
    pub query_log: QueryLog,
    pub services: ServiceStore,
    pub forwarding_rules: Vec<ForwardingRule>,
    pub upstream_pool: UpstreamPool,
    pub upstream_auto: bool,
    pub upstream_port: u16,
    pub lan_ip: Ipv4Addr,
    /// How long an upstream is waited for, in milliseconds.
    pub timeout_ms: u64,
    /// After how many milliseconds an upstream is asked a second time.
    pub hedge_ms: u64,
    pub proxy_tld: String,
    /// The proxy's domain behind a dot.
    pub proxy_tld_suffix: String,
    pub lan_enabled: bool,
    pub upstream_mode: UpstreamMode,
    /// The questions that are being resolved.
    pub inflight: QuestionSet,
    pub dnssec_enabled: bool,
    pub dnssec_strict: bool,
    /// Whether questions for IPv6 addresses get empty answers.
    pub filter_aaaa: bool,
    pub allow_from: AllowFromAcl,
    pub client_policy: ClientPolicySet,
    pub rebind: RebindFilter,
}

/// What was found for a query outside of what the server knows: the override
/// for its name, the address of the peer that serves its name, and the address
/// by which this host reaches the client.
pub struct Findings {
    pub override_record: Option<DnsRecord>,
    pub peer: Option<IpAddr>,
    pub egress: Option<Ipv4Addr>,
}

impl ServerCtx {
    /// Whether the parts are sound.
    pub open spec fn wf(&self) -> bool {
        &&& self.refreshing.wf()
        &&& self.inflight.wf()
        &&& self.stats.wf()
        &&& self.query_log.wf()
        &&& self.services.wf()
        &&& self.client_policy.wf()
        &&& self.rebind.wf()
        &&& self.allow_from.wf()
    }

    /// Whether a name is of the proxy's own domain.
    pub open spec fn proxied(&self, qname: Seq<char>) -> bool {
        self.proxy_tld_suffix@.len() > 0 && (has_suffix(qname, self.proxy_tld_suffix@) || qname
            == self.proxy_tld@)
    }
}

/// Whether a name is `localhost` or lies under it.
pub open spec fn localhost_name(qname: Seq<char>) -> bool {
    qname == "localhost"@ || has_suffix(qname, ".localhost"@)
}

/// The address 127.0.0.1.
pub open spec fn v4_localhost() -> Ipv4Addr {
    Ipv4Addr { bits: 0x7f00_0001 }
}

/// The address ::1.
pub open spec fn v6_localhost() -> Ipv6Addr {
    Ipv6Addr { bits: 1 }
}

/// The response that leads nowhere.
pub open spec fn sinkhole(query: PacketView, qname: Seq<char>, qtype: QueryType) -> PacketView {
    address_response(
        query,
        qname,
        qtype,
        Some(Ipv4Addr { bits: 0 }),
        Some(Ipv6Addr { bits: 0 }),
        60,
    )
}

/// The response for a name of the proxy's own domain. A service that is
/// registered here is at the loopback address for this host, and at the address
/// by which this host reaches the client for others. A service of a peer is at
/// the address of the peer. There is no other name.
pub open spec fn proxy_response(
    ctx: &ServerCtx,
    query: PacketView,
    client: IpAddr,
    qname: Seq<char>,
    qtype: QueryType,
    found: &Findings,
) -> PacketView {
    let service = without_suffix(qname, ctx.proxy_tld_suffix@);
    if ctx.services@.services.contains_key(lowercase(service)) {
        let v4 = if client.loopback() {
            v4_localhost()
        } else {
            match found.egress {
                Some(a) => a,
                None => ctx.lan_ip,
            }
        };
        let v6 = if v4 == v4_localhost() {
            v6_localhost()
        } else {
            v4.as_mapped()
        };
        address_response(query, qname, qtype, Some(v4), Some(v6), 300)
    } else {
        match found.peer {
            Some(IpAddr::V4(a)) => address_response(
                query,
                qname,
                qtype,
                Some(a),
                Some(a.as_mapped()),
                300,
            ),
            Some(IpAddr::V6(a)) => address_response(query, qname, qtype, None, Some(a), 300),
            None => DnsPacket::response_view(query, ResultCode::NXDOMAIN),
        }
    }
}

/// The response that the server has for a query by itself, and the way it was
/// found.
pub open spec fn local_answer(
    ctx: &ServerCtx,
    query: PacketView,
    client: IpAddr,
    qname: Seq<char>,
    qtype: QueryType,
    found: &Findings,
) -> Option<(PacketView, QueryPath)> {
    if let Some(rec) = found.override_record {
        Some(
            (
                PacketView {
                    answers: seq![rec@],
                    ..DnsPacket::response_view(query, ResultCode::NOERROR)
                },
                QueryPath::Overridden,
            ),
        )
    } else if localhost_name(qname) {
        Some(
            (
                address_response(
                    query,
                    qname,
                    qtype,
                    Some(v4_localhost()),
                    Some(v6_localhost()),
                    300,
                ),
                QueryPath::Local,
            ),
        )
    } else if let Some(answers) = ctx.zone_map@.answers(qname, qtype) {
        Some(
            (
                PacketView { answers, ..DnsPacket::response_view(query, ResultCode::NOERROR) },
                QueryPath::Local,
            ),
        )
    } else if special_use(qname) && no_rule(rules(ctx.forwarding_rules@), qname) {
        Some((special_response(query, qname, qtype), QueryPath::Local))
    } else if ctx.proxied(qname) {
        Some((proxy_response(ctx, query, client, qname, qtype, found), QueryPath::Local))
    } else if ctx.client_policy.decision(client, qname) is Block {
        Some((sinkhole(query, qname, qtype), QueryPath::Blocked))
    } else if !(ctx.client_policy.decision(client, qname) is Allow) && ctx.blocklist.verdict(
        qname,
    ).blocked {
        Some((sinkhole(query, qname, qtype), QueryPath::Blocked))
    } else if qtype == QueryType::AAAA && ctx.filter_aaaa {
        Some((DnsPacket::response_view(query, ResultCode::NOERROR), QueryPath::Local))
    } else {
        None
    }
}

fn plain_answer(response: DnsPacket, path: QueryPath) -> (r: Answer)
    ensures
        r.response@ == response@,
        r.path == path,
        r.dnssec == DnssecStatus::Indeterminate,
        r.upstream is None,
{
    Answer { response, path, dnssec: DnssecStatus::Indeterminate, upstream: None }
}

/// The response that leads nowhere.
fn sink(query: &DnsPacket, qname: &str, qtype: QueryType) -> (r: DnsPacket)
    ensures
        r@ == sinkhole(query@, qname@, qtype),
{
    respond_with_address(
        query,
        qname,
        qtype,
        Some(Ipv4Addr { bits: 0 }),
        Some(Ipv6Addr { bits: 0 }),
        60,
    )
}

/// The response for a name of the proxy's own domain.
pub fn resolve_proxy_tld(
    query: &DnsPacket,
    client: IpAddr,
    qname: &str,
    qtype: QueryType,
    ctx: &ServerCtx,
    found: &Findings,
) -> (r: DnsPacket)
    requires
        ctx.wf(),
    ensures
        r@ == proxy_response(ctx, query@, client, qname@, qtype, found),
{
    let service = drop_suffix(qname, ctx.proxy_tld_suffix.as_str());
    if ctx.services.lookup(service.as_str()).is_some() {
        let v4 = if !client.is_loopback() {
            match found.egress {
                Some(a) => a,
                None => ctx.lan_ip,
            }
        } else {
            Ipv4Addr { bits: 0x7f00_0001 }
        };
        let v6 = if v4.bits == 0x7f00_0001 {
            Ipv6Addr { bits: 1 }
        } else {
            v4.to_ipv6_mapped()
        };
        return respond_with_address(query, qname, qtype, Some(v4), Some(v6), 300);
    }
    match found.peer {
        Some(IpAddr::V4(a)) => respond_with_address(
            query,
            qname,
            qtype,
            Some(a),
            Some(a.to_ipv6_mapped()),
            300,
        ),
        Some(IpAddr::V6(a)) => respond_with_address(query, qname, qtype, None, Some(a), 300),
        None => DnsPacket::response_from(query, ResultCode::NXDOMAIN),
    }
}

/// The answer that the server has for a query by itself, if it has one.
pub fn resolve_local(
    query: &DnsPacket,
    src_addr: SocketAddr,
    qname: &str,
    qtype: QueryType,
    ctx: &ServerCtx,
    found: &Findings,
) -> (r: Option<Answer>)
    requires
        ctx.wf(),
    ensures
        match (r, local_answer(ctx, query@, src_addr.ip, qname@, qtype, found)) {
            (Some(a), Some((p, path))) => {
                &&& a.response@ == p
                &&& a.path == path
                &&& a.dnssec == DnssecStatus::Indeterminate
                &&& a.upstream is None
            },
            (None, None) => true,
            _ => false,
        },
{
    if let Some(record) = &found.override_record {
        let mut resp = DnsPacket::response_from(query, ResultCode::NOERROR);
        let mut answers: Vec<DnsRecord> = Vec::new();
        answers.push(record.copy());
        resp.answers = answers;
        assert(records(resp.answers@) =~= seq![record@]);
        return Some(plain_answer(resp, QueryPath::Overridden));
    }
    if str_eq(qname, "localhost") || ends_with(qname, ".localhost") {
        let resp = respond_with_address(
            query,
            qname,
            qtype,
            Some(Ipv4Addr { bits: 0x7f00_0001 }),
            Some(Ipv6Addr { bits: 1 }),
            300,
        );
        return Some(plain_answer(resp, QueryPath::Local));
    }
    if let Some(found_records) = ctx.zone_map.lookup(qname, qtype) {
        let mut resp = DnsPacket::response_from(query, ResultCode::NOERROR);
        resp.answers = found_records;
        return Some(plain_answer(resp, QueryPath::Local));
    }
    if is_special_use_domain(qname) {
        let rule = match_forwarding_rule(qname, &ctx.forwarding_rules);
        if rule.is_none() {
            return Some(plain_answer(special_use_response(query, qname, qtype), QueryPath::Local));
        }
    }
    if !ctx.proxy_tld_suffix.as_str().is_empty() && (ends_with(
        qname,
        ctx.proxy_tld_suffix.as_str(),
    ) || str_eq(qname, ctx.proxy_tld.as_str())) {
        let resp = resolve_proxy_tld(query, src_addr.ip, qname, qtype, ctx, found);
        return Some(plain_answer(resp, QueryPath::Local));
    }
    let mut policy_allow = false;
    if ctx.client_policy.is_enabled() {
        match ctx.client_policy.evaluate(src_addr.ip, qname) {
            Decision::Block => {
                return Some(plain_answer(sink(query, qname, qtype), QueryPath::Blocked));
            },
            Decision::Allow => {
                policy_allow = true;
            },
            Decision::Passthrough => {},
        }
    }
    if !policy_allow && ctx.blocklist.is_blocked(qname) {
        return Some(plain_answer(sink(query, qname, qtype), QueryPath::Blocked));
    }
    if qtype == QueryType::AAAA && ctx.filter_aaaa {
        let resp = DnsPacket::response_from(query, ResultCode::NOERROR);
        return Some(plain_answer(resp, QueryPath::Local));
    }
    None
}

/// Where a question goes that the server has no answer for.
pub enum Route<'a> {
    /// To the upstreams of a forwarding rule.
    Forward(&'a UpstreamPool),
    /// To the servers of the zones, from the root down.
    Recursive,
    /// To the upstreams of the server.
    Upstream(&'a UpstreamPool),
}

/// Whether a question for a name takes this route: a forwarding rule for the
/// name comes first, and after that the mode of the server decides.
pub open spec fn routed(ctx: &ServerCtx, qname: Seq<char>, r: Route) -> bool {
    let rs = rules(ctx.forwarding_rules@);
    match r {
        Route::Forward(p) => exists|i: int|
            #[trigger] first_rule(rs, qname, i) && rs[i].upstream == p@,
        Route::Recursive => no_rule(rs, qname) && ctx.upstream_mode is Recursive,
        Route::Upstream(p) => no_rule(rs, qname) && !(ctx.upstream_mode is Recursive) && p@
            == ctx.upstream_pool@,
    }
}

/// Where a question for a name goes that the server has no answer for.
pub fn remote_route<'a>(ctx: &'a ServerCtx, qname: &str) -> (r: Route<'a>)
    ensures
        routed(ctx, qname@, r),
{
    match match_forwarding_rule(qname, &ctx.forwarding_rules) {
        Some(pool) => Route::Forward(pool),
        None => match ctx.upstream_mode {
            UpstreamMode::Recursive => Route::Recursive,
            _ => Route::Upstream(&ctx.upstream_pool),
        },
    }
}

/// The transport of the upstream that is asked first.
pub open spec fn pool_transport(p: PoolView) -> Option<UpstreamTransport> {
    match p.first() {
        Some(u) => Some(transport_of(u)),
        None => None,
    }
}

/// A cached response as it answers a query.
pub open spec fn recalled(cached: PacketView, status: DnssecStatus, query: PacketView) -> PacketView {
    PacketView {
        header: DnsHeader {
            id: query.header.id,
            recursion_desired: query.header.recursion_desired,
            recursion_available: true,
            authed_data: cached.header.authed_data || status is Secure,
            ..cached.header
        },
        questions: query.questions,
        ..cached
    }
}

/// The answer to a query from the cache.
pub fn cached_answer(cached: DnsPacket, status: DnssecStatus, query: &DnsPacket) -> (r: Answer)
    ensures
        r.response@ == recalled(cached@, status, query@),
        r.response@.header.id == query@.header.id,
        r.response@.header.recursion_desired == query@.header.recursion_desired,
        r.response@.header.recursion_available,
        r.response@.header.authed_data == (cached@.header.authed_data || status is Secure),
        r.response@.header.rescode == cached@.header.rescode,
        r.response@.header.response == cached@.header.response,
        r.response@.header.opcode == cached@.header.opcode,
        r.response@.header.authoritative_answer == cached@.header.authoritative_answer,
        r.response@.header.truncated_message == cached@.header.truncated_message,
        r.response@.header.checking_disabled == cached@.header.checking_disabled,
        r.response@.header.z == cached@.header.z,
        r.response@.questions == query@.questions,
        r.response@.answers == cached@.answers,
        r.response@.authorities == cached@.authorities,
        r.response@.resources == cached@.resources,
        r.response@.edns == cached@.edns,
        r.path == QueryPath::Cached,
        r.dnssec == status,
        r.upstream is None,
{
    let mut resp = cached;
    resp.header.id = query.header.id;
    resp.header.recursion_desired = query.header.recursion_desired;
    resp.header.recursion_available = true;
    resp.questions = copy_questions(&query.questions);
    if status == DnssecStatus::Secure {
        resp.header.authed_data = true;
    }
    Answer { response: resp, path: QueryPath::Cached, dnssec: status, upstream: None }
}

/// Bytes at the start of a buffer that holds zeros after them.
pub open spec fn padded(data: Seq<u8>) -> Seq<u8> {
    Seq::new(
        BUF_SIZE as nat,
        |i: int|
            if i < data.len() {
                data[i]
            } else {
                0u8
            },
    )
}

/// The message in the reply of an upstream.
pub fn parse_reply(wire: &[u8]) -> (r: Result<DnsPacket, WireError>)
    ensures
        match (r, packet_reading(padded(wire@), 0)) {
            (Ok(p), Ok((v, _))) => p@ == v,
            (Err(e), Err((x, _))) => e == x,
            _ => false,
        },
{
    let mut buf = BytePacketBuffer::from_bytes(wire);
    assert(buf.buf@ =~= padded(wire@));
    DnsPacket::from_buffer(&mut buf)
}

/// What is to be done to refresh a question in the cache.
pub enum Refresh<'a> {
    /// The bytes go to the upstreams, and the reply into the cache.
    Send(&'a UpstreamPool, BytePacketBuffer),
    /// The query is resolved from the root down.
    Resolve(DnsPacket),
    /// The question cannot be written.
    Nothing,
}

/// What is to be done to refresh a question in the cache. It takes the route
/// that a query of a client would take, so that a private zone is never asked
/// for at the default upstream.
pub fn refresh_entry<'a>(ctx: &'a ServerCtx, qname: &str, qtype: QueryType) -> (r: Refresh<'a>)
    ensures
        ({
            let query = DnsPacket::query_view(0, qname@, qtype);
            match r {
                Refresh::Send(pool, buf) => {
                    &&& routed(ctx, qname@, Route::Forward(pool)) || routed(
                        ctx,
                        qname@,
                        Route::Upstream(pool),
                    )
                    &&& holds_written(Ok(buf), written(packet_emission(query)))
                },
                Refresh::Resolve(p) => routed(ctx, qname@, Route::Recursive) && p@ == query,
                Refresh::Nothing => {
                    &&& !routed(ctx, qname@, Route::Recursive)
                    &&& written(packet_emission(query)) is Err
                },
            }
        }),
{
    let query = DnsPacket::query(0, qname, qtype);
    match remote_route(ctx, qname) {
        Route::Recursive => Refresh::Resolve(query),
        Route::Forward(pool) => {
            proof {
                rule_excludes_none(ctx, qname@);
            }
            match to_wire(&query) {
                Ok(buf) => Refresh::Send(pool, buf),
                Err(_) => Refresh::Nothing,
            }
        },
        Route::Upstream(pool) => match to_wire(&query) {
            Ok(buf) => Refresh::Send(pool, buf),
            Err(_) => Refresh::Nothing,
        },
    }
}

proof fn rule_excludes_none(ctx: &ServerCtx, qname: Seq<char>)
    ensures
        (exists|i: int| first_rule(rules(ctx.forwarding_rules@), qname, i)) ==> !no_rule(
            rules(ctx.forwarding_rules@),
            qname,
        ),
{
}

/// A response after validation: marked where it was found secure, and replaced
/// by a server failure where it was found false and the server is strict.
pub open spec fn after_validation(
    p: PacketView,
    query: PacketView,
    status: DnssecStatus,
    strict: bool,
) -> PacketView {
    match status {
        DnssecStatus::Secure => PacketView {
            header: DnsHeader { authed_data: true, ..p.header },
            ..p
        },
        DnssecStatus::Bogus => if strict {
            DnsPacket::response_view(query, ResultCode::SERVFAIL)
        } else {
            p
        },
        _ => p,
    }
}

/// A response from outside after the rebinding filter: one that lost something
/// is no longer the one that was validated.
pub open spec fn after_rebind(
    filter: &RebindFilter,
    qname: Seq<char>,
    path: QueryPath,
    p: PacketView,
) -> PacketView {
    if path.trusted() || filter.leaves(qname) {
        p
    } else {
        let q = scrubbed_packet(p, within(&filter.ranges));
        if loses(filter, qname, path, p) {
            PacketView { header: DnsHeader { authed_data: false, ..q.header }, ..q }
        } else {
            q
        }
    }
}

/// Whether the rebinding filter takes something out of a response.
pub open spec fn loses(
    filter: &RebindFilter,
    qname: Seq<char>,
    path: QueryPath,
    p: PacketView,
) -> bool {
    !path.trusted() && !filter.leaves(qname) && packet_acted_on(p, within(&filter.ranges)) > 0
}

/// A reply to a client.
pub struct Reply {
    pub buffer: BytePacketBuffer,
    pub path: QueryPath,
    /// The state of the counters, after each thousandth query.
    pub summary: Option<String>,
}

/// The outcome that is logged for a response.
pub open spec fn logged_rescode(p: PacketView) -> ResultCode {
    let e = packet_emission(p);
    if e.bytes.len() <= BUF_SIZE && e.error is Some {
        ResultCode::SERVFAIL
    } else {
        p.header.rescode
    }
}

/// The bytes for a response, or those that stand in for it.
pub open spec fn reply_bytes(p: PacketView, query: PacketView, filter_aaaa: bool) -> Result<
    Seq<u8>,
    WireError,
> {
    let e = packet_emission(p);
    if e.bytes.len() > BUF_SIZE {
        written(packet_emission(truncated(p, query, filter_aaaa)))
    } else if e.error is Some {
        written(packet_emission(failed(query, filter_aaaa)))
    } else {
        Ok(e.bytes)
    }
}

/// Lets the rebinding filter take private addresses out of a response, and
/// counts the query of whose answer it took something.
fn filter_rebind(
    filter: &RebindFilter,
    stats: &mut ServerStats,
    qname: &str,
    path: QueryPath,
    response: &mut DnsPacket,
) -> (stripped: bool)
    requires
        filter.wf(),
        old(stats).rebind_stripped < u64::MAX,
    ensures
        stripped == loses(filter, qname@, path, old(response)@),
        final(response)@ == after_rebind(filter, qname@, path, old(response)@),
        *final(stats) == (ServerStats {
            rebind_stripped: (old(stats).rebind_stripped + if stripped {
                1int
            } else {
                0
            }) as u64,
            ..*old(stats)
        }),
{
    if path.returns_trusted_local_data() {
        return false;
    }
    let n: usize = filter.apply(qname, response);
    if n > 0 {
        response.header.authed_data = false;
        stats.record_rebind_stripped();
        return true;
    }
    false
}

/// The bytes for a response, or those that stand in for it.
fn to_client(response: &mut DnsPacket, query: &DnsPacket, filter_aaaa: bool) -> (r: Result<
    BytePacketBuffer,
    WireError,
>)
    ensures
        holds_written(r, reply_bytes(old(response)@, query@, filter_aaaa)),
        final(response)@.header.rescode == logged_rescode(old(response)@),
{
    serialize_with_fallback(response, query, filter_aaaa)
}

impl Resolution {
    /// Whether the response is one to validate.
    pub fn needs_validation(&self, ctx: &ServerCtx) -> (b: bool)
        ensures
            b == (ctx.dnssec_enabled && self.answer.path is Recursive),
    {
        ctx.dnssec_enabled && self.answer.path == QueryPath::Recursive
    }

    /// Takes up what validation found of the response.
    pub fn validated(&mut self, status: DnssecStatus, strict: bool)
        ensures
            final(self).answer.response@ == after_validation(
                old(self).answer.response@,
                old(self).query@,
                status,
                strict,
            ),
            final(self).answer == (Answer {
                response: final(self).answer.response,
                dnssec: status,
                ..old(self).answer
            }),
            *final(self) == (Resolution { answer: final(self).answer, ..*old(self) }),
    {
        self.answer.dnssec = status;
        if status == DnssecStatus::Secure {
            self.answer.response.header.authed_data = true;
        }
        if status == DnssecStatus::Bogus && strict {
            self.answer.response = DnsPacket::response_from(&self.query, ResultCode::SERVFAIL);
        }
    }

    /// What the client is to see of the response.
    pub open spec fn outgoing(&self, ctx: &ServerCtx) -> PacketView {
        shaped(
            after_rebind(&ctx.rebind, self.qname@, self.answer.path, self.answer.response@),
            self.query@,
            ctx.filter_aaaa,
        )
    }

    /// Whether the rebinding filter takes something out of the response.
    pub open spec fn stripped(&self, ctx: &ServerCtx) -> bool {
        loses(&ctx.rebind, self.qname@, self.answer.path, self.answer.response@)
    }

    /// Makes the reply to the client, counts the query, and logs it. Where not
    /// even a failure can be written, only the filter's work is counted.
    pub fn finish(
        self,
        ctx: &mut ServerCtx,
        src_addr: SocketAddr,
        transport: Transport,
        timestamp: u64,
        latency_us: u64,
        now: u64,
    ) -> (r: Result<Reply, WireError>)
        requires
            old(ctx).wf(),
            old(ctx).stats.queries_total < u64::MAX,
            old(ctx).stats.rebind_stripped < u64::MAX,
            old(ctx).query_log.next_seq < u64::MAX,
        ensures
            final(ctx).wf(),
            *final(ctx) == (ServerCtx {
                stats: final(ctx).stats,
                query_log: final(ctx).query_log,
                ..*old(ctx)
            }),
            ({
                let out = self.outgoing(old(ctx));
                let stripped = self.stripped(old(ctx));
                let counted = ServerStats {
                    rebind_stripped: (old(ctx).stats.rebind_stripped + if stripped {
                        1int
                    } else {
                        0
                    }) as u64,
                    ..old(ctx).stats
                };
                match (r, reply_bytes(out, self.query@, old(ctx).filter_aaaa)) {
                    (Ok(reply), Ok(bytes)) => {
                        &&& holds_written(Ok(reply.buffer), Ok(bytes))
                        &&& reply.path == self.answer.path
                        &&& final(ctx).stats.counted(
                            &counted,
                            self.answer.path,
                            transport,
                            self.answer.upstream,
                        )
                        &&& match reply.summary {
                            Some(s) => {
                                &&& final(ctx).stats.queries_total % 1000 == 0
                                &&& s@ == final(ctx).stats.summary(now)
                            },
                            None => final(ctx).stats.queries_total % 1000 != 0,
                        }
                        &&& final(ctx).query_log.capacity == old(ctx).query_log.capacity
                        &&& final(ctx).query_log.next_seq == old(ctx).query_log.next_seq + 1
                        &&& final(ctx).query_log.entries@ == QueryLog::after_push(
                            old(ctx).query_log.entries@,
                            old(ctx).query_log.capacity,
                            QueryLogEntry {
                                seq: (old(ctx).query_log.next_seq + 1) as u64,
                                timestamp,
                                src_addr,
                                domain: self.qname,
                                query_type: self.qtype,
                                path: self.answer.path,
                                transport,
                                rescode: logged_rescode(out),
                                latency_us,
                                dnssec: self.answer.dnssec,
                                rebind_stripped: stripped,
                            },
                        )
                    },
                    (Err(e), Err(x)) => {
                        &&& e == x
                        &&& final(ctx).stats == counted
                        &&& final(ctx).query_log == old(ctx).query_log
                    },
                    _ => false,
                }
            }),
    {
        let Resolution { query, qname, qtype, answer, .. } = self;
        let mut response = answer.response;
        let stripped = filter_rebind(
            &ctx.rebind,
            &mut ctx.stats,
            qname.as_str(),
            answer.path,
            &mut response,
        );
        shape_response_for_client(&mut response, &query, ctx.filter_aaaa);
        let buffer = match to_client(&mut response, &query, ctx.filter_aaaa) {
            Ok(b) => b,
            Err(e) => {
                return Err(e);
            },
        };
        let path = answer.path;
        let total: u64 = ctx.stats.record(path, transport, answer.upstream);
        let summary = if total % 1000 == 0 {
            Some(ctx.stats.log_summary(now))
        } else {
            None
        };
        ctx.query_log.push(
            QueryLogEntry {
                seq: 0,
                timestamp,
                src_addr,
                domain: qname,
                query_type: qtype,
                path,
                transport,
                rescode: response.header.rescode,
                latency_us,
                dnssec: answer.dnssec,
                rebind_stripped: stripped,
            },
        );
        Ok(Reply { buffer, path, summary })
    }
}

/// Each answer that the server has by itself goes back under the id of the
/// query, as a response to its questions.
pub proof fn local_answers_echo_the_query(
    ctx: &ServerCtx,
    query: PacketView,
    client: IpAddr,
    qname: Seq<char>,
    qtype: QueryType,
    found: &Findings,
)
    ensures
        local_answer(ctx, query, client, qname, qtype, found) matches Some((p, _)) ==> {
            &&& p.header.id == query.header.id
            &&& p.header.response
            &&& p.header.recursion_desired == query.header.recursion_desired
            &&& p.questions == query.questions
        },
{
}

/// So does what the client is to see of it.
pub proof fn shaping_keeps_the_question(response: PacketView, query: PacketView, filter_aaaa: bool)
    ensures
        ({
            let p = shaped(response, query, filter_aaaa);
            &&& p.header.id == response.header.id
            &&& p.questions == response.questions
            &&& p.header.rescode == response.header.rescode
        }),
{
}

/// An override answers before anything else: not even `localhost`, a local zone
/// or a blocked name comes before it.
pub proof fn override_wins(
    ctx: &ServerCtx,
    query: PacketView,
    client: IpAddr,
    qname: Seq<char>,
    qtype: QueryType,
    found: &Findings,
)
    requires
        found.override_record is Some,
    ensures
        local_answer(ctx, query, client, qname, qtype, found) matches Some((p, path)) && path
            == QueryPath::Overridden && p.answers == seq![found.override_record->0@],
{
}

/// The filter of IPv6 leaves alone what the server answers by itself: it changes
/// nothing but that questions for IPv6 addresses stay here.
pub proof fn ipv6_filter_spares_local_data(
    ctx: &ServerCtx,
    other: &ServerCtx,
    query: PacketView,
    client: IpAddr,
    qname: Seq<char>,
    qtype: QueryType,
    found: &Findings,
)
    requires
        *other == (ServerCtx { filter_aaaa: true, ..*ctx }),
        local_answer(ctx, query, client, qname, qtype, found) is Some,
    ensures
        local_answer(other, query, client, qname, qtype, found) == local_answer(
            ctx,
            query,
            client,
            qname,
            qtype,
            found,
        ),
{
}

/// What comes from the server's own data is never filtered for private addresses.
pub proof fn local_data_is_not_filtered(
    filter: &RebindFilter,
    qname: Seq<char>,
    path: QueryPath,
    p: PacketView,
)
    requires
        path.trusted(),
    ensures
        after_rebind(filter, qname, path, p) == p,
        !loses(filter, qname, path, p),
{
}

/// A response that the filter took something out of does not claim to be
/// validated.
pub proof fn filtered_is_not_validated(
    filter: &RebindFilter,
    qname: Seq<char>,
    path: QueryPath,
    p: PacketView,
)
    requires
        loses(filter, qname, path, p),
    ensures
        !after_rebind(filter, qname, path, p).header.authed_data,
{
}

/// A question that a forwarding rule covers takes that rule's way, whatever the
/// mode of the server.
pub proof fn rule_comes_before_mode(ctx: &ServerCtx, qname: Seq<char>, i: int, r: Route)
    requires
        first_rule(rules(ctx.forwarding_rules@), qname, i),
        routed(ctx, qname, r),
    ensures
        r matches Route::Forward(p) && p@ == rules(ctx.forwarding_rules@)[i].upstream,
{
    if let Route::Forward(p) = r {
        let rs = rules(ctx.forwarding_rules@);
        let k = choose|k: int| #[trigger] first_rule(rs, qname, k) && rs[k].upstream == p@;
        assert(k == i);
    }
}

/// What the cache holds is answered as it was found: its outcome, its records
/// and the rest of its header are those that were kept. Only the id, the wish
/// for recursion and the question are those of the query at hand, recursion is
/// available, and validated data says so.
pub proof fn cached_answers_are_kept(cached: PacketView, status: DnssecStatus, query: PacketView)
    ensures
        ({
            let p = recalled(cached, status, query);
            &&& p.header.id == query.header.id
            &&& p.header.recursion_desired == query.header.recursion_desired
            &&& p.header.recursion_available
            &&& p.header.authed_data == (cached.header.authed_data || status is Secure)
            &&& p.header.rescode == cached.header.rescode
            &&& p.header.response == cached.header.response
            &&& p.header.opcode == cached.header.opcode
            &&& p.header.authoritative_answer == cached.header.authoritative_answer
            &&& p.header.truncated_message == cached.header.truncated_message
            &&& p.header.checking_disabled == cached.header.checking_disabled
            &&& p.header.z == cached.header.z
            &&& p.questions == query.questions
            &&& p.answers == cached.answers
            &&& p.authorities == cached.authorities
            &&& p.resources == cached.resources
            &&& p.edns == cached.edns
        }),
{
}

} // verus!
