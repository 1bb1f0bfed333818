//! What a query is answered: by which step, and with what.
use vstd::prelude::*;

use crate::buffer::{WireError, BUF_SIZE};
use crate::chase::{alias_is_followed, answered_is_left, is_alias_for, Resolution};
use crate::ctx::{
    after_rebind, after_validation, local_answer, logged_rescode, loses, padded, pool_transport,
    reply_bytes, routed, Findings, Route, ServerCtx,
};
use crate::dnssec::DnssecStatus;
use crate::domain_list::{normalized, under};
use crate::forward::{PoolView, UpstreamView};
use crate::header::ResultCode;
use crate::list_laws::{every_section_is_scrubbed, found_entry_stands_for_it, stands_for};
use crate::net::{v4_bits, v6_bits, IpAddr, Ipv4Addr, Ipv6Addr};
use crate::packet::{packet_emission, DnsPacket, PacketView, QuestionView};
use crate::question::QueryType;
use crate::rebind::{packet_acted_on, scrubbed, RebindFilter};
use crate::record::{RdataView, RecordView};
use crate::resolve::{
    advanced, begun, joined_with, plan_of, plan_path, plan_tag, Opening, PlanView, Progress,
};
use crate::shape::{failed, shaped, truncated, written};
use crate::special_use::{reverse_of_172, special_use};
use crate::stats::{QueryPath, UpstreamTransport};
use crate::svcb::within;
use crate::system_dns::rules;
use crate::text::{
    ascii_lowercase, decimal, has_part, has_suffix, lowercase, split_parts, without_suffix,
};
use crate::text_laws::{
    digits_give_the_number, numbers_are_read, parts_on_both_sides, rest_and_suffix,
    whole_is_one_part,
};

verus! {

/// Whether a packet is the server's own answer to a query: it has the id, the
/// question and the wish for recursion of the query, says that it is a response
/// and that recursion is available, has an outcome and these answers, and says
/// nothing else.
pub open spec fn answers_query(
    p: PacketView,
    query: PacketView,
    rescode: ResultCode,
    answers: Seq<RecordView>,
) -> bool {
    &&& p.header.id == query.header.id
    &&& p.header.response
    &&& p.header.recursion_desired == query.header.recursion_desired
    &&& p.header.recursion_available
    &&& p.header.rescode == rescode
    &&& p.header.opcode == 0
    &&& !p.header.truncated_message
    &&& !p.header.authoritative_answer
    &&& !p.header.checking_disabled
    &&& !p.header.authed_data
    &&& !p.header.z
    &&& p.questions == query.questions
    &&& p.answers == answers
    &&& p.authorities.len() == 0
    &&& p.resources.len() == 0
    &&& p.edns is None
}

/// Whether these answers give the one address or the other, as was asked: an A
/// record for A, an AAAA record for AAAA, and nothing for any other type.
pub open spec fn gives_addresses(
    answers: Seq<RecordView>,
    qname: Seq<char>,
    qtype: QueryType,
    v4: Ipv4Addr,
    v6: Ipv6Addr,
    ttl: u32,
) -> bool {
    &&& qtype is A ==> answers == seq![
        RecordView { domain: qname, ttl, data: RdataView::A { addr: v4 } },
    ]
    &&& qtype is AAAA ==> answers == seq![
        RecordView { domain: qname, ttl, data: RdataView::Aaaa { addr: v6 } },
    ]
    &&& !(qtype is A) && !(qtype is AAAA) ==> answers.len() == 0
}

/// Whether no override stands for a name and it is not this host's.
pub open spec fn not_here(found: &Findings, qname: Seq<char>) -> bool {
    &&& found.override_record is None
    &&& qname != "localhost"@
    &&& !has_suffix(qname, ".localhost"@)
}

/// Whether a name is in the proxy's domain, or is that domain.
pub open spec fn in_proxy_domain(ctx: &ServerCtx, qname: Seq<char>) -> bool {
    ctx.proxy_tld_suffix@.len() > 0 && (has_suffix(qname, ctx.proxy_tld_suffix@) || qname
        == ctx.proxy_tld@)
}

/// Whether a forwarding rule stands for a name: its suffix is the name or a name
/// above it.
pub open spec fn has_rule(ctx: &ServerCtx, qname: Seq<char>) -> bool {
    exists|i: int|
        0 <= i < ctx.forwarding_rules@.len() && under(
            qname,
            (#[trigger] ctx.forwarding_rules@[i]).suffix@,
        )
}

proof fn rules_of_ctx(ctx: &ServerCtx, qname: Seq<char>)
    ensures
        has_rule(ctx, qname) <==> !crate::system_dns::no_rule(
            rules(ctx.forwarding_rules@),
            qname,
        ),
{
    let rs = rules(ctx.forwarding_rules@);
    if has_rule(ctx, qname) {
        let i = choose|i: int|
            0 <= i < ctx.forwarding_rules@.len() && under(
                qname,
                (#[trigger] ctx.forwarding_rules@[i]).suffix@,
            );
        assert(rs[i].suffix == ctx.forwarding_rules@[i].suffix@);
    }
    if !crate::system_dns::no_rule(rs, qname) {
        let j = choose|j: int| 0 <= j < rs.len() && under(qname, (#[trigger] rs[j]).suffix);
        assert(rs[j].suffix == ctx.forwarding_rules@[j].suffix@);
    }
}

// ---------------------------------------------------------------------------
// The steps
// ---------------------------------------------------------------------------

/// An override is answered with its record, whatever else is known of the name.
pub proof fn overridden_name(
    ctx: &ServerCtx,
    query: PacketView,
    client: IpAddr,
    qname: Seq<char>,
    qtype: QueryType,
    found: &Findings,
)
    requires
        found.override_record is Some,
    ensures
        local_answer(ctx, query, client, qname, qtype, found) matches Some((p, path))
            && path is Overridden && answers_query(
            p,
            query,
            ResultCode::NOERROR,
            seq![found.override_record->0@],
        ),
{
}

/// This host's own name and what is below it lead to the loopback addresses, for
/// every client and every type.
pub proof fn own_name_is_loopback(
    ctx: &ServerCtx,
    query: PacketView,
    client: IpAddr,
    qname: Seq<char>,
    qtype: QueryType,
    found: &Findings,
)
    requires
        found.override_record is None,
        qname == "localhost"@ || has_suffix(qname, ".localhost"@),
    ensures
        local_answer(ctx, query, client, qname, qtype, found) matches Some((p, path))
            && path is Local && answers_query(p, query, ResultCode::NOERROR, p.answers)
            && gives_addresses(
            p.answers,
            qname,
            qtype,
            Ipv4Addr { bits: v4_bits(127, 0, 0, 1) },
            Ipv6Addr { bits: 1 },
            300,
        ),
{
}

/// A name that the zones answer is answered with what they have, even where that
/// is nothing.
pub proof fn zones_come_next(
    ctx: &ServerCtx,
    query: PacketView,
    client: IpAddr,
    qname: Seq<char>,
    qtype: QueryType,
    found: &Findings,
)
    requires
        not_here(found, qname),
        ctx.zone_map@.answers(qname, qtype) is Some,
    ensures
        local_answer(ctx, query, client, qname, qtype, found) matches Some((p, path))
            && path is Local && answers_query(
            p,
            query,
            ResultCode::NOERROR,
            ctx.zone_map@.answers(qname, qtype)->0,
        ),
{
}

/// A name of special use without a forwarding rule does not exist, but for the
/// name by which the prefix of a NAT64 is found.
pub proof fn special_names_end_here(
    ctx: &ServerCtx,
    query: PacketView,
    client: IpAddr,
    qname: Seq<char>,
    qtype: QueryType,
    found: &Findings,
)
    requires
        not_here(found, qname),
        ctx.zone_map@.answers(qname, qtype) is None,
        special_use(qname),
        !has_rule(ctx, qname),
    ensures
        local_answer(ctx, query, client, qname, qtype, found) matches Some((p, path))
            && path is Local && (if qname == "ipv4only.arpa"@ {
            answers_query(p, query, ResultCode::NOERROR, p.answers) && finds_nat64(
                p.answers,
                qname,
                qtype,
            )
        } else {
            answers_query(p, query, ResultCode::NXDOMAIN, Seq::empty())
        }),
{
    rules_of_ctx(ctx, qname);
}

/// Whether these answers are the addresses by which a NAT64 is found: 192.0.0.170
/// and 192.0.0.171, or the first of them under the well-known prefix.
pub open spec fn finds_nat64(answers: Seq<RecordView>, qname: Seq<char>, qtype: QueryType) -> bool {
    &&& qtype is A ==> answers == seq![
        RecordView {
            domain: qname,
            ttl: 300,
            data: RdataView::A { addr: Ipv4Addr { bits: v4_bits(192, 0, 0, 170) } },
        },
        RecordView {
            domain: qname,
            ttl: 300,
            data: RdataView::A { addr: Ipv4Addr { bits: v4_bits(192, 0, 0, 171) } },
        },
    ]
    &&& qtype is AAAA ==> answers == seq![
        RecordView {
            domain: qname,
            ttl: 300,
            data: RdataView::Aaaa {
                addr: Ipv6Addr {
                    bits: v6_bits(seq![0x0064u16, 0xff9b, 0, 0, 0, 0, 0xc000, 0x00aa]),
                },
            },
        },
    ]
    &&& !(qtype is A) && !(qtype is AAAA) ==> answers.len() == 0
}

/// A name in the proxy's domain is answered here. A service that is registered
/// leads to this machine, by the address at which the client reaches it: the
/// loopback address for a client on it, and else the address that the packets
/// to the client leave from, or that of the local network. A service of a peer
/// leads to the peer. Any other does not exist.
pub proof fn proxy_names_lead_to_services(
    ctx: &ServerCtx,
    query: PacketView,
    client: IpAddr,
    qname: Seq<char>,
    qtype: QueryType,
    found: &Findings,
)
    requires
        not_here(found, qname),
        ctx.zone_map@.answers(qname, qtype) is None,
        !special_use(qname) || has_rule(ctx, qname),
        in_proxy_domain(ctx, qname),
    ensures
        local_answer(ctx, query, client, qname, qtype, found) matches Some((p, path))
            && path is Local && ({
            let name = lowercase(without_suffix(qname, ctx.proxy_tld_suffix@));
            if ctx.services@.services.contains_key(name) {
                let reached = match found.egress {
                    Some(a) => a,
                    None => ctx.lan_ip,
                };
                let here = Ipv4Addr { bits: v4_bits(127, 0, 0, 1) };
                &&& answers_query(p, query, ResultCode::NOERROR, p.answers)
                &&& client.loopback() ==> gives_addresses(
                    p.answers,
                    qname,
                    qtype,
                    here,
                    Ipv6Addr { bits: 1 },
                    300,
                )
                &&& !client.loopback() && reached == here ==> gives_addresses(
                    p.answers,
                    qname,
                    qtype,
                    here,
                    Ipv6Addr { bits: 1 },
                    300,
                )
                &&& !client.loopback() && reached != here ==> gives_addresses(
                    p.answers,
                    qname,
                    qtype,
                    reached,
                    Ipv6Addr { bits: (0xffff_0000_0000 + reached.bits) as u128 },
                    300,
                )
            } else {
                match found.peer {
                    Some(IpAddr::V4(a)) => answers_query(p, query, ResultCode::NOERROR, p.answers)
                        && gives_addresses(
                        p.answers,
                        qname,
                        qtype,
                        a,
                        Ipv6Addr { bits: (0xffff_0000_0000 + a.bits) as u128 },
                        300,
                    ),
                    Some(IpAddr::V6(a)) => answers_query(p, query, ResultCode::NOERROR, p.answers)
                        && (if qtype is AAAA {
                        p.answers == seq![
                            RecordView {
                                domain: qname,
                                ttl: 300,
                                data: RdataView::Aaaa { addr: a },
                            },
                        ]
                    } else {
                        p.answers.len() == 0
                    }),
                    None => answers_query(p, query, ResultCode::NXDOMAIN, Seq::empty()),
                }
            }
        }),
{
    rules_of_ctx(ctx, qname);
}

/// Whether nothing of the server's own answers a name.
pub open spec fn not_its_own(
    ctx: &ServerCtx,
    qname: Seq<char>,
    qtype: QueryType,
    found: &Findings,
) -> bool {
    &&& not_here(found, qname)
    &&& ctx.zone_map@.answers(qname, qtype) is None
    &&& !special_use(qname) || has_rule(ctx, qname)
    &&& !in_proxy_domain(ctx, qname)
}

/// A name that a policy for the client blocks, or that the blocklist blocks and
/// no policy allows, leads nowhere: to the address that is all zeros, for a
/// minute.
pub proof fn blocked_names_lead_nowhere(
    ctx: &ServerCtx,
    query: PacketView,
    client: IpAddr,
    qname: Seq<char>,
    qtype: QueryType,
    found: &Findings,
)
    requires
        not_its_own(ctx, qname, qtype, found),
        ctx.client_policy.decision(client, qname) is Block || (ctx.client_policy.decision(
            client,
            qname,
        ) is Passthrough && ctx.blocklist.verdict(qname).blocked),
    ensures
        local_answer(ctx, query, client, qname, qtype, found) matches Some((p, path))
            && path is Blocked && answers_query(p, query, ResultCode::NOERROR, p.answers)
            && gives_addresses(
            p.answers,
            qname,
            qtype,
            Ipv4Addr { bits: 0 },
            Ipv6Addr { bits: 0 },
            60,
        ),
{
    rules_of_ctx(ctx, qname);
}

/// A name that is neither the server's own nor blocked is asked for elsewhere,
/// for every type; where IPv6 is filtered, its IPv6 addresses are not asked for,
/// and the answer is empty.
pub proof fn other_names_are_asked_for(
    ctx: &ServerCtx,
    query: PacketView,
    client: IpAddr,
    qname: Seq<char>,
    qtype: QueryType,
    found: &Findings,
)
    requires
        not_its_own(ctx, qname, qtype, found),
        ctx.client_policy.decision(client, qname) is Allow || (ctx.client_policy.decision(
            client,
            qname,
        ) is Passthrough && !ctx.blocklist.verdict(qname).blocked),
    ensures
        !(ctx.filter_aaaa && qtype is AAAA) ==> local_answer(
            ctx,
            query,
            client,
            qname,
            qtype,
            found,
        ) is None,
        ctx.filter_aaaa && qtype is AAAA ==> (local_answer(
            ctx,
            query,
            client,
            qname,
            qtype,
            found,
        ) matches Some((p, path)) && path is Local && answers_query(
            p,
            query,
            ResultCode::NOERROR,
            Seq::empty(),
        )),
{
    rules_of_ctx(ctx, qname);
}

// ---------------------------------------------------------------------------
// Names of special use
// ---------------------------------------------------------------------------

/// Outside of the reverse names of IPv4, the names of special use are those of
/// resolver discovery, of NAT64 discovery and of `local`.
pub proof fn special_names(qname: Seq<char>)
    requires
        !has_suffix(qname, ".in-addr.arpa"@),
    ensures
        special_use(qname) <==> {
            ||| qname == "local"@
            ||| has_suffix(qname, ".local"@)
            ||| qname == "ipv4only.arpa"@
            ||| qname == "_dns.resolver.arpa"@
            ||| has_suffix(qname, "._dns.resolver.arpa"@)
        },
{
}

/// Of the reverse names of IPv4, those of private, loopback, link-local and
/// unspecified addresses and of service discovery are of special use.
pub proof fn special_reverse_names(qname: Seq<char>)
    requires
        has_suffix(qname, ".in-addr.arpa"@),
    ensures
        special_use(qname) <==> {
            ||| has_suffix(qname, ".10.in-addr.arpa"@)
            ||| has_suffix(qname, ".168.192.in-addr.arpa"@)
            ||| has_suffix(qname, ".127.in-addr.arpa"@)
            ||| has_suffix(qname, ".254.169.in-addr.arpa"@)
            ||| has_suffix(qname, ".0.in-addr.arpa"@)
            ||| has_part(qname, "_dns-sd._udp"@)
            ||| reverse_of_172(qname)
        },
{
}

/// Of the reverse names of 172.0.0.0/8, those whose second octet is from 16 to 31
/// are private.
pub proof fn private_part_of_172(front: Seq<char>, octet: nat)
    ensures
        reverse_of_172(front + seq!['.'] + decimal(octet) + ".172.in-addr.arpa"@) <==> 16 <= octet
            <= 31,
        reverse_of_172(decimal(octet) + ".172.in-addr.arpa"@) <==> 16 <= octet <= 31,
{
    let tail = ".172.in-addr.arpa"@;
    let d = decimal(octet);
    digits_give_the_number(octet);
    numbers_are_read(octet, d);
    assert(!d.contains('.')) by {
        if d.contains('.') {
            let i = choose|i: int| 0 <= i < d.len() && d[i] == '.';
            assert('0' <= decimal(octet)[i]);
        }
    }
    whole_is_one_part(d, '.');
    rest_and_suffix(d, tail);
    let f = front + seq!['.'] + d;
    rest_and_suffix(f, tail);
    parts_on_both_sides(front, d, '.');
    let parts = split_parts(f, '.');
    assert(parts.last() == d);
}

// ---------------------------------------------------------------------------
// Elsewhere
// ---------------------------------------------------------------------------

/// A question for elsewhere goes to the upstreams of the first forwarding rule
/// whose suffix is the name or a name above it. Where there is none it is
/// resolved from the root down, if that is the mode, and else it goes to the
/// upstreams of the server.
pub proof fn questions_go_by_rule_and_mode(ctx: &ServerCtx, qname: Seq<char>, r: Route, i: int)
    requires
        routed(ctx, qname, r),
        0 <= i <= ctx.forwarding_rules@.len(),
        forall|j: int|
            0 <= j < i ==> !under(qname, (#[trigger] ctx.forwarding_rules@[j]).suffix@),
        i < ctx.forwarding_rules@.len() ==> under(qname, ctx.forwarding_rules@[i].suffix@),
    ensures
        i < ctx.forwarding_rules@.len() ==> (r matches Route::Forward(p) && p@
            == ctx.forwarding_rules@[i].upstream@ && plan_of(r) == PlanView::Forward(
            ctx.forwarding_rules@[i].upstream@,
        )),
        i == ctx.forwarding_rules@.len() && ctx.upstream_mode is Recursive ==> r is Recursive
            && plan_of(r) is Recursive,
        i == ctx.forwarding_rules@.len() && !(ctx.upstream_mode is Recursive) ==> (
        r matches Route::Upstream(p) && p@ == ctx.upstream_pool@ && plan_of(r)
            == PlanView::Upstream(ctx.upstream_pool@)),
{
    let rs = rules(ctx.forwarding_rules@);
    assert forall|j: int| 0 <= j < i implies !under(qname, (#[trigger] rs[j]).suffix) by {
        assert(rs[j].suffix == ctx.forwarding_rules@[j].suffix@);
    }
    if i < ctx.forwarding_rules@.len() {
        assert(rs[i].suffix == ctx.forwarding_rules@[i].suffix@);
        assert(rs[i].upstream == ctx.forwarding_rules@[i].upstream@);
        assert(crate::system_dns::first_rule(rs, qname, i));
        assert(!crate::system_dns::no_rule(rs, qname));
        if let Route::Forward(p) = r {
            let k = choose|k: int|
                #[trigger] crate::system_dns::first_rule(rs, qname, k) && rs[k].upstream == p@;
            assert(k == i);
        }
    } else {
        assert(crate::system_dns::no_rule(rs, qname));
        if let Route::Forward(p) = r {
            let k = choose|k: int|
                #[trigger] crate::system_dns::first_rule(rs, qname, k) && rs[k].upstream == p@;
            assert(under(qname, rs[k].suffix));
        }
    }
}

/// What comes by a rule is forwarded, what comes from the root down is
/// recursive, and the rest comes from upstream. It is said to have come by the
/// protocol of the first upstream, primaries before fallbacks; what comes from
/// the root down came by none.
pub proof fn answers_say_where_they_came_from(pool: PoolView, u: UpstreamView)
    requires
        pool.primary.len() > 0 ==> u == pool.primary[0],
        pool.primary.len() == 0 && pool.fallback.len() > 0 ==> u == pool.fallback[0],
    ensures
        plan_path(PlanView::Forward(pool)) is Forwarded,
        plan_path(PlanView::Upstream(pool)) is Upstream,
        plan_path(PlanView::Recursive) is Recursive,
        plan_tag(PlanView::Recursive, QueryPath::Recursive) is None,
        plan_tag(PlanView::Forward(pool), QueryPath::Forwarded) == pool_transport(pool),
        plan_tag(PlanView::Upstream(pool), QueryPath::Upstream) == pool_transport(pool),
        pool.primary.len() + pool.fallback.len() == 0 ==> pool_transport(pool) is None,
        pool.primary.len() + pool.fallback.len() > 0 ==> match u {
            UpstreamView::Udp(_) => pool_transport(pool) == Some(UpstreamTransport::Udp),
            UpstreamView::Tcp(_) => pool_transport(pool) == Some(UpstreamTransport::Tcp),
            UpstreamView::Doh(_) => pool_transport(pool) == Some(UpstreamTransport::Doh),
            UpstreamView::Dot(_, _) => pool_transport(pool) == Some(UpstreamTransport::Dot),
            UpstreamView::Odoh(_, _, _) => pool_transport(pool) == Some(UpstreamTransport::Odoh),
        },
{
}

// ---------------------------------------------------------------------------
// What goes out
// ---------------------------------------------------------------------------

/// A response that was found genuine says so. A forged one becomes a server
/// failure where validation is strict, and stays as it is where it is not; so
/// does every other.
pub proof fn validation_marks_or_refuses(
    p: PacketView,
    query: PacketView,
    status: DnssecStatus,
    strict: bool,
)
    ensures
        ({
            let q = after_validation(p, query, status, strict);
            &&& status is Secure ==> q.header.authed_data
            &&& status is Bogus && strict ==> answers_query(
                q,
                query,
                ResultCode::SERVFAIL,
                Seq::empty(),
            )
            &&& !(status is Bogus && strict) ==> {
                &&& q.questions == p.questions
                &&& q.answers == p.answers
                &&& q.authorities == p.authorities
                &&& q.resources == p.resources
                &&& q.edns == p.edns
                &&& q.header.rescode == p.header.rescode
                &&& q.header.id == p.header.id
                &&& q.header.response == p.header.response
                &&& q.header.recursion_desired == p.header.recursion_desired
                &&& q.header.recursion_available == p.header.recursion_available
                &&& q.header.truncated_message == p.header.truncated_message
                &&& q.header.authoritative_answer == p.header.authoritative_answer
                &&& q.header.checking_disabled == p.header.checking_disabled
            }
            &&& !(status is Secure) && !(status is Bogus && strict) ==> q == p
        }),
{
}

/// What comes from elsewhere loses its private addresses where that is asked
/// for and the name is not listed as allowed; where anything was lost, it does
/// not pass as validated. The server's own answers, and those for names that are
/// listed, stay as they are.
pub proof fn private_addresses_stay_out(
    filter: &RebindFilter,
    qname: Seq<char>,
    path: QueryPath,
    p: PacketView,
)
    ensures
        ({
            let q = after_rebind(filter, qname, path, p);
            let private = within(&filter.ranges);
            let own = path is Local || path is Overridden || path is Blocked;
            let allowed = exists|e: Seq<char>|
                (filter.allowlist@.config.contains(e) || filter.allowlist@.user.contains(e))
                    && #[trigger] stands_for(e, normalized(qname));
            &&& own || !filter.enabled || allowed ==> q == p && !loses(filter, qname, path, p)
            &&& !own && filter.enabled && !allowed ==> {
                &&& q.answers == scrubbed(p.answers, private)
                &&& q.authorities == scrubbed(p.authorities, private)
                &&& q.resources == scrubbed(p.resources, private)
                &&& q.questions == p.questions
                &&& q.edns == p.edns
                &&& q.header.rescode == p.header.rescode
                &&& q.header.id == p.header.id
                &&& loses(filter, qname, path, p) <==> packet_acted_on(p, private) > 0
                &&& packet_acted_on(p, private) > 0 ==> !q.header.authed_data
                &&& packet_acted_on(p, private) == 0 ==> q.header == p.header
            }
            &&& forall|ip: IpAddr| #[trigger] private(ip) <==> filter.ranges.has(ip)
        }),
{
    found_entry_stands_for_it(filter.allowlist@, qname, qname);
    every_section_is_scrubbed(p, within(&filter.ranges));
}

/// A response that fits goes out as it is; one that is too long goes out cut,
/// and one that cannot be written as a server failure. It is logged with its own
/// outcome, or as a server failure in the last case.
pub proof fn replies_are_whole_cut_or_failed(p: PacketView, query: PacketView, filter_aaaa: bool)
    ensures
        ({
            let e = packet_emission(p);
            let r = reply_bytes(p, query, filter_aaaa);
            &&& e.bytes.len() <= BUF_SIZE && e.error is None ==> r == Ok::<Seq<u8>, WireError>(
                e.bytes,
            ) && logged_rescode(p) == p.header.rescode
            &&& e.bytes.len() > BUF_SIZE ==> r == written(
                packet_emission(truncated(p, query, filter_aaaa)),
            ) && logged_rescode(p) == p.header.rescode
            &&& e.bytes.len() <= BUF_SIZE && e.error is Some ==> r == written(
                packet_emission(failed(query, filter_aaaa)),
            ) && logged_rescode(p) is SERVFAIL
        }),
{
}

// ---------------------------------------------------------------------------
// Progress
// ---------------------------------------------------------------------------

/// An answer that is an alias, and not of the type asked for, leads to a lookup
/// of the name that it stands for, with nothing lost of what was found.
pub proof fn alias_leads_to_a_lookup(p: Progress, before: Resolution, ctx: &ServerCtx, i: int)
    requires
        advanced(p, before, ctx),
        before.answer.response@.header.rescode is NOERROR,
        forall|j: int|
            0 <= j < before.answer.response@.answers.len() ==> (
            #[trigger] before.answer.response@.answers[j]).data.qtype() != before.qtype,
        0 <= i < before.answer.response@.answers.len(),
        is_alias_for(before.answer.response@.answers[i], before.current@),
        forall|j: int|
            0 <= j < i ==> !is_alias_for(
                #[trigger] before.answer.response@.answers[j],
                before.current@,
            ),
        before.visited@.len() <= 8,
        !before.visited@.contains(
            ascii_lowercase(before.answer.response@.answers[i].data->Cname_host),
        ),
    ensures
        ({
            let target = before.answer.response@.answers[i].data->Cname_host;
            p matches Progress::Lookup(r, name) && name@ == target && r.current@ == target
                && r.visited@ == before.visited@.insert(ascii_lowercase(target)) && r.answer
                == before.answer && r.query == before.query && r.qname == before.qname && r.qtype
                == before.qtype
        }),
{
    alias_is_followed(
        before.answer.response@,
        before.qtype,
        before.visited@,
        before.current@,
        i,
    );
}

/// A response that leads no further is validated where that is switched on and
/// it was resolved from the root down, and stands as it is where not.
pub proof fn answer_is_validated_or_stands(p: Progress, before: Resolution, ctx: &ServerCtx)
    requires
        advanced(p, before, ctx),
        !(before.answer.response@.header.rescode is NOERROR) || (exists|j: int|
            0 <= j < before.answer.response@.answers.len() && (
            #[trigger] before.answer.response@.answers[j]).data.qtype() == before.qtype) || (forall|
            j: int,
        |
            0 <= j < before.answer.response@.answers.len() ==> !is_alias_for(
                #[trigger] before.answer.response@.answers[j],
                before.current@,
            )),
    ensures
        ctx.dnssec_enabled && before.answer.path is Recursive ==> p == Progress::Validate(before),
        !(ctx.dnssec_enabled && before.answer.path is Recursive) ==> p == Progress::Finish(before),
{
    answered_is_left(before.answer.response@, before.qtype, before.visited@, before.current@);
}

/// What is found for an alias goes behind what there was, and its outcome is the
/// outcome of the whole. The rest of the response stays as it was, and so does
/// the way of the first answer; how the upstream was reached is told by the
/// first that was asked.
pub proof fn found_goes_behind_the_alias(
    r: Resolution,
    before: Resolution,
    found: PacketView,
    upstream: Option<UpstreamTransport>,
)
    requires
        joined_with(r, before, found, upstream),
    ensures
        ({
            let a = before.answer.response@;
            let b = r.answer.response@;
            &&& b.answers == a.answers + found.answers
            &&& b.header.rescode == found.header.rescode
            &&& b.header.id == a.header.id
            &&& b.header.authed_data == a.header.authed_data
            &&& b.header.recursion_desired == a.header.recursion_desired
            &&& b.header.recursion_available == a.header.recursion_available
            &&& b.header.response == a.header.response
            &&& b.header.truncated_message == a.header.truncated_message
            &&& b.questions == a.questions
            &&& b.authorities == a.authorities
            &&& b.resources == a.resources
            &&& b.edns == a.edns
        }),
        r.answer.path == before.answer.path,
        r.answer.dnssec == before.answer.dnssec,
        before.answer.upstream is Some ==> r.answer.upstream == before.answer.upstream,
        before.answer.upstream is None ==> r.answer.upstream == upstream,
        r.query == before.query,
        r.qname == before.qname,
        r.qtype == before.qtype,
        r.current == before.current,
        r.visited == before.visited,
{
}

/// A resolution starts with its first answer, at the name that was asked for,
/// with nothing else visited.
pub proof fn resolution_starts_at_its_name(
    r: Resolution,
    o: Opening,
    response: PacketView,
    path: QueryPath,
    other: Seq<char>,
)
    requires
        begun(r, o, response, path),
    ensures
        r.query == o.query,
        r.qname@ == o.qname@,
        r.qtype == o.qtype,
        r.current@ == o.qname@,
        r.answer.response@ == response,
        r.answer.path == path,
        r.visited@.contains(other) <==> other == ascii_lowercase(o.qname@),
{
}

/// What goes out for a question is its answer without private addresses, in the
/// form for the client; a loss of addresses is noted as it happened.
pub proof fn outgoing_is_scrubbed_and_shaped(r: Resolution, ctx: &ServerCtx)
    ensures
        r.outgoing(ctx) == shaped(
            after_rebind(&ctx.rebind, r.qname@, r.answer.path, r.answer.response@),
            r.query@,
            ctx.filter_aaaa,
        ),
        r.stripped(ctx) == loses(&ctx.rebind, r.qname@, r.answer.path, r.answer.response@),
{
}

/// A query asks one question and for recursion, under an id, and says nothing
/// else.
pub proof fn query_asks_one_question(id: u16, name: Seq<char>, qtype: QueryType)
    ensures
        ({
            let q = DnsPacket::query_view(id, name, qtype);
            &&& q.header.id == id
            &&& q.header.recursion_desired
            &&& !q.header.response
            &&& q.header.opcode == 0
            &&& q.header.rescode is NOERROR
            &&& !q.header.truncated_message
            &&& !q.header.authoritative_answer
            &&& !q.header.checking_disabled
            &&& !q.header.authed_data
            &&& !q.header.z
            &&& !q.header.recursion_available
            &&& q.questions == seq![QuestionView { name, qtype }]
            &&& q.answers.len() == 0
            &&& q.authorities.len() == 0
            &&& q.resources.len() == 0
            &&& q.edns is None
        }),
{
}

/// A response to a query is the server's own, with an outcome and no answers.
pub proof fn response_answers_its_query(query: PacketView, rescode: ResultCode)
    ensures
        answers_query(DnsPacket::response_view(query, rescode), query, rescode, Seq::empty()),
{
}

/// A message is read as it came, with zeros behind it.
pub proof fn messages_are_filled_up(data: Seq<u8>, i: int)
    requires
        0 <= i < BUF_SIZE,
    ensures
        padded(data).len() == BUF_SIZE,
        i < data.len() ==> padded(data)[i] == data[i],
        i >= data.len() ==> padded(data)[i] == 0,
{
}

} // verus!
