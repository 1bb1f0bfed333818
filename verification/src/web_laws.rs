//! What requests of the web come to: which service a request reaches, which
//! requests for names are let in, and how long answers and keys are kept.
use vstd::prelude::*;
use vstd::utf8::{decode_utf8, valid_utf8};

use crate::buffer::BUF_SIZE;
use crate::ctx::ServerCtx;
use crate::doh::{
    answers_with, base64url, dns_param, doh_client, doh_host, format_error, min_ttl, portless,
    symbol, HttpAnswer,
};
use crate::layout_laws::ttls_of_a_message;
use crate::net::{v4_bits, IpAddr, Ipv4Addr, SocketAddr};
use crate::odoh::{
    directive_age, first_age, keyed, odoh_configs, odoh_key_id, preview, reply_ttl, target_key,
    OdohConfigCache, OdohTargetConfig,
};
use crate::packet::{packet_emission, PacketView};
use crate::pp2::{proxy_v2_header, PpConfig};
use crate::pp2_udp::{shifted, UdpPp};
use crate::proxy::{
    blocked_page, goes_to, proxied, request_host, unknown_page, ProxyStep,
};
use crate::relay::{content_type_is, hostname, refusal};
use crate::runtime::{datagram_kind, datagram_stats};
use crate::service_store::{best_route, handed_on, route_covers, ServiceView};
use crate::stats::ServerStats;
use crate::tcp::framed;
use crate::text::{
    all_digits, decimal, has_prefix, has_suffix, is_digit, last_at, lowercase, occurs_at,
    split_parts, trimmed,
};
use crate::text_laws::{
    digits_give_the_number, last_place_is_greatest, numbers_are_read, parts_on_both_sides,
    prefix_and_rest, prefix_or_whole, rest_and_suffix, white_ends_are_trimmed, whole_is_one_part,
};
use crate::wire::{answer_ttls, least_is_least};

verus! {

// ---------------------------------------------------------------------------
// Routes
// ---------------------------------------------------------------------------

/// A route covers a request that is its path, or that goes on behind it with a
/// slash; where the path ends with a slash itself, it covers whatever follows.
/// It covers no request that does not start with it.
pub proof fn routes_cover_whole_segments(route: Seq<char>, rest: Seq<char>, request: Seq<char>)
    ensures
        route_covers(route, route + rest) <==> rest.len() == 0 || rest[0] == '/' || (route.len() > 0
            && route.last() == '/'),
        (forall|t: Seq<char>| request != #[trigger] (route + t)) ==> !route_covers(route, request),
{
    prefix_and_rest(route, rest);
    if rest.len() == 0 {
        assert(route + rest =~= route);
    } else {
        assert((route + rest)[route.len() as int] == rest[0]);
        assert((route + rest).len() != route.len());
    }
    if forall|t: Seq<char>| request != #[trigger] (route + t) {
        prefix_or_whole(request, route);
        assert(route + Seq::<char>::empty() =~= route);
    }
}

/// A request to a service goes to the port of its longest route that covers the
/// path, the last of several that are as long. A route that strips takes its own
/// path off, and what is left starts with a slash; any other hands the path on
/// as it is.
pub proof fn longest_route_is_taken(
    s: ServiceView,
    i: int,
    rest: Seq<char>,
    port: u16,
    out: Seq<char>,
)
    requires
        0 <= i < s.routes.len(),
        route_covers(s.routes[i].path, s.routes[i].path + rest),
        forall|j: int|
            #![trigger s.routes[j]]
            0 <= j < s.routes.len() && route_covers(s.routes[j].path, s.routes[i].path + rest)
                ==> s.routes[j].path.len() < s.routes[i].path.len() || (s.routes[j].path.len()
                == s.routes[i].path.len() && j <= i),
        goes_to(s, s.routes[i].path + rest, port, out),
    ensures
        port == s.routes[i].port,
        !s.routes[i].strip ==> out == s.routes[i].path + rest,
        s.routes[i].strip && rest.len() > 0 && rest[0] == '/' ==> out == rest,
        s.routes[i].strip && (rest.len() == 0 || rest[0] != '/') ==> out == seq!['/'] + rest,
{
    let request = s.routes[i].path + rest;
    assert(best_route(s.routes, request, i));
    let k = choose|k: int|
        #[trigger] best_route(s.routes, request, k) && port == s.routes[k].port && out == handed_on(
            s.routes[k],
            request,
        );
    assert(k == i) by {
        assert(route_covers(s.routes[k].path, request));
        assert(route_covers(s.routes[i].path, request));
    }
    let path = s.routes[i].path;
    assert(request.subrange(path.len() as int, request.len() as int) =~= rest);
    reveal_strlit("/");
    assert("/"@ =~= seq!['/']);
}

/// A request that no route of a service covers goes to the service's own port,
/// as it is.
pub proof fn other_requests_go_to_the_service(
    s: ServiceView,
    request: Seq<char>,
    port: u16,
    out: Seq<char>,
)
    requires
        forall|j: int| #![trigger s.routes[j]]
            0 <= j < s.routes.len() ==> !route_covers(s.routes[j].path, request),
        goes_to(s, request, port, out),
    ensures
        port == s.target_port,
        out == request,
{
    if exists|i: int| best_route(s.routes, request, i) {
        let i = choose|i: int| best_route(s.routes, request, i);
        assert(!route_covers(s.routes[i].path, request));
    }
}

// ---------------------------------------------------------------------------
// The proxy
// ---------------------------------------------------------------------------

/// The host of a request is what its header says before a colon, in lower case.
pub proof fn host_without_its_port(host: Seq<char>, port: Seq<char>)
    requires
        !host.contains(':'),
    ensures
        request_host(Some(host)) == Some(lowercase(host)),
        request_host(Some(host + seq![':'] + port)) == Some(lowercase(host)),
        request_host(None) is None,
{
    whole_is_one_part(host, ':');
    parts_on_both_sides(host, port, ':');
}

/// A request without a host is refused. One for a host outside of the proxy's
/// domain gets a page where the host is blocked, and is an error where it is
/// not.
pub proof fn foreign_hosts_are_refused(
    ctx: &ServerCtx,
    host: Seq<char>,
    path: Seq<char>,
    query: Option<Seq<char>>,
    peer: Option<(Seq<char>, u16)>,
    r: ProxyStep,
    none: ProxyStep,
)
    requires
        !host.contains(':'),
        !has_suffix(lowercase(host), ctx.proxy_tld_suffix@),
        proxied(ctx, Some(host), path, query, peer, r),
        proxied(ctx, None, path, query, peer, none),
    ensures
        none matches ProxyStep::Text(400, _),
        ctx.blocklist.verdict(lowercase(host)).blocked ==> (r matches ProxyStep::Page(403, t) && t@
            == blocked_page(lowercase(host))),
        !ctx.blocklist.verdict(lowercase(host)).blocked ==> (r matches ProxyStep::Text(502, _)),
{
    host_without_its_port(host, host);
}

/// A request for a registered service goes to that service's host, this one
/// unless another is given, at the port and with the path that its routes say,
/// and with the query of the request.
pub proof fn services_are_reached(
    ctx: &ServerCtx,
    host: Seq<char>,
    name: Seq<char>,
    path: Seq<char>,
    query: Option<Seq<char>>,
    peer: Option<(Seq<char>, u16)>,
    r: ProxyStep,
)
    requires
        !host.contains(':'),
        lowercase(host) == name + ctx.proxy_tld_suffix@,
        ctx.services@.services.contains_key(lowercase(name)),
        proxied(ctx, Some(host), path, query, peer, r),
    ensures
        ({
            let s = ctx.services@.services[lowercase(name)];
            let to = match s.target_host {
                Some(h) => h,
                None => "localhost"@,
            };
            let tail = match query {
                Some(q) => seq!['?'] + q,
                None => Seq::empty(),
            };
            r matches ProxyStep::Forward(uri) && exists|port: u16, out: Seq<char>|
                #[trigger] goes_to(s, path, port, out) && uri@ == "http://"@ + to + seq![':']
                    + decimal(port as nat) + out + tail
        }),
{
    host_without_its_port(host, host);
    rest_and_suffix(name, ctx.proxy_tld_suffix@);
    reveal_strlit(":");
    reveal_strlit("?");
    assert(":"@ =~= seq![':']);
    assert("?"@ =~= seq!['?']);
}

/// A request for a service that is not registered here goes to the peer that
/// has it, with path and query as they are, and is not found where none has.
pub proof fn peers_are_reached(
    ctx: &ServerCtx,
    host: Seq<char>,
    name: Seq<char>,
    path: Seq<char>,
    query: Option<Seq<char>>,
    ip: Seq<char>,
    port: u16,
    r: ProxyStep,
    none: ProxyStep,
)
    requires
        !host.contains(':'),
        lowercase(host) == name + ctx.proxy_tld_suffix@,
        !ctx.services@.services.contains_key(lowercase(name)),
        proxied(ctx, Some(host), path, query, Some((ip, port)), r),
        proxied(ctx, Some(host), path, query, None, none),
    ensures
        r matches ProxyStep::Forward(uri) && uri@ == "http://"@ + ip + seq![':'] + decimal(
            port as nat,
        ) + path + (match query {
            Some(q) => seq!['?'] + q,
            None => Seq::empty(),
        }),
        none matches ProxyStep::Page(404, t) && t@ == unknown_page(name, ctx.proxy_tld_suffix@),
{
    host_without_its_port(host, host);
    rest_and_suffix(name, ctx.proxy_tld_suffix@);
    reveal_strlit(":");
    reveal_strlit("?");
    assert(":"@ =~= seq![':']);
    assert("?"@ =~= seq!['?']);
}

// ---------------------------------------------------------------------------
// Names over HTTPS
// ---------------------------------------------------------------------------

/// What stands behind the only colon of a host does not count as part of it
/// where it is all digits; where it is not, the host is taken as it is.
pub proof fn port_is_left_off(host: Seq<char>, port: Seq<char>)
    requires
        !host.contains(':'),
        !port.contains(':'),
        host.len() == 0 || host[0] != '[',
    ensures
        (forall|i: int| 0 <= i < port.len() ==> '0' <= (#[trigger] port[i]) && port[i] <= '9')
            ==> portless(host + seq![':'] + port) == Some(host),
        (exists|i: int|
            0 <= i < port.len() && !('0' <= (#[trigger] port[i]) && port[i] <= '9')) ==> portless(
            host + seq![':'] + port,
        ) is None,
        portless(host) is None,
{
    let s = host + seq![':'] + port;
    whole_is_one_part(host, ':');
    whole_is_one_part(port, ':');
    parts_on_both_sides(host, port, ':');
    if host.len() > 0 {
        assert(s[0] == host[0]);
    }
    assert(split_parts(s, ':') =~= seq![host, port]);
    if forall|i: int| 0 <= i < port.len() ==> '0' <= (#[trigger] port[i]) && port[i] <= '9' {
        assert(all_digits(port));
    }
    if exists|i: int| 0 <= i < port.len() && !('0' <= (#[trigger] port[i]) && port[i] <= '9') {
        let i = choose|i: int|
            0 <= i < port.len() && !('0' <= (#[trigger] port[i]) && port[i] <= '9');
        assert(!is_digit(port[i]));
    }
}

/// A port behind an address in brackets does not count as part of it.
pub proof fn port_behind_brackets_is_left_off(inner: Seq<char>, port: Seq<char>)
    requires
        forall|i: int| 0 <= i < port.len() ==> '0' <= (#[trigger] port[i]) && port[i] <= '9',
    ensures
        portless(seq!['['] + inner + seq![']', ':'] + port) == Some(seq!['['] + inner + seq![']']),
{
    let h = seq!['['] + inner + seq![']', ':'] + port;
    let end = seq![']', ':'];
    let at = inner.len() as int + 1;
    assert(h.subrange(at, at + 2) =~= end);
    assert(occurs_at(h, end, at));
    last_place_is_greatest(h, end, h.len() as int);
    let i = last_at(h, end, h.len() as int);
    assert(i >= at);
    if i > at {
        assert(h.subrange(i, i + 2)[0] == end[0]);
        assert(h[i] == ']');
        if i >= at + 2 {
            assert(port[i - at - 2] == ']');
        }
    }
    assert(h.subrange(at + 2, h.len() as int) =~= port);
    assert(all_digits(port));
    assert(h.subrange(0, at + 1) =~= seq!['['] + inner + seq![']']);
}

/// Names are resolved for requests to this machine, by its names and addresses,
/// and to the proxy's own domain, with a port or without, and for no others.
pub proof fn hosts_that_resolve(host: Seq<char>, base: Seq<char>, tld: Seq<char>)
    requires
        portless(host) == Some(base) || (portless(host) is None && base == host),
    ensures
        doh_host(Some(host), tld) <==> {
            ||| base == "localhost"@
            ||| base == "127.0.0.1"@
            ||| base == "::1"@
            ||| base == "[::1]"@
            ||| base == tld
            ||| base == tld + seq!['.'] + tld
        },
        !doh_host(None, tld),
{
    reveal_strlit(".");
    assert("."@ =~= seq!['.']);
}

/// A request to another host is not found. Where it is not known who asks, the
/// request is refused if only some may ask, and else taken as one from this
/// machine. Where it is known, it is refused to those who may not ask.
pub proof fn clients_that_resolve(ctx: &ServerCtx, remote: SocketAddr, host: Option<Seq<char>>)
    ensures
        !doh_host(host, ctx.proxy_tld@) ==> doh_client(ctx, Some(remote), host) == Err::<
            SocketAddr,
            u16,
        >(404) && doh_client(ctx, None, host) == Err::<SocketAddr, u16>(404),
        doh_host(host, ctx.proxy_tld@) ==> {
            &&& ctx.allow_from.permits(remote.ip) ==> doh_client(ctx, Some(remote), host) == Ok::<
                SocketAddr,
                u16,
            >(remote)
            &&& !ctx.allow_from.permits(remote.ip) ==> doh_client(ctx, Some(remote), host) == Err::<
                SocketAddr,
                u16,
            >(403)
            &&& ctx.allow_from.matcher.include_nets@.len() > 0 ==> doh_client(ctx, None, host)
                == Err::<SocketAddr, u16>(403)
            &&& ctx.allow_from.matcher.include_nets@.len() == 0 ==> doh_client(ctx, None, host)
                == Ok::<SocketAddr, u16>(
                SocketAddr {
                    ip: IpAddr::V4(Ipv4Addr { bits: v4_bits(127, 0, 0, 1) }),
                    port: 0,
                    scope: 0,
                },
            )
        },
{
}

/// The message of a request is what stands behind `dns=` in the first pair of
/// the query that starts so; any pair before it is passed over.
pub proof fn message_is_the_first_given(pair: Seq<char>, value: Seq<char>, rest: Seq<char>)
    requires
        !pair.contains('&'),
        !value.contains('&'),
        !has_prefix(pair, "dns="@),
    ensures
        dns_param(None).len() == 0,
        dns_param(Some("dns="@ + value)) == value,
        dns_param(Some("dns="@ + value + seq!['&'] + rest)) == value,
        dns_param(Some(pair)).len() == 0,
        dns_param(Some(pair + seq!['&'] + rest)) == dns_param(Some(rest)),
{
    reveal_strlit("dns=");
    let own = "dns="@ + value;
    prefix_and_rest("dns="@, value);
    assert(!own.contains('&')) by {
        if own.contains('&') {
            let i = choose|i: int| 0 <= i < own.len() && own[i] == '&';
            if i >= 4 {
                assert(value[i - 4] == '&');
            }
        }
    }
    whole_is_one_part(own, '&');
    parts_on_both_sides(own, rest, '&');
    whole_is_one_part(pair, '&');
    parts_on_both_sides(pair, rest, '&');
    assert(split_parts(pair, '&').drop_first() =~= Seq::<Seq<char>>::empty());
    assert(crate::doh::dns_value(Seq::<Seq<char>>::empty()).len() == 0);
    let both = split_parts(pair + seq!['&'] + rest, '&');
    assert(both[0] == pair);
    assert(both.drop_first() =~= split_parts(rest, '&'));
    let first = split_parts(own + seq!['&'] + rest, '&');
    assert(first[0] == own);
    assert("dns="@ + value + seq!['&'] + rest =~= own + seq!['&'] + rest);
}

/// A response is kept as long as the record of it that lives shortest, and not
/// at all where it has no records or they cannot be made out.
pub proof fn kept_as_long_as_the_shortest(wire: Seq<u8>)
    ensures
        answer_ttls(wire) is None ==> min_ttl(wire) == 0,
        answer_ttls(wire) matches Some(t) ==> {
            &&& t.len() == 0 ==> min_ttl(wire) == 0
            &&& t.len() > 0 ==> t.contains(min_ttl(wire))
            &&& forall|i: int| 0 <= i < t.len() ==> min_ttl(wire) <= #[trigger] t[i]
        },
{
    if let Some(t) = answer_ttls(wire) {
        if t.len() > 0 {
            least_is_least(t);
        }
    }
}

/// What cannot be read is answered as such, under the id that it starts with.
pub proof fn unreadable_is_a_format_error(a: u8, b: u8, rest: Seq<u8>)
    ensures
        ({
            let p = format_error(seq![a, b] + rest);
            &&& p.header.id == a * 0x100 + b
            &&& p.header.response
            &&& p.header.rescode is FORMERR
            &&& !p.header.recursion_available
            &&& p.questions.len() == 0
            &&& p.answers.len() == 0
            &&& p.authorities.len() == 0
            &&& p.resources.len() == 0
            &&& p.edns is None
        }),
        format_error(seq![a]).header.id == a * 0x100,
        format_error(Seq::empty()).header.id == 0,
{
    let w = seq![a, b] + rest;
    assert(w[0] == a && w[1] == b);
}

/// The symbols of six bits each: the capital letters, the small ones, the digits,
/// a hyphen and an underscore.
pub proof fn symbols_of_six_bits(n: int)
    requires
        0 <= n < 64,
    ensures
        symbol(n)
            == "ABCDEFGHIJKLMNOPQRSTUVWXYZabcdefghijklmnopqrstuvwxyz0123456789-_"@[n],
{
    reveal_strlit("ABCDEFGHIJKLMNOPQRSTUVWXYZabcdefghijklmnopqrstuvwxyz0123456789-_");
}

/// Three bytes are written in four symbols of six bits, two in three symbols and
/// one in two, with zeros to fill up.
pub proof fn bytes_in_symbols(a: u8, b: u8, c: u8, w: int, x: int, y: int, z: int, rest: Seq<u8>)
    requires
        0 <= w < 64 && 0 <= x < 64 && 0 <= y < 64 && 0 <= z < 64,
    ensures
        a * 0x1_0000 + b * 0x100 + c == w * 0x4_0000 + x * 0x1000 + y * 0x40 + z ==> base64url(
            seq![a, b, c] + rest,
        ) == seq![symbol(w), symbol(x), symbol(y), symbol(z)] + base64url(rest),
        (a * 0x100 + b) * 4 == w * 0x1000 + x * 0x40 + y ==> base64url(seq![a, b]) == seq![
            symbol(w),
            symbol(x),
            symbol(y),
        ],
        a * 16 == w * 0x40 + x ==> base64url(seq![a]) == seq![symbol(w), symbol(x)],
        base64url(Seq::empty()) == Seq::<char>::empty(),
{
    let s = seq![a, b, c] + rest;
    assert(s.subrange(3, s.len() as int) =~= rest);
    assert(s[0] == a && s[1] == b && s[2] == c);
    if a * 0x1_0000 + b * 0x100 + c == w * 0x4_0000 + x * 0x1000 + y * 0x40 + z {
        assert(a as int / 4 == w);
        assert(a % 4 * 16 + b / 16 == x);
        assert(b % 16 * 4 + c / 64 == y);
        assert(c as int % 64 == z);
    }
    if (a * 0x100 + b) * 4 == w * 0x1000 + x * 0x40 + y {
        assert(a as int / 4 == w);
        assert(a % 4 * 16 + b / 16 == x);
        assert(b % 16 * 4 == y);
    }
    if a * 16 == w * 0x40 + x {
        assert(a as int / 4 == w);
        assert(a % 4 * 16 == x);
    }
}

/// A message over TCP goes behind its length in two bytes, the high one first.
pub proof fn messages_are_framed(msg: Seq<u8>, a: u8, b: u8)
    requires
        msg.len() == a * 0x100 + b,
    ensures
        framed(msg) == seq![a, b] + msg,
{
    assert(framed(msg) =~= seq![a, b] + msg);
}

// ---------------------------------------------------------------------------
// The relay
// ---------------------------------------------------------------------------

/// The type of a request's content is what its header says before a semicolon,
/// without white space round it.
pub proof fn content_type_without_parameters(kind: Seq<char>, rest: Seq<char>, expected: Seq<char>)
    requires
        !kind.contains(';'),
    ensures
        content_type_is(Some(kind), expected) <==> trimmed(kind) == expected,
        content_type_is(Some(kind + seq![';'] + rest), expected) <==> trimmed(kind) == expected,
        !content_type_is(None, expected),
{
    whole_is_one_part(kind, ';');
    parts_on_both_sides(kind, rest, ';');
}

/// A host that a request may be passed on to has a name of at most 253 letters,
/// digits, dots and hyphens, with a dot in it, and with neither a dot nor a
/// hyphen at its ends.
pub proof fn hosts_to_pass_on_to(h: Seq<char>)
    ensures
        hostname(h) <==> {
            &&& h.len() <= 253
            &&& h.contains('.')
            &&& !(h[0] == '.' || h[0] == '-' || h[h.len() - 1] == '.' || h[h.len() - 1] == '-')
            &&& forall|i: int|
                0 <= i < h.len() ==> {
                    ||| 'a' <= (#[trigger] h[i]) && h[i] <= 'z'
                    ||| 'A' <= h[i] && h[i] <= 'Z'
                    ||| '0' <= h[i] && h[i] <= '9'
                    ||| h[i] == '.'
                    ||| h[i] == '-'
                }
        },
{
}

/// A request is passed on where its content is an oblivious message of at most
/// 4096 bytes, for a host that may be passed on to and a path that starts with a
/// slash. It is refused for the first of these that does not hold.
pub proof fn requests_to_pass_on(
    kind: Option<Seq<char>>,
    len: usize,
    host: Seq<char>,
    path: Seq<char>,
)
    ensures
        ({
            let typed = content_type_is(kind, "application/oblivious-dns-message"@);
            let short = len <= 4096;
            let aimed = hostname(host) && path.len() > 0 && path[0] == '/';
            let r = refusal(kind, len, host, path);
            &&& r is None <==> typed && short && aimed
            &&& r matches Some((code, _)) ==> {
                &&& code == 415 <==> !typed
                &&& code == 413 <==> typed && !short
                &&& code == 400 <==> typed && short && !aimed
            }
        }),
{
    reveal_strlit("/");
    prefix_or_whole(path, "/"@);
    if has_prefix(path, "/"@) {
        assert(path.subrange(0, 1)[0] == "/"@[0]);
    }
    if path.len() > 0 && path[0] == '/' {
        assert(path.subrange(0, 1) =~= "/"@);
    }
}

// ---------------------------------------------------------------------------
// Keys of oblivious targets
// ---------------------------------------------------------------------------

/// A directive that starts with `max-age=` and goes on with a number of seconds
/// that is not zero says how long a key is kept.
pub proof fn directive_says_how_long(n: nat, other: Seq<char>)
    ensures
        0 < n <= u64::MAX ==> directive_age("max-age="@ + decimal(n)) == Some(n as u64),
        n == 0 || n > u64::MAX ==> directive_age("max-age="@ + decimal(n)) is None,
        !has_prefix(trimmed(other), "max-age="@) ==> directive_age(other) is None,
{
    reveal_strlit("max-age=");
    let e = Seq::<char>::empty();
    let d = decimal(n);
    let s = "max-age="@ + d;
    digits_give_the_number(n);
    numbers_are_read(n, d);
    assert(decimal(n)[d.len() - 1] <= '9' && '0' <= decimal(n)[d.len() - 1]);
    assert('0' <= decimal(n)[0]);
    assert(s[s.len() - 1] == d[d.len() - 1]);
    assert(s[0] == 'm');
    white_ends_are_trimmed(e, s, e);
    assert(e + s + e =~= s);
    white_ends_are_trimmed(e, d, e);
    assert(e + d + e =~= d);
    prefix_and_rest("max-age="@, d);
}

/// A key is kept as long as the first directive with an age says, a week at
/// most, and a day where none says so.
pub proof fn keys_are_kept_for_a_week_at_most(ds: Seq<Seq<char>>, i: int, header: Seq<char>, n: u64)
    requires
        split_parts(header, ',') == ds,
        0 <= i <= ds.len(),
        forall|j: int| 0 <= j < i ==> directive_age(#[trigger] ds[j]) is None,
        i < ds.len() ==> directive_age(ds[i]) == Some(n),
    ensures
        i < ds.len() ==> reply_ttl(Some(header)) == (if n < 604_800 {
            n * 1000
        } else {
            604_800_000
        }),
        i == ds.len() ==> reply_ttl(Some(header)) == 86_400_000,
        reply_ttl(None) == 86_400_000,
{
    first_age_is(ds, i, n);
}

proof fn first_age_is(ds: Seq<Seq<char>>, i: int, n: u64)
    requires
        0 <= i <= ds.len(),
        forall|j: int| 0 <= j < i ==> directive_age(#[trigger] ds[j]) is None,
        i < ds.len() ==> directive_age(ds[i]) == Some(n),
    ensures
        first_age(ds) == (if i < ds.len() {
            Some(n)
        } else {
            None
        }),
    decreases ds.len(),
{
    if ds.len() > 0 && i > 0 {
        let rest = ds.drop_first();
        assert(directive_age(ds[0]) is None);
        assert forall|j: int| 0 <= j < i - 1 implies directive_age(#[trigger] rest[j]) is None by {
            assert(rest[j] == ds[j + 1]);
        }
        if i < ds.len() {
            assert(rest[i - 1] == ds[i]);
        }
        first_age_is(rest, i - 1, n);
    }
}

/// A key is good until it expires, which is the time that was allowed after it
/// came, and a week after at most.
pub proof fn keys_expire(
    r: Result<OdohTargetConfig, String>,
    body: Seq<u8>,
    ttl: u64,
    now: u64,
    cache: OdohConfigCache,
    later: u64,
)
    requires
        keyed(r, body, ttl, now),
        r matches Ok(c) && cache.current == Some(c),
    ensures
        cache.fresh(later) <==> later < now + (if ttl < 604_800_000 {
            ttl as int
        } else {
            604_800_000
        }),
        !(OdohConfigCache { current: None, ..cache }).fresh(later),
{
}

// ---------------------------------------------------------------------------
// Datagrams with a proxy header
// ---------------------------------------------------------------------------

/// Where no proxies are configured a datagram is bare. Where they are, one that
/// does not come from them, or has no header, is dropped; any other comes from
/// the source that its header names, or from its sender where it names none, and
/// its header is left off. Each is counted for what it was.
pub proof fn datagrams_by_their_header(
    bytes: Seq<u8>,
    peer: SocketAddr,
    pp: &PpConfig,
    s: ServerStats,
)
    requires
        s.proxy_v2_accepted < u64::MAX,
        s.proxy_v2_rejected_untrusted < u64::MAX,
        s.proxy_v2_rejected_signature < u64::MAX,
        s.proxy_v2_local_command < u64::MAX,
    ensures
        ({
            let kind = datagram_kind(bytes, peer, Some(pp));
            let t = datagram_stats(s, bytes, peer, Some(pp));
            let trusted = exists|i: int|
                0 <= i < pp.from@.len() && (#[trigger] pp.from@[i]).has(peer.ip);
            &&& datagram_kind(bytes, peer, None) is Bare
            &&& datagram_stats(s, bytes, peer, None) == s
            &&& !trusted ==> kind is Drop && t == (ServerStats {
                proxy_v2_rejected_untrusted: (s.proxy_v2_rejected_untrusted + 1) as u64,
                ..s
            })
            &&& trusted ==> match proxy_v2_header(bytes) {
                None => kind is Drop && t == (ServerStats {
                    proxy_v2_rejected_signature: (s.proxy_v2_rejected_signature + 1) as u64,
                    ..s
                }),
                Some((Some(src), n)) => kind == (UdpPp::Proxied {
                    src,
                    hdr_len: n as usize,
                    local_command: false,
                }) && t == (ServerStats {
                    proxy_v2_accepted: (s.proxy_v2_accepted + 1) as u64,
                    ..s
                }),
                Some((None, n)) => kind == (UdpPp::Proxied {
                    src: peer,
                    hdr_len: n as usize,
                    local_command: true,
                }) && t == (ServerStats {
                    proxy_v2_local_command: (s.proxy_v2_local_command + 1) as u64,
                    ..s
                }),
            }
        }),
{
}

/// A response of this server is kept as long as the answer in it that lives
/// shortest.
pub proof fn own_response_is_kept_as_long(p: PacketView, i: int)
    requires
        packet_emission(p).error is None,
        packet_emission(p).bytes.len() <= BUF_SIZE,
        0 <= i < p.answers.len(),
    ensures
        min_ttl(packet_emission(p).bytes) <= p.answers[i].ttl,
        exists|j: int|
            0 <= j < p.answers.len() && (#[trigger] p.answers[j]).ttl == min_ttl(
                packet_emission(p).bytes,
            ),
{
    ttls_of_a_message(p);
    let t = Seq::new(p.answers.len(), |i: int| p.answers[i].ttl);
    least_is_least(t);
    assert(t[i] == p.answers[i].ttl);
    let j = choose|j: int| 0 <= j < t.len() && t[j] == crate::wire::least(t);
    assert(p.answers[j].ttl == t[j]);
}

/// Behind a header that is left off, the bytes of a datagram stand at its start.
pub proof fn payload_moves_to_the_start(b: Seq<u8>, from: int, to: int)
    requires
        0 <= from <= to <= b.len(),
    ensures
        shifted(b, from, to).len() == b.len(),
        shifted(b, from, to).subrange(0, to - from) == b.subrange(from, to),
{
    assert(shifted(b, from, to).subrange(0, to - from) =~= b.subrange(from, to));
}

/// A key is not fetched again within a minute of a failure.
pub proof fn failures_are_not_repeated(cache: OdohConfigCache, now: u64)
    ensures
        cache.last_failure is None ==> !cache.backing_off(now),
        cache.last_failure matches Some(f) ==> (cache.backing_off(now) <==> now < f.at + 60_000),
{
}

/// The key of a target is the first that it publishes, with its identifier; a
/// target without one is of no use.
pub proof fn first_key_is_used(body: Seq<u8>, v: Seq<Seq<u8>>)
    requires
        odoh_configs(body) == Ok::<Seq<Seq<u8>>, Seq<char>>(v),
    ensures
        v.len() == 0 ==> target_key(body) is Err,
        v.len() > 0 ==> match odoh_key_id(v[0]) {
            Ok(id) => target_key(body) == Ok::<(Seq<u8>, Seq<u8>), Seq<char>>((v[0], id)),
            Err(_) => target_key(body) is Err,
        },
{
}

/// The body of a failure is shown up to 1024 bytes.
pub proof fn failures_are_shown_in_part(body: Seq<u8>)
    ensures
        body.len() <= 1024 && valid_utf8(body) ==> preview(body) == decode_utf8(body),
        body.len() > 1024 && valid_utf8(body.subrange(0, 1024)) ==> preview(body) == decode_utf8(
            body.subrange(0, 1024),
        ),
{
    assert(body.subrange(0, body.len() as int) =~= body);
}

/// A packet is answered in full, not to be kept, or as a failure of the server
/// where it cannot be written.
pub proof fn packets_are_answered_in_full(r: HttpAnswer, p: PacketView)
    requires
        answers_with(r, p),
    ensures
        ({
            let e = packet_emission(p);
            let fits = e.error is None && e.bytes.len() <= BUF_SIZE;
            &&& fits ==> (r matches HttpAnswer::Message { bytes, max_age } && bytes@ == e.bytes
                && max_age == 0)
            &&& !fits ==> r == HttpAnswer::Status(500)
        }),
{
}

} // verus!
