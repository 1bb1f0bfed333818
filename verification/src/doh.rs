//! DNS over HTTPS: which requests are taken, and what they are answered.
use base64::engine::general_purpose::URL_SAFE_NO_PAD;
use base64::Engine;
use vstd::prelude::*;

use crate::buffer::{be16, WireError};
use crate::ctx::{padded, ServerCtx};
use crate::emit::in_turn;
use crate::header::{bit, DnsHeader, ResultCode};
use crate::net::{IpAddr, Ipv4Addr, SocketAddr};
use crate::packet::{
    count16, packet_emission, packet_parts, packet_parts_are, packet_reading, DnsPacket, PacketView,
};
use crate::shape::{failed, shape_response_for_client, to_wire, written};
use crate::text::{
    all_digits, chars_of, concat, concat3, decimal, decimal_string, has_prefix, is_digit, last_at,
    rfind, split, split_parts, starts_with, str_eq, string_range, texts, without_prefix,
};
use crate::wire::{answer_ttls, least, scan_ttls, smallest};

verus! {

/// The longest message that is taken.
pub const MAX_DNS_MSG: usize = 4096;

/// The symbol of base64url for a number below 64.
pub open spec fn symbol(n: int) -> char {
    if n < 26 {
        ((65 + n) as u8) as char
    } else if n < 52 {
        ((71 + n) as u8) as char
    } else if n < 62 {
        ((n - 4) as u8) as char
    } else if n == 62 {
        '-'
    } else {
        '_'
    }
}

/// The text of base64url, without padding, for some bytes.
pub open spec fn base64url(b: Seq<u8>) -> Seq<char>
    decreases b.len(),
{
    if b.len() == 0 {
        Seq::empty()
    } else if b.len() == 1 {
        seq![symbol(b[0] as int / 4), symbol(b[0] % 4 * 16)]
    } else if b.len() == 2 {
        seq![symbol(b[0] as int / 4), symbol(b[0] % 4 * 16 + b[1] / 16), symbol(b[1] % 16 * 4)]
    } else {
        seq![
            symbol(b[0] as int / 4),
            symbol(b[0] % 4 * 16 + b[1] / 16),
            symbol(b[1] % 16 * 4 + b[2] / 64),
            symbol(b[2] as int % 64),
        ] + base64url(b.subrange(3, b.len() as int))
    }
}

/// `base64::Engine::decode` of the engine `URL_SAFE_NO_PAD`: the bytes whose
/// encoding is the text. It takes no padding, no other symbol and no bits left
/// over that are not zero, so a text that encodes no bytes gives none.
#[verifier::external_body]
fn decode_base64url(s: &str) -> (r: Option<Vec<u8>>)
    ensures
        match r {
            Some(b) => base64url(b@) == s@,
            None => forall|b: Seq<u8>| #[trigger] base64url(b) != s@,
        },
{
    URL_SAFE_NO_PAD.decode(s).ok()
}

/// What an HTTP request is answered.
#[derive(Debug)]
pub enum HttpAnswer {
    /// A status alone.
    Status(u16),
    /// A status with a text.
    Text(u16, &'static str),
    /// A message, and for how many seconds it may be kept.
    Message { bytes: Vec<u8>, max_age: u32 },
}

/// Whether a host is a loopback address or its name.
pub open spec fn loopback_host(h: Seq<char>) -> bool {
    h == "127.0.0.1"@ || h == "::1"@ || h == "[::1]"@ || h == "localhost"@
}

/// Whether a host is a loopback address or its name.
pub fn is_loopback_host(h: &str) -> (b: bool)
    ensures
        b == loopback_host(h@),
{
    str_eq(h, "127.0.0.1") || str_eq(h, "::1") || str_eq(h, "[::1]") || str_eq(h, "localhost")
}

/// Whether a host is the proxy's domain, or the name of that under itself.
pub open spec fn tld_host(h: Seq<char>, tld: Seq<char>) -> bool {
    h == tld || h == tld + "."@ + tld
}

/// Whether a host is the proxy's domain, or the name of that under itself.
pub fn is_tld_match(h: &str, tld: &str) -> (b: bool)
    ensures
        b == tld_host(h@, tld@),
{
    str_eq(h, tld) || str_eq(h, concat3(tld, ".", tld).as_str())
}

/// A host without its port, if it has one: digits, or nothing, after the colon.
/// An IPv6 address has a port only behind brackets.
pub open spec fn portless(h: Seq<char>) -> Option<Seq<char>> {
    if h.len() > 0 && h[0] == '[' {
        let i = last_at(h, seq![']', ':'], h.len() as int);
        if i >= 0 && all_digits(h.subrange(i + 2, h.len() as int)) {
            Some(h.subrange(0, i + 1))
        } else {
            None
        }
    } else {
        let parts = split_parts(h, ':');
        if parts.len() == 2 && all_digits(parts[1]) {
            Some(parts[0])
        } else {
            None
        }
    }
}

fn only_digits(s: &str) -> (b: bool)
    ensures
        b == all_digits(s@),
{
    let x = chars_of(s);
    let mut i: usize = 0;
    while i < x.len()
        invariant
            i <= x.len(),
            x@ == s@,
            forall|j: int| 0 <= j < i ==> is_digit(#[trigger] s@[j]),
        decreases x.len() - i,
    {
        if !('0' <= x[i] && x[i] <= '9') {
            assert(!is_digit(s@[i as int]));
            return false;
        }
        i += 1;
    }
    true
}

/// A host without its port, if it has one.
pub fn strip_port(h: &str) -> (r: Option<String>)
    ensures
        portless(h@) == (match r {
            Some(s) => Some(s@),
            None => None,
        }),
{
    let x = chars_of(h);
    if x.len() > 0 && x[0] == '[' {
        let mark: [char; 2] = [']', ':'];
        assert(mark@ =~= seq![']', ':']);
        match rfind(x.as_slice(), mark.as_slice()) {
            None => None,
            Some(i) => {
                let port = string_range(x.as_slice(), i + 2, x.len());
                if only_digits(port.as_str()) {
                    Some(string_range(x.as_slice(), 0, i + 1))
                } else {
                    None
                }
            },
        }
    } else {
        let parts = split(h, ':');
        assert(texts(parts@).len() == parts@.len());
        if parts.len() == 2 && only_digits(parts[1].as_str()) {
            assert(texts(parts@)[0] == parts@[0]@);
            assert(texts(parts@)[1] == parts@[1]@);
            Some(parts[0].clone())
        } else {
            None
        }
    }
}

/// Whether a request for a host is one for DNS: for a loopback address, or for
/// the proxy's domain itself, with a port or without.
pub open spec fn doh_host(host: Option<Seq<char>>, tld: Seq<char>) -> bool {
    match host {
        None => false,
        Some(h) => {
            let base = match portless(h) {
                Some(b) => b,
                None => h,
            };
            loopback_host(base) || tld_host(base, tld)
        },
    }
}

/// Whether a request for a host is one for DNS.
pub fn is_doh_host(host: Option<&str>, tld: &str) -> (b: bool)
    ensures
        b == doh_host(
            match host {
                Some(h) => Some(h@),
                None => None,
            },
            tld@,
        ),
{
    match host {
        None => false,
        Some(h) => {
            let base = match strip_port(h) {
                Some(b) => b,
                None => h.to_owned(),
            };
            is_loopback_host(base.as_str()) || is_tld_match(base.as_str(), tld)
        },
    }
}

/// The text of a host, if there is one.
pub open spec fn host_text(host: Option<&str>) -> Option<Seq<char>> {
    match host {
        Some(h) => Some(h@),
        None => None,
    }
}

/// The client of a request that is taken, or the status of a refusal: not found
/// where the host is not for DNS, and forbidden where the client may not ask or
/// is not known and clients are restricted.
pub open spec fn doh_client(
    ctx: &ServerCtx,
    remote: Option<SocketAddr>,
    host: Option<Seq<char>>,
) -> Result<SocketAddr, u16> {
    if !doh_host(host, ctx.proxy_tld@) {
        Err(404)
    } else {
        match remote {
            None => if ctx.allow_from.enabled() {
                Err(403)
            } else {
                Ok(SocketAddr { ip: IpAddr::V4(Ipv4Addr { bits: 0x7f00_0001 }), port: 0, scope: 0 })
            },
            Some(a) => if ctx.allow_from.permits(a.ip) {
                Ok(a)
            } else {
                Err(403)
            },
        }
    }
}

/// The client of a request that is taken, or the status of a refusal.
pub fn doh_validate(ctx: &ServerCtx, remote: Option<SocketAddr>, host: Option<&str>) -> (r: Result<
    SocketAddr,
    u16,
>)
    requires
        ctx.wf(),
    ensures
        r == doh_client(ctx, remote, host_text(host)),
{
    if !is_doh_host(host, ctx.proxy_tld.as_str()) {
        return Err(404);
    }
    if ctx.allow_from.is_enabled() {
        let allowed = match remote {
            Some(a) => ctx.allow_from.allows(a.ip),
            None => false,
        };
        if !allowed {
            return Err(403);
        }
    }
    match remote {
        Some(a) => Ok(a),
        None => Ok(SocketAddr { ip: IpAddr::V4(Ipv4Addr { bits: 0x7f00_0001 }), port: 0, scope: 0 }),
    }
}

/// The client of a POST request that is taken, before its body is read.
pub fn doh_post(
    ctx: &ServerCtx,
    remote: Option<SocketAddr>,
    host: Option<&str>,
    content_type: Option<&str>,
) -> (r: Result<SocketAddr, HttpAnswer>)
    requires
        ctx.wf(),
    ensures
        match doh_client(ctx, remote, host_text(host)) {
            Err(code) => r == Err::<SocketAddr, HttpAnswer>(HttpAnswer::Status(code)),
            Ok(a) => if content_type is Some && has_prefix(
                content_type->0@,
                "application/dns-message"@,
            ) {
                r == Ok::<SocketAddr, HttpAnswer>(a)
            } else {
                r == Err::<SocketAddr, HttpAnswer>(HttpAnswer::Status(415))
            },
        },
{
    let src = match doh_validate(ctx, remote, host) {
        Ok(a) => a,
        Err(code) => {
            return Err(HttpAnswer::Status(code));
        },
    };
    let is_message = match content_type {
        Some(t) => starts_with(t, "application/dns-message"),
        None => false,
    };
    if !is_message {
        return Err(HttpAnswer::Status(415));
    }
    Ok(src)
}

/// The refusal of the body of a POST request: one that was longer than a
/// message, so that it was not read, or an empty one.
pub fn refuse_body(body: Option<&[u8]>) -> (r: Option<HttpAnswer>)
    ensures
        match body {
            None => r matches Some(HttpAnswer::Text(413, m)) && m@ == "body exceeds 4096 bytes"@,
            Some(b) => if b@.len() == 0 {
                r matches Some(HttpAnswer::Text(400, m)) && m@ == "empty body"@
            } else {
                r is None
            },
        },
{
    match body {
        None => Some(HttpAnswer::Text(413, "body exceeds 4096 bytes")),
        Some(b) => if b.len() == 0 {
            Some(HttpAnswer::Text(400, "empty body"))
        } else {
            None
        },
    }
}

/// The value of the first parameter `dns`; empty where there is none.
pub open spec fn dns_value(pairs: Seq<Seq<char>>) -> Seq<char>
    decreases pairs.len(),
{
    if pairs.len() == 0 {
        Seq::empty()
    } else if has_prefix(pairs[0], "dns="@) {
        without_prefix(pairs[0], "dns="@)
    } else {
        dns_value(pairs.drop_first())
    }
}

/// The value of the parameter `dns` in the query of an address.
pub open spec fn dns_param(query: Option<Seq<char>>) -> Seq<char> {
    match query {
        Some(q) => dns_value(split_parts(q, '&')),
        None => Seq::empty(),
    }
}

/// The value of the parameter `dns` in the query of an address.
pub fn find_dns_param(query: Option<&str>) -> (s: String)
    ensures
        s@ == dns_param(host_text(query)),
{
    match query {
        None => String::new(),
        Some(q) => {
            let pairs = split(q, '&');
            let ghost all = split_parts(q@, '&');
            let mut i: usize = 0;
            assert(all.subrange(0, all.len() as int) =~= all);
            while i < pairs.len()
                invariant
                    all == split_parts(q@, '&'),
                    host_text(query) == Some(q@),
                    texts(pairs@) == all,
                    i <= pairs.len(),
                    dns_value(all) == dns_value(all.subrange(i as int, all.len() as int)),
                decreases pairs.len() - i,
            {
                proof {
                    let rest = all.subrange(i as int, all.len() as int);
                    assert(rest[0] == pairs@[i as int]@);
                    assert(rest.drop_first() =~= all.subrange(i + 1, all.len() as int));
                }
                if starts_with(pairs[i].as_str(), "dns=") {
                    return crate::text::drop_prefix(pairs[i].as_str(), "dns=");
                }
                i += 1;
            }
            String::new()
        },
    }
}

/// The message in a decoded parameter, or the refusal.
pub fn take_decoded(decoded: Option<Vec<u8>>) -> (r: Result<Vec<u8>, HttpAnswer>)
    ensures
        match decoded {
            None => r matches Err(HttpAnswer::Text(400, m)) && m@ == "invalid base64url encoding"@,
            Some(b) => if b@.len() > MAX_DNS_MSG {
                r matches Err(HttpAnswer::Text(413, m)) && m@ == "body exceeds 4096 bytes"@
            } else {
                r == Ok::<Vec<u8>, HttpAnswer>(b)
            },
        },
{
    match decoded {
        None => Err(HttpAnswer::Text(400, "invalid base64url encoding")),
        Some(b) => if b.len() > MAX_DNS_MSG {
            Err(HttpAnswer::Text(413, "body exceeds 4096 bytes"))
        } else {
            Ok(b)
        },
    }
}

/// The client and the message of a GET request that is taken, or what it is
/// answered.
pub fn doh_get(
    ctx: &ServerCtx,
    remote: Option<SocketAddr>,
    host: Option<&str>,
    query: Option<&str>,
) -> (r: Result<(SocketAddr, Vec<u8>), HttpAnswer>)
    requires
        ctx.wf(),
    ensures
        match doh_client(ctx, remote, host_text(host)) {
            Err(code) => r matches Err(HttpAnswer::Status(c)) && c == code,
            Ok(a) => {
                let param = dns_param(host_text(query));
                if param.len() == 0 {
                    r matches Err(HttpAnswer::Text(400, m)) && m@ == "missing dns query parameter"@
                } else {
                    match r {
                        Ok((src, bytes)) => src == a && base64url(bytes@) == param && bytes@.len()
                            <= MAX_DNS_MSG,
                        Err(HttpAnswer::Text(400, m)) => m@ == "invalid base64url encoding"@ && (
                        forall|b: Seq<u8>| #[trigger] base64url(b) != param),
                        Err(HttpAnswer::Text(413, m)) => m@ == "body exceeds 4096 bytes"@ && (
                        exists|b: Seq<u8>| #[trigger] base64url(b) == param && b.len() > MAX_DNS_MSG),
                        _ => false,
                    }
                }
            },
        },
{
    let src = match doh_validate(ctx, remote, host) {
        Ok(a) => a,
        Err(code) => {
            return Err(HttpAnswer::Status(code));
        },
    };
    let param = find_dns_param(query);
    if param.as_str().is_empty() {
        return Err(HttpAnswer::Text(400, "missing dns query parameter"));
    }
    let decoded = decode_base64url(param.as_str());
    match take_decoded(decoded) {
        Ok(b) => Ok((src, b)),
        Err(e) => Err(e),
    }
}

/// The smallest time to live of the answers of a message, or 0.
pub open spec fn min_ttl(wire: Seq<u8>) -> u32 {
    match answer_ttls(wire) {
        Some(t) => least(t),
        None => 0,
    }
}

/// The smallest time to live of the answers of a message, or 0.
pub fn extract_min_ttl(wire: &[u8]) -> (n: u32)
    ensures
        n == min_ttl(wire@),
{
    match scan_ttls(wire) {
        Some(v) => smallest(&v),
        None => 0,
    }
}

fn copy_bytes(b: &[u8]) -> (v: Vec<u8>)
    ensures
        v@ == b@,
{
    let mut v: Vec<u8> = Vec::new();
    let mut i: usize = 0;
    while i < b.len()
        invariant
            i <= b.len(),
            v@ == b@.subrange(0, i as int),
        decreases b.len() - i,
    {
        v.push(b[i]);
        assert(v@ =~= b@.subrange(0, i + 1));
        i += 1;
    }
    assert(b@.subrange(0, b@.len() as int) =~= b@);
    v
}

/// The answer to a request whose query was resolved. It may be kept as long as
/// each of its answers may.
pub fn dns_response(wire: &[u8], min_ttl: u32) -> (r: HttpAnswer)
    ensures
        r matches HttpAnswer::Message { bytes, max_age } && bytes@ == wire@ && max_age == min_ttl,
{
    HttpAnswer::Message { bytes: copy_bytes(wire), max_age: min_ttl }
}

/// The header that says for how many seconds an answer may be kept.
pub fn cache_control(max_age: u32) -> (s: String)
    ensures
        s@ == "max-age="@ + decimal(max_age as nat),
{
    concat("max-age=", decimal_string(max_age as u64).as_str())
}

/// Whether an answer holds a message that is not to be kept.
pub open spec fn answers_with(r: HttpAnswer, p: PacketView) -> bool {
    match written(packet_emission(p)) {
        Ok(b) => r matches HttpAnswer::Message { bytes, max_age } && bytes@ == b && max_age == 0,
        Err(_) => r == HttpAnswer::Status(500),
    }
}

/// The answer with a message that is not to be kept, or a server error where
/// the message cannot be written.
pub fn serialize_response(pkt: &DnsPacket) -> (r: HttpAnswer)
    ensures
        answers_with(r, pkt@),
{
    match to_wire(pkt) {
        Ok(buf) => dns_response(buf.filled(), 0),
        Err(_) => HttpAnswer::Status(500),
    }
}

/// The id in the first bytes of a message; bytes that are missing are zeros.
pub open spec fn id_of(wire: Seq<u8>) -> u16 {
    ((if wire.len() > 0 {
        wire[0] as int
    } else {
        0
    }) * 256 + (if wire.len() > 1 {
        wire[1] as int
    } else {
        0
    })) as u16
}

/// The response to a message that cannot be read.
pub open spec fn format_error(wire: Seq<u8>) -> PacketView {
    PacketView {
        header: DnsHeader {
            id: id_of(wire),
            response: true,
            rescode: ResultCode::FORMERR,
            ..DnsHeader::blank()
        },
        ..DnsPacket::blank()
    }
}

/// The id in the first bytes of a message.
pub fn query_id(wire: &[u8]) -> (id: u16)
    ensures
        id == id_of(wire@),
{
    let high: u16 = if wire.len() > 0 {
        wire[0] as u16
    } else {
        0
    };
    let low: u16 = if wire.len() > 1 {
        wire[1] as u16
    } else {
        0
    };
    high * 256 + low
}

/// The query in the bytes of a request, or the answer that says that they
/// cannot be read.
pub fn read_query(dns_bytes: &[u8]) -> (r: Result<DnsPacket, HttpAnswer>)
    ensures
        match (r, packet_reading(padded(dns_bytes@), 0)) {
            (Ok(p), Ok((v, _))) => p@ == v,
            (Err(a), Err(_)) => answers_with(a, format_error(dns_bytes@)),
            _ => false,
        },
{
    match crate::ctx::parse_reply(dns_bytes) {
        Ok(q) => Ok(q),
        Err(_) => {
            let mut resp = DnsPacket::new();
            resp.header.id = query_id(dns_bytes);
            resp.header.response = true;
            resp.header.rescode = ResultCode::FORMERR;
            Err(serialize_response(&resp))
        },
    }
}

/// The answer to a request from what came of resolving its query: the bytes of
/// the reply, or nothing where resolving failed.
pub fn resolve_doh(query: &DnsPacket, resolved: Option<&[u8]>, filter_aaaa: bool) -> (r: HttpAnswer)
    ensures
        match resolved {
            Some(w) => r matches HttpAnswer::Message { bytes, max_age } && bytes@ == w@ && max_age
                == min_ttl(w@),
            None => answers_with(r, failed(query@, filter_aaaa)),
        },
{
    match resolved {
        Some(w) => dns_response(w, extract_min_ttl(w)),
        None => {
            let mut resp = DnsPacket::response_from(query, ResultCode::SERVFAIL);
            shape_response_for_client(&mut resp, query, filter_aaaa);
            serialize_response(&resp)
        },
    }
}

/// Where clients are restricted, a client that is not known is refused.
pub proof fn unknown_client_is_refused(ctx: &ServerCtx, host: Option<Seq<char>>)
    requires
        ctx.allow_from.enabled(),
    ensures
        doh_client(ctx, None, host) is Err,
{
}

/// An answer is kept no longer than any of its records may be.
pub proof fn kept_no_longer_than_any_record(wire: Seq<u8>, i: int)
    requires
        answer_ttls(wire) matches Some(t) && 0 <= i < t.len(),
    ensures
        min_ttl(wire) <= answer_ttls(wire)->0[i],
{
    crate::wire::least_is_least(answer_ttls(wire)->0);
}

/// A message that cannot be read is always answered: under its id, with the
/// outcome of a format error and nothing else.
pub proof fn format_errors_are_answered(wire: Seq<u8>)
    ensures
        written(packet_emission(format_error(wire))) == Ok::<Seq<u8>, WireError>(
            be16(id_of(wire)) + seq![0x80u8, 1, 0, 0, 0, 0, 0, 0, 0, 0],
        ),
{
    let p = format_error(wire);
    let parts = packet_parts(p);
    let want = be16(id_of(wire)) + seq![0x80u8, 1, 0, 0, 0, 0, 0, 0, 0, 0];
    packet_parts_are(p);
    assert(p.header.flags() == 0x8001) by {
        reveal(DnsHeader::flags);
        reveal(bit);
    }
    assert(count16(0) == 0);
    reveal_with_fuel(in_turn, 7);
    assert(packet_emission(p).error is None);
    assert(packet_emission(p).bytes =~= want);
}

} // verus!
