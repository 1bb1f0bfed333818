//! Upstream resolvers: how they are written and how they are grouped.
use vstd::prelude::*;

use crate::net::{
    ip_text, ipv4_text, parse_ip, parse_socket_addr, socket_text, IpAddr, SocketAddr,
};
use crate::stats::UpstreamTransport;
use crate::text::{
    chars_of, concat, concat3, cut_at, decimal, decimal_string, drop_prefix, has_prefix,
    starts_with, string_range, texts, up_to, wide_decimal_string, without_prefix,
};

verus! {

/// The text of an IPv6 address, by std's `Display`.
pub uninterp spec fn ipv6_shown(bits: u128) -> Seq<char>;

/// `Display` of std's `Ipv6Addr`, which `ipnet::Ipv6Net::new_assert` picks: the
/// text of the address, a function of the address alone.
#[verifier::external_body]
fn ipv6_to_text(bits: u128) -> (s: String)
    ensures
        s@ == ipv6_shown(bits),
{
    ipnet::Ipv6Net::new_assert(bits.into(), 128).addr().to_string()
}

/// The text of an address and port. A scope other than 0 stands after a percent
/// sign.
pub open spec fn socket_shown(a: SocketAddr) -> Seq<char> {
    match a.ip {
        IpAddr::V4(ip) => ipv4_text(ip) + ":"@ + decimal(a.port as nat),
        IpAddr::V6(ip) => "["@ + ipv6_shown(ip.bits) + (if a.scope == 0 {
            Seq::empty()
        } else {
            "%"@ + decimal(a.scope as nat)
        }) + "]:"@ + decimal(a.port as nat),
    }
}

/// The text of an address and port.
pub fn socket_to_text(a: SocketAddr) -> (s: String)
    ensures
        s@ == socket_shown(a),
{
    let port = decimal_string(a.port as u64);
    match a.ip {
        IpAddr::V4(ip) => concat3(ip.to_text().as_str(), ":", port.as_str()),
        IpAddr::V6(ip) => {
            let mut head = concat("[", ipv6_to_text(ip.bits).as_str());
            let ghost bare = head@;
            assert(bare + Seq::<char>::empty() =~= bare);
            if a.scope != 0 {
                let scope = concat("%", decimal_string(a.scope as u64).as_str());
                head.append(scope.as_str());
            }
            concat3(head.as_str(), "]:", port.as_str())
        },
    }
}

/// An upstream resolver.
#[derive(Debug, Clone, PartialEq, Eq)]
pub enum Upstream {
    /// Plain DNS over UDP.
    Udp(SocketAddr),
    /// Plain DNS over TCP.
    Tcp(SocketAddr),
    /// DNS over HTTPS.
    Doh { url: String },
    /// DNS over TLS, with the name that the certificate must bear.
    Dot { addr: SocketAddr, tls_name: Option<String> },
    /// Oblivious DNS over HTTPS: a relay, and the target behind it.
    Odoh { relay_url: String, target_host: String, target_path: String },
}

/// An upstream resolver.
pub enum UpstreamView {
    Udp(SocketAddr),
    Tcp(SocketAddr),
    Doh(Seq<char>),
    Dot(SocketAddr, Option<Seq<char>>),
    Odoh(Seq<char>, Seq<char>, Seq<char>),
}

impl View for Upstream {
    type V = UpstreamView;

    open spec fn view(&self) -> UpstreamView {
        match self {
            Upstream::Udp(a) => UpstreamView::Udp(*a),
            Upstream::Tcp(a) => UpstreamView::Tcp(*a),
            Upstream::Doh { url } => UpstreamView::Doh(url@),
            Upstream::Dot { addr, tls_name } => UpstreamView::Dot(
                *addr,
                match tls_name {
                    Some(n) => Some(n@),
                    None => None,
                },
            ),
            Upstream::Odoh { relay_url, target_host, target_path } => UpstreamView::Odoh(
                relay_url@,
                target_host@,
                target_path@,
            ),
        }
    }
}

/// The text of an upstream.
pub open spec fn upstream_shown(u: UpstreamView) -> Seq<char> {
    match u {
        UpstreamView::Udp(a) => socket_shown(a),
        UpstreamView::Tcp(a) => "tcp://"@ + socket_shown(a),
        UpstreamView::Doh(url) => url,
        UpstreamView::Dot(a, Some(name)) => "tls://"@ + socket_shown(a) + "#"@ + name,
        UpstreamView::Dot(a, None) => "tls://"@ + socket_shown(a),
        UpstreamView::Odoh(relay, host, path) => "odoh://"@ + host + path + " via "@ + relay,
    }
}

/// What a text that names an upstream stands for: an https URL, `tls://` with
/// an address and perhaps the name of the certificate after a hash sign, or an
/// address of plain DNS. Where no port is given, `port` holds, and 853 for TLS.
pub open spec fn upstream_text(s: Seq<char>, port: u16) -> Option<UpstreamView> {
    if has_prefix(s, "https://"@) {
        Some(UpstreamView::Doh(s))
    } else if has_prefix(s, "tls://"@) {
        let rest = without_prefix(s, "tls://"@);
        let host = up_to(rest, '#');
        match addr_text(host, 853) {
            None => None,
            Some(a) => Some(
                UpstreamView::Dot(
                    a,
                    if host.len() < rest.len() {
                        Some(rest.subrange(host.len() as int + 1, rest.len() as int))
                    } else {
                        None
                    },
                ),
            ),
        }
    } else {
        match addr_text(s, port) {
            None => None,
            Some(a) => Some(UpstreamView::Udp(a)),
        }
    }
}

/// The address and port that a text stands for, with a port where none is given.
pub open spec fn addr_text(s: Seq<char>, port: u16) -> Option<SocketAddr> {
    match socket_text(s) {
        Some(a) => Some(a),
        None => match ip_text(s) {
            Some(ip) => Some(SocketAddr { ip, port, scope: 0 }),
            None => None,
        },
    }
}

/// The message about a text that names no upstream.
pub open spec fn bad_upstream(s: Seq<char>) -> Seq<char> {
    "invalid upstream address: "@ + s
}

/// The message about a text that names no upstream.
pub open spec fn upstream_fault(s: Seq<char>) -> Seq<char> {
    if has_prefix(s, "tls://"@) {
        bad_upstream(up_to(without_prefix(s, "tls://"@), '#'))
    } else {
        bad_upstream(s)
    }
}

/// The address and port that a text stands for, with a port where none is given.
pub fn parse_upstream_addr(s: &str, default_port: u16) -> (r: Result<SocketAddr, String>)
    ensures
        match r {
            Ok(a) => addr_text(s@, default_port) == Some(a),
            Err(m) => addr_text(s@, default_port) is None && m@ == bad_upstream(s@),
        },
{
    match parse_socket_addr(s) {
        Some(a) => Ok(a),
        None => match parse_ip(s) {
            Some(ip) => Ok(SocketAddr { ip, port: default_port, scope: 0 }),
            None => Err(concat("invalid upstream address: ", s)),
        },
    }
}

/// The upstream that a text names.
pub fn parse_upstream(s: &str, default_port: u16) -> (r: Result<Upstream, String>)
    ensures
        match r {
            Ok(u) => upstream_text(s@, default_port) == Some(u@),
            Err(m) => upstream_text(s@, default_port) is None && m@ == upstream_fault(s@),
        },
{
    if starts_with(s, "https://") {
        return Ok(Upstream::Doh { url: s.to_owned() });
    }
    if starts_with(s, "tls://") {
        let rest = drop_prefix(s, "tls://");
        let host = cut_at(rest.as_str(), '#');
        proof {
            crate::net::up_to_is_prefix(rest@, '#');
        }
        let x = chars_of(rest.as_str());
        let n: usize = chars_of(host.as_str()).len();
        let tls_name: Option<String> = if n < x.len() {
            Some(string_range(x.as_slice(), n + 1, x.len()))
        } else {
            None
        };
        return match parse_upstream_addr(host.as_str(), 853) {
            Ok(addr) => Ok(Upstream::Dot { addr, tls_name }),
            Err(m) => Err(m),
        };
    }
    match parse_upstream_addr(s, default_port) {
        Ok(a) => Ok(Upstream::Udp(a)),
        Err(m) => Err(m),
    }
}

impl Upstream {
    /// The text of the upstream.
    pub fn to_text(&self) -> (s: String)
        ensures
            s@ == upstream_shown(self@),
    {
        match self {
            Upstream::Udp(a) => socket_to_text(*a),
            Upstream::Tcp(a) => concat("tcp://", socket_to_text(*a).as_str()),
            Upstream::Doh { url } => url.clone(),
            Upstream::Dot { addr, tls_name } => {
                let head = concat("tls://", socket_to_text(*addr).as_str());
                match tls_name {
                    Some(n) => concat3(head.as_str(), "#", n.as_str()),
                    None => head,
                }
            },
            Upstream::Odoh { relay_url, target_host, target_path } => {
                let head = concat3("odoh://", target_host.as_str(), target_path.as_str());
                concat3(head.as_str(), " via ", relay_url.as_str())
            },
        }
    }

    /// The same upstream again.
    pub fn copy(&self) -> (r: Upstream)
        ensures
            r@ == self@,
    {
        match self {
            Upstream::Udp(a) => Upstream::Udp(*a),
            Upstream::Tcp(a) => Upstream::Tcp(*a),
            Upstream::Doh { url } => Upstream::Doh { url: url.clone() },
            Upstream::Dot { addr, tls_name } => Upstream::Dot {
                addr: *addr,
                tls_name: match tls_name {
                    Some(n) => Some(n.clone()),
                    None => None,
                },
            },
            Upstream::Odoh { relay_url, target_host, target_path } => Upstream::Odoh {
                relay_url: relay_url.clone(),
                target_host: target_host.clone(),
                target_path: target_path.clone(),
            },
        }
    }

    /// How the upstream is reached.
    pub fn transport(&self) -> (t: UpstreamTransport)
        ensures
            t == transport_of(self@),
    {
        match self {
            Upstream::Udp(_) => UpstreamTransport::Udp,
            Upstream::Tcp(_) => UpstreamTransport::Tcp,
            Upstream::Doh { .. } => UpstreamTransport::Doh,
            Upstream::Dot { .. } => UpstreamTransport::Dot,
            Upstream::Odoh { .. } => UpstreamTransport::Odoh,
        }
    }
}

/// How an upstream is reached.
pub open spec fn transport_of(u: UpstreamView) -> UpstreamTransport {
    match u {
        UpstreamView::Udp(_) => UpstreamTransport::Udp,
        UpstreamView::Tcp(_) => UpstreamTransport::Tcp,
        UpstreamView::Doh(_) => UpstreamTransport::Doh,
        UpstreamView::Dot(_, _) => UpstreamTransport::Dot,
        UpstreamView::Odoh(_, _, _) => UpstreamTransport::Odoh,
    }
}

/// What each upstream is.
pub open spec fn upstreams(v: Seq<Upstream>) -> Seq<UpstreamView> {
    v.map_values(|u: Upstream| u@)
}

/// The same upstreams again.
pub fn copy_upstreams(v: &Vec<Upstream>) -> (r: Vec<Upstream>)
    ensures
        upstreams(r@) == upstreams(v@),
{
    let mut r: Vec<Upstream> = Vec::new();
    let mut i: usize = 0;
    while i < v.len()
        invariant
            i <= v.len(),
            r@.len() == i,
            forall|j: int| 0 <= j < i ==> (#[trigger] r@[j])@ == v@[j]@,
        decreases v.len() - i,
    {
        r.push(v[i].copy());
        i += 1;
    }
    assert(upstreams(r@) =~= upstreams(v@));
    r
}

/// The upstreams of a list, or a message about the first entry that names none.
pub fn parse_upstream_list(list: &Vec<String>, default_port: u16) -> (r: Result<
    Vec<Upstream>,
    String,
>)
    ensures
        match r {
            Ok(v) => list_parses(list@, default_port, upstreams(v@)),
            Err(m) => (!exists|v: Seq<UpstreamView>| list_parses(list@, default_port, v)) && exists|
                i: int,
            |
                #[trigger] first_unparsed(list@, default_port, i) && m@ == upstream_fault(
                    list@[i]@,
                ),
        },
{
    let mut out: Vec<Upstream> = Vec::new();
    let mut i: usize = 0;
    while i < list.len()
        invariant
            i <= list.len(),
            out@.len() == i,
            forall|j: int|
                0 <= j < i ==> upstream_text(list@[j]@, default_port) == Some((#[trigger] out@[j])@),
        decreases list.len() - i,
    {
        match parse_upstream(list[i].as_str(), default_port) {
            Ok(u) => {
                out.push(u);
            },
            Err(m) => {
                assert forall|v: Seq<UpstreamView>| !list_parses(list@, default_port, v) by {
                    if list_parses(list@, default_port, v) {
                        assert(upstream_text(list@[i as int]@, default_port) == Some(v[i as int]));
                    }
                }
                assert(first_unparsed(list@, default_port, i as int)) by {
                    assert forall|j: int| 0 <= j < i implies upstream_text(
                        (#[trigger] list@[j])@,
                        default_port,
                    ) is Some by {
                        assert(upstream_text(list@[j]@, default_port) == Some(out@[j]@));
                    }
                }
                return Err(m);
            },
        }
        i += 1;
    }
    Ok(out)
}

/// Whether `i` is the first entry of a list that names no upstream.
pub open spec fn first_unparsed(list: Seq<String>, port: u16, i: int) -> bool {
    &&& 0 <= i < list.len()
    &&& upstream_text(list[i]@, port) is None
    &&& forall|j: int| 0 <= j < i ==> upstream_text((#[trigger] list[j])@, port) is Some
}

/// Whether the entries of a list name these upstreams.
pub open spec fn list_parses(list: Seq<String>, port: u16, v: Seq<UpstreamView>) -> bool {
    &&& v.len() == list.len()
    &&& forall|i: int|
        0 <= i < v.len() ==> upstream_text(list[i]@, port) == Some(#[trigger] v[i])
}

/// Upstreams to ask first, and others to ask where those fail.
#[derive(Debug, Clone, PartialEq, Eq)]
pub struct UpstreamPool {
    pub primary: Vec<Upstream>,
    pub fallback: Vec<Upstream>,
}

/// Upstreams to ask first, and others to ask where those fail.
pub struct PoolView {
    pub primary: Seq<UpstreamView>,
    pub fallback: Seq<UpstreamView>,
}

impl View for UpstreamPool {
    type V = PoolView;

    open spec fn view(&self) -> PoolView {
        PoolView { primary: upstreams(self.primary@), fallback: upstreams(self.fallback@) }
    }
}

impl PoolView {
    /// The upstream to ask first.
    pub open spec fn first(&self) -> Option<UpstreamView> {
        if self.primary.len() > 0 {
            Some(self.primary[0])
        } else if self.fallback.len() > 0 {
            Some(self.fallback[0])
        } else {
            None
        }
    }

    /// The text of the pool: its first upstream, and how many more there are.
    pub open spec fn shown(&self) -> Seq<char> {
        match self.first() {
            None => "none"@,
            Some(u) => if self.primary.len() + self.fallback.len() > 1 {
                upstream_shown(u) + " (+"@ + decimal(
                    (self.primary.len() + self.fallback.len() - 1) as nat,
                ) + " more)"@
            } else {
                upstream_shown(u)
            },
        }
    }
}

impl UpstreamPool {
    /// A pool of these upstreams.
    pub fn new(primary: Vec<Upstream>, fallback: Vec<Upstream>) -> (r: Self)
        ensures
            r@ == (PoolView { primary: upstreams(primary@), fallback: upstreams(fallback@) }),
    {
        UpstreamPool { primary, fallback }
    }

    /// The upstream to ask first.
    pub fn preferred(&self) -> (r: Option<&Upstream>)
        ensures
            match r {
                Some(u) => self@.first() == Some(u@),
                None => self@.first() is None,
            },
    {
        if self.primary.len() > 0 {
            Some(&self.primary[0])
        } else if self.fallback.len() > 0 {
            Some(&self.fallback[0])
        } else {
            None
        }
    }

    /// The text of the pool.
    pub fn label(&self) -> (s: String)
        ensures
            s@ == self@.shown(),
    {
        match self.preferred() {
            None => "none".to_owned(),
            Some(u) => {
                let text = u.to_text();
                let total: u128 = self.primary.len() as u128 + self.fallback.len() as u128;
                if total > 1 {
                    let n = wide_decimal_string((total - 1) as u128);
                    let head = concat3(text.as_str(), " (+", n.as_str());
                    concat(head.as_str(), " more)")
                } else {
                    text
                }
            },
        }
    }

    /// The same pool again.
    pub fn copy(&self) -> (r: UpstreamPool)
        ensures
            r@ == self@,
    {
        UpstreamPool {
            primary: copy_upstreams(&self.primary),
            fallback: copy_upstreams(&self.fallback),
        }
    }
}

/// The upstreams that the entries of a list name, or the message about the first
/// that names none.
pub open spec fn list_outcome(list: Seq<Seq<char>>, port: u16) -> Result<
    Seq<UpstreamView>,
    Seq<char>,
>
    decreases list.len(),
{
    if list.len() == 0 {
        Ok(Seq::empty())
    } else {
        match list_outcome(list.drop_last(), port) {
            Err(m) => Err(m),
            Ok(v) => match upstream_text(list.last(), port) {
                Some(u) => Ok(v.push(u)),
                None => Err(upstream_fault(list.last())),
            },
        }
    }
}

proof fn outcome_of_parsed(list: Seq<String>, port: u16, v: Seq<UpstreamView>)
    requires
        list_parses(list, port, v),
    ensures
        list_outcome(texts(list), port) == Ok::<Seq<UpstreamView>, Seq<char>>(v),
    decreases list.len(),
{
    if list.len() > 0 {
        let before = list.drop_last();
        assert(texts(list).drop_last() =~= texts(before));
        assert forall|i: int| 0 <= i < v.drop_last().len() implies upstream_text(before[i]@, port)
            == Some(#[trigger] v.drop_last()[i]) by {
            assert(v.drop_last()[i] == v[i]);
        }
        outcome_of_parsed(before, port, v.drop_last());
        assert(v[v.len() - 1] == v.last());
        assert(v.drop_last().push(v.last()) =~= v);
        assert(texts(list).last() == list[list.len() - 1]@);
    } else {
        assert(v =~= Seq::<UpstreamView>::empty());
    }
}

proof fn outcome_of_unparsed(list: Seq<String>, port: u16, i: int)
    requires
        first_unparsed(list, port, i),
    ensures
        list_outcome(texts(list), port) == Err::<Seq<UpstreamView>, Seq<char>>(
            upstream_fault(list[i]@),
        ),
    decreases list.len(),
{
    let before = list.drop_last();
    assert(texts(list).drop_last() =~= texts(before));
    assert(texts(list).last() == list[list.len() - 1]@);
    if i < list.len() - 1 {
        assert(before[i] == list[i]);
        assert forall|j: int| 0 <= j < i implies upstream_text((#[trigger] before[j])@, port)
            is Some by {
            assert(before[j] == list[j]);
        }
        outcome_of_unparsed(before, port, i);
    } else {
        let v = Seq::new(before.len(), |j: int| upstream_text(list[j]@, port)->0);
        assert forall|j: int| 0 <= j < v.len() implies upstream_text(before[j]@, port) == Some(
            #[trigger] v[j],
        ) by {
            assert(before[j] == list[j]);
            assert(upstream_text(list[j]@, port) is Some);
        }
        outcome_of_parsed(before, port, v);
    }
}

/// The upstreams that the entries of a list name, or the message about the first
/// that names none.
pub fn named_upstreams(list: &Vec<String>, port: u16) -> (r: Result<Vec<Upstream>, String>)
    ensures
        list_outcome(texts(list@), port) == (match r {
            Ok(v) => Ok::<Seq<UpstreamView>, Seq<char>>(upstreams(v@)),
            Err(m) => Err::<Seq<UpstreamView>, Seq<char>>(m@),
        }),
{
    match parse_upstream_list(list, port) {
        Ok(v) => {
            proof {
                outcome_of_parsed(list@, port, upstreams(v@));
            }
            Ok(v)
        },
        Err(m) => {
            proof {
                let i = choose|i: int|
                    #[trigger] first_unparsed(list@, port, i) && m@ == upstream_fault(list@[i]@);
                outcome_of_unparsed(list@, port, i);
            }
            Err(m)
        },
    }
}

impl UpstreamPool {
    /// Takes an address as the one upstream to ask first, and says whether that
    /// is new. An address that stands for none changes nothing.
    pub fn maybe_update_primary(&mut self, new_addr: &str, port: u16) -> (changed: bool)
        ensures
            match addr_text(new_addr@, port) {
                None => !changed && final(self)@ == old(self)@,
                Some(a) => if old(self)@.primary.len() > 0 && old(self)@.primary[0]
                    == UpstreamView::Udp(a) {
                    !changed && final(self)@ == old(self)@
                } else {
                    changed && final(self)@ == (PoolView {
                        primary: seq![UpstreamView::Udp(a)],
                        fallback: old(self)@.fallback,
                    })
                },
            },
    {
        let a = match parse_upstream_addr(new_addr, port) {
            Ok(a) => a,
            Err(_) => {
                return false;
            },
        };
        if self.primary.len() > 0 {
            assert(self@.primary[0] == self.primary@[0]@);
            if let Upstream::Udp(b) = &self.primary[0] {
                if *b == a {
                    return false;
                }
            }
        }
        let mut primary: Vec<Upstream> = Vec::new();
        primary.push(Upstream::Udp(a));
        self.primary = primary;
        assert(self@.primary =~= seq![UpstreamView::Udp(a)]);
        true
    }
}

} // verus!
