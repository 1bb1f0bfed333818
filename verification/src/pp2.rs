//! The PROXY protocol, version 2: the address of a client behind a front-end.
//!
//! A list of front-ends turns the protocol on. Only they are then listened to,
//! and only with a header.
use proxy_header::{ParseConfig, ProxyHeader};
use vstd::prelude::*;

use crate::acl::{all_wf, any_contains, bad_entry, first_bad, in_any, nets_of, parse_cidr_list};
use crate::config::ProxyProtocolConfig;
use crate::net::{IpAddr, IpNet, Ipv4Addr, Ipv6Addr, SocketAddr};
use crate::stats::ServerStats;
use crate::text::{concat, concat3};

verus! {

/// The front-ends that are trusted, and how long their headers may take, in
/// milliseconds.
#[derive(Clone, Debug)]
pub struct PpConfig {
    pub from: Vec<IpNet>,
    pub header_timeout: u64,
}

impl PpConfig {
    /// Whether each network's prefix is no longer than an address.
    pub open spec fn wf(&self) -> bool {
        all_wf(self.from@)
    }

    /// The front-ends of a configuration: none where its list is empty, and a
    /// message about the first entry that stands for no network.
    pub fn from_config(cfg: &ProxyProtocolConfig) -> (r: Result<Option<Self>, String>)
        ensures
            match r {
                Ok(None) => cfg.from@.len() == 0,
                Ok(Some(pp)) => {
                    &&& cfg.from@.len() > 0
                    &&& pp.wf()
                    &&& nets_of(cfg.from@, pp.from@)
                    &&& pp.header_timeout == cfg.header_timeout_ms
                },
                Err(m) => exists|i: int|
                    #[trigger] first_bad(cfg.from@, i) && m@ == bad_entry(
                        "proxy_protocol.from"@,
                        cfg.from@[i]@,
                    ),
            },
    {
        if cfg.from.len() == 0 {
            return Ok(None);
        }
        match parse_cidr_list(&cfg.from, "proxy_protocol.from") {
            Ok(from) => Ok(Some(PpConfig { from, header_timeout: cfg.header_timeout_ms })),
            Err(m) => Err(m),
        }
    }

    /// Whether a peer is a front-end.
    pub fn allows(&self, peer: IpAddr) -> (b: bool)
        requires
            self.wf(),
        ensures
            b == in_any(self.from@, peer),
    {
        any_contains(&self.from, peer)
    }
}

/// The front-ends of a listener, or the message with which it is turned off.
pub fn init(listener: &str, cfg: &ProxyProtocolConfig) -> (r: Result<Option<PpConfig>, String>)
    ensures
        match r {
            Ok(None) => cfg.from@.len() == 0,
            Ok(Some(pp)) => {
                &&& cfg.from@.len() > 0
                &&& pp.wf()
                &&& nets_of(cfg.from@, pp.from@)
                &&& pp.header_timeout == cfg.header_timeout_ms
            },
            Err(m) => exists|i: int|
                #[trigger] first_bad(cfg.from@, i) && m@ == listener@
                    + ": invalid proxy_protocol config ("@ + bad_entry(
                    "proxy_protocol.from"@,
                    cfg.from@[i]@,
                ) + ") \u{2014} listener disabled"@,
        },
{
    match PpConfig::from_config(cfg) {
        Ok(pp) => Ok(pp),
        Err(e) => {
            let head = concat3(listener, ": invalid proxy_protocol config (", e.as_str());
            Err(concat(head.as_str(), ") \u{2014} listener disabled"))
        },
    }
}

/// The source of the connection that a header of version 2 stands for, if it
/// names one, and the length of the header, where bytes begin with such a header.
pub uninterp spec fn proxy_v2_header(bytes: Seq<u8>) -> Option<(Option<SocketAddr>, nat)>;

/// `proxy_header::ProxyHeader::parse`, for version 2 alone and without its
/// extensions, and `proxied_address` of its header: the source address where
/// the header names one, which is without a scope, and the number of bytes of the
/// header. A function of the bytes alone. A header has at least 16 bytes, and they
/// are all there.
#[verifier::external_body]
pub(crate) fn parse_header(bytes: &[u8]) -> (r: Option<(Option<SocketAddr>, usize)>)
    ensures
        proxy_v2_header(bytes@) == (match r {
            Some((a, n)) => Some((a, n as nat)),
            None => None,
        }),
        r matches Some((_, n)) ==> 16 <= n <= bytes@.len(),
{
    let config = ParseConfig { allow_v1: false, allow_v2: true, include_tlvs: false };
    let (header, n) = ProxyHeader::parse(bytes, config).ok()?;
    let source = header.proxied_address().map(|a| match ipnet::IpNet::from(a.source.ip()) {
        ipnet::IpNet::V4(v) => SocketAddr { ip: IpAddr::V4(Ipv4Addr { bits: v.addr().into() }), port: a.source.port(), scope: 0 },
        ipnet::IpNet::V6(v) => SocketAddr { ip: IpAddr::V6(Ipv6Addr { bits: v.addr().into() }), port: a.source.port(), scope: 0 },
    });
    Some((source, n))
}

/// Whether none of the counters of the protocol is full.
pub open spec fn has_room(s: &ServerStats) -> bool {
    &&& s.proxy_v2_accepted < u64::MAX
    &&& s.proxy_v2_rejected_untrusted < u64::MAX
    &&& s.proxy_v2_rejected_signature < u64::MAX
    &&& s.proxy_v2_local_command < u64::MAX
    &&& s.proxy_v2_timeout < u64::MAX
}

/// Whether none of the counters of the protocol is full.
pub fn has_room_now(s: &ServerStats) -> (b: bool)
    ensures
        b == has_room(s),
{
    s.proxy_v2_accepted < u64::MAX && s.proxy_v2_rejected_untrusted < u64::MAX
        && s.proxy_v2_rejected_signature < u64::MAX && s.proxy_v2_local_command < u64::MAX
        && s.proxy_v2_timeout < u64::MAX
}

/// The counters after a peer that is no front-end.
pub open spec fn one_untrusted(s: ServerStats) -> ServerStats {
    ServerStats { proxy_v2_rejected_untrusted: (s.proxy_v2_rejected_untrusted + 1) as u64, ..s }
}

/// The counters after bytes that are no header.
pub open spec fn one_invalid(s: ServerStats) -> ServerStats {
    ServerStats { proxy_v2_rejected_signature: (s.proxy_v2_rejected_signature + 1) as u64, ..s }
}

/// The counters after a header that came too late.
pub open spec fn one_late(s: ServerStats) -> ServerStats {
    ServerStats { proxy_v2_timeout: (s.proxy_v2_timeout + 1) as u64, ..s }
}

/// The counters after a header that names a client, or none.
pub open spec fn one_header(s: ServerStats, source: Option<SocketAddr>) -> ServerStats {
    match source {
        Some(_) => ServerStats { proxy_v2_accepted: (s.proxy_v2_accepted + 1) as u64, ..s },
        None => ServerStats { proxy_v2_local_command: (s.proxy_v2_local_command + 1) as u64, ..s },
    }
}

/// What is done with a new connection.
#[derive(Debug, Clone, Copy, PartialEq, Eq, Structural)]
pub enum Gate {
    /// It is the client's own.
    Direct,
    /// It is dropped.
    Drop,
    /// A header is read from it, for at most so many milliseconds.
    ReadHeader(u64),
}

/// Decides what is done with a new connection from a peer.
pub fn gate(pp: Option<&PpConfig>, peer: IpAddr, stats: &mut ServerStats) -> (g: Gate)
    requires
        pp matches Some(p) ==> p.wf(),
        has_room(old(stats)),
    ensures
        match pp {
            None => g == Gate::Direct && *final(stats) == *old(stats),
            Some(p) => if in_any(p.from@, peer) {
                g == Gate::ReadHeader(p.header_timeout) && *final(stats) == *old(stats)
            } else {
                g == Gate::Drop && *final(stats) == one_untrusted(*old(stats))
            },
        },
{
    match pp {
        None => Gate::Direct,
        Some(p) => {
            if !p.allows(peer) {
                stats.proxy_v2_rejected_untrusted = stats.proxy_v2_rejected_untrusted + 1;
                return Gate::Drop;
            }
            Gate::ReadHeader(p.header_timeout)
        },
    }
}

/// What came of reading a header.
#[derive(Debug, Clone, Copy, PartialEq, Eq, Structural)]
pub enum HeaderRead {
    /// It did not come in time.
    TimedOut,
    /// What came was none.
    Invalid,
    /// It came, with the address of the client where it names one.
    Header(Option<SocketAddr>),
}

/// The address to treat as the client's, and whether the front-end asks for
/// itself; nothing where the connection is dropped. A header without an address
/// is of the front-end itself.
pub fn handshake(read: HeaderRead, tcp_peer: SocketAddr, stats: &mut ServerStats) -> (r: Option<
    (SocketAddr, bool),
>)
    requires
        has_room(old(stats)),
    ensures
        match read {
            HeaderRead::TimedOut => r is None && *final(stats) == one_late(*old(stats)),
            HeaderRead::Invalid => r is None && *final(stats) == one_invalid(*old(stats)),
            HeaderRead::Header(source) => {
                &&& r == Some(
                    match source {
                        Some(a) => (a, false),
                        None => (tcp_peer, true),
                    },
                )
                &&& *final(stats) == one_header(*old(stats), source)
            },
        },
{
    match read {
        HeaderRead::TimedOut => {
            stats.proxy_v2_timeout = stats.proxy_v2_timeout + 1;
            None
        },
        HeaderRead::Invalid => {
            stats.proxy_v2_rejected_signature = stats.proxy_v2_rejected_signature + 1;
            None
        },
        HeaderRead::Header(Some(a)) => {
            stats.proxy_v2_accepted = stats.proxy_v2_accepted + 1;
            Some((a, false))
        },
        HeaderRead::Header(None) => {
            stats.proxy_v2_local_command = stats.proxy_v2_local_command + 1;
            Some((tcp_peer, true))
        },
    }
}

} // verus!
