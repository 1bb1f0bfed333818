//! The running server: what it sets going, what it takes in, and what it does
//! when the network changes.
use vstd::prelude::*;

use crate::blocklist::{listed_domains, parse_blocklist};
use crate::config::{Config, UpstreamMode};
use crate::ctx::ServerCtx;
use crate::acl::in_any;
use crate::forward::{addr_text, PoolView, UpstreamView};
use crate::name_set::NameSet;
use crate::net::{ip_text, parse_ipv4, parse_socket_addr, socket_text, IpAddr, Ipv4Addr, SocketAddr};
use crate::pp2::{has_room, one_header, one_invalid, one_untrusted, proxy_v2_header, PpConfig};
use crate::pp2_udp::{parse_if_trusted, shifted, UdpPp};
use crate::serve::QUAD9_IP;
use crate::service_store::text_in;
use crate::stats::ServerStats;
use crate::text::{concat3, copy_texts, decimal, decimal_string, text_lines, texts};

verus! {

/// What the server sets going beside answering over UDP.
#[derive(Debug)]
pub struct BackgroundPlan {
    /// Loading blocklists, and how often, in seconds.
    pub blocklists: Option<u64>,
    /// Asking for the servers of top-level domains ahead.
    pub prime: bool,
    /// Keeping domains in the cache.
    pub warm: bool,
    /// The control interface.
    pub api_addr: SocketAddr,
    pub mobile: bool,
    pub proxy_bind: Ipv4Addr,
    /// The port of the plain proxy.
    pub proxy: Option<u16>,
    /// The port of the secure proxy.
    pub proxy_tls: Option<u16>,
    pub lan: bool,
    pub dot: bool,
    /// The addresses to listen at over TCP.
    pub tcp: Vec<String>,
}

/// The address that a text stands for, or the loopback address.
pub open spec fn bind_or_loopback(s: Seq<char>) -> Ipv4Addr {
    match ip_text(s) {
        Some(IpAddr::V4(a)) => a,
        _ => Ipv4Addr { bits: 0x7f00_0001 },
    }
}

/// What the server sets going, by its configuration, its mode, and whether it
/// has a certificate. Nothing where the address of the control interface stands
/// for none.
pub fn background_services(config: &Config, mode: UpstreamMode, has_tls: bool) -> (r: Option<
    BackgroundPlan,
>)
    requires
        config.blocking.enabled && config.blocking.lists@.len() > 0
            ==> config.blocking.refresh_hours * 3600 <= u64::MAX,
    ensures
        ({
            let api = socket_text(
                config.server.api_bind_addr@ + ":"@ + decimal(config.server.api_port as nat),
            );
            match r {
                None => api is None,
                Some(p) => {
                    &&& api == Some(p.api_addr)
                    &&& p.blocklists == (if config.blocking.enabled
                        && config.blocking.lists@.len() > 0 {
                        Some((config.blocking.refresh_hours * 3600) as u64)
                    } else {
                        None
                    })
                    &&& p.prime == (mode is Recursive)
                    &&& p.warm == (config.cache.warm@.len() > 0)
                    &&& p.mobile == config.mobile.enabled
                    &&& p.proxy_bind == bind_or_loopback(config.proxy.bind_addr@)
                    &&& p.proxy == (if config.proxy.enabled {
                        Some(config.proxy.port)
                    } else {
                        None
                    })
                    &&& p.proxy_tls == (if config.proxy.enabled && config.proxy.tls_port > 0
                        && has_tls {
                        Some(config.proxy.tls_port)
                    } else {
                        None
                    })
                    &&& p.lan == config.lan.enabled
                    &&& p.dot == config.dot.enabled
                    &&& texts(p.tcp@) == texts(config.server.bind_addr@)
                },
            }
        }),
{
    let api = concat3(
        config.server.api_bind_addr.as_str(),
        ":",
        decimal_string(config.server.api_port as u64).as_str(),
    );
    let api_addr = match parse_socket_addr(api.as_str()) {
        Some(a) => a,
        None => {
            return None;
        },
    };
    let blocklists = if config.blocking.enabled && config.blocking.lists.len() > 0 {
        Some(config.blocking.refresh_hours * 3600)
    } else {
        None
    };
    let proxy_bind = match parse_ipv4(config.proxy.bind_addr.as_str()) {
        Some(a) => a,
        None => Ipv4Addr { bits: 0x7f00_0001 },
    };
    let proxy = if config.proxy.enabled {
        Some(config.proxy.port)
    } else {
        None
    };
    let proxy_tls = if config.proxy.enabled && config.proxy.tls_port > 0 && has_tls {
        Some(config.proxy.tls_port)
    } else {
        None
    };
    Some(
        BackgroundPlan {
            blocklists,
            prime: mode == UpstreamMode::Recursive,
            warm: config.cache.warm.len() > 0,
            api_addr,
            mobile: config.mobile.enabled,
            proxy_bind,
            proxy,
            proxy_tls,
            lan: config.lan.enabled,
            dot: config.dot.enabled,
            tcp: copy_texts(&config.server.bind_addr),
        },
    )
}

/// Whether there is an address to listen at, or the message.
pub fn check_bind_addrs(addrs: &Vec<String>) -> (r: Result<(), &'static str>)
    ensures
        match r {
            Ok(_) => addrs@.len() > 0,
            Err(m) => addrs@.len() == 0 && m@
                == "server.bind_addr is empty \u{2014} set at least one address"@,
        },
{
    if addrs.len() == 0 {
        return Err("server.bind_addr is empty \u{2014} set at least one address");
    }
    Ok(())
}

/// The domains of all blocklists.
pub open spec fn all_listed(lists: Seq<Seq<char>>) -> Set<Seq<char>>
    decreases lists.len(),
{
    if lists.len() == 0 {
        Set::empty()
    } else {
        all_listed(lists.drop_last()).union(listed_domains(text_lines(lists.last())))
    }
}

fn take_all(set: &mut NameSet, more: &NameSet)
    ensures
        final(set)@ == old(set)@.union(more@),
{
    let v = more.sorted();
    let ghost all = texts(v@);
    let ghost start = set@;
    let mut i: usize = 0;
    assert(start.union(all.subrange(0, 0).to_set()) =~= start);
    while i < v.len()
        invariant
            i <= v.len(),
            all == texts(v@),
            set@ == start.union(all.subrange(0, i as int).to_set()),
        decreases v.len() - i,
    {
        proof {
            crate::name_set::subrange_grows(all, i as int);
            assert(all[i as int] == v@[i as int]@);
        }
        let _new = set.insert(v[i].clone());
        assert(set@ =~= start.union(all.subrange(0, i + 1).to_set()));
        i += 1;
    }
    assert(all.subrange(0, all.len() as int) =~= all);
    assert(set@ =~= start.union(more@));
}

/// Replaces the domains of a blocklist by those of the texts of lists, and gives
/// their number.
pub fn load_blocklists(ctx: &mut ServerCtx, lists: &Vec<String>) -> (total: usize)
    ensures
        final(ctx).blocklist.domains@ == all_listed(texts(lists@)),
        total == all_listed(texts(lists@)).len(),
        *final(ctx) == (ServerCtx {
            blocklist: crate::blocklist::BlocklistStore {
                domains: final(ctx).blocklist.domains,
                ..old(ctx).blocklist
            },
            ..*old(ctx)
        }),
{
    let ghost all = texts(lists@);
    let mut domains = NameSet::new();
    let mut i: usize = 0;
    assert(all.subrange(0, 0) =~= Seq::<Seq<char>>::empty());
    while i < lists.len()
        invariant
            i <= lists.len(),
            all == texts(lists@),
            domains@ == all_listed(all.subrange(0, i as int)),
        decreases lists.len() - i,
    {
        proof {
            let more = all.subrange(0, i + 1);
            assert(more.drop_last() =~= all.subrange(0, i as int));
            assert(more.last() == lists@[i as int]@);
        }
        let found = parse_blocklist(lists[i].as_str());
        take_all(&mut domains, &found);
        i += 1;
    }
    assert(all.subrange(0, all.len() as int) =~= all);
    let total: usize = domains.len();
    ctx.blocklist.swap_domains(domains);
    total
}

/// What a turn of watching the network asks for.
#[derive(Debug, Clone, Copy, PartialEq, Eq, Structural)]
pub struct WatchStep {
    /// The address on the local network is another.
    pub ip_changed: bool,
    /// The system's upstream is to be found out again.
    pub redetect: bool,
    /// Asking over UDP is to be tried again.
    pub probe_udp: bool,
}

/// Takes a turn of watching the network, each five seconds: the address on the
/// local network is taken up, the system's upstream is asked for each half
/// minute and after a change of address, where it is followed, and UDP is tried
/// each five minutes.
pub fn network_watch(ctx: &mut ServerCtx, tick: u64, lan_ip: Option<Ipv4Addr>) -> (r: WatchStep)
    ensures
        ({
            let changed = lan_ip matches Some(a) && a != old(ctx).lan_ip;
            &&& r == (WatchStep {
                ip_changed: changed,
                redetect: old(ctx).upstream_auto && (changed || tick % 6 == 0),
                probe_udp: tick % 60 == 0,
            })
            &&& *final(ctx) == (ServerCtx {
                lan_ip: if lan_ip is Some {
                    lan_ip->0
                } else {
                    old(ctx).lan_ip
                },
                ..*old(ctx)
            })
        }),
{
    let mut changed = false;
    if let Some(a) = lan_ip {
        if a != ctx.lan_ip {
            ctx.lan_ip = a;
            changed = true;
        }
    }
    WatchStep {
        ip_changed: changed,
        redetect: ctx.upstream_auto && (changed || tick % 6 == 0),
        probe_udp: tick % 60 == 0,
    }
}

/// Whether the peers on the local network are to be found out anew: the address
/// on that network is another, or the upstream is.
pub fn flushes_peers(step: WatchStep, upstream_changed: bool) -> (b: bool)
    ensures
        b == (step.ip_changed || upstream_changed),
{
    step.ip_changed || upstream_changed
}

/// The upstream that was found out: the system's, the network's, or a public one.
pub open spec fn detected(system: Option<Seq<char>>, network: Option<Seq<char>>) -> Seq<char> {
    match (system, network) {
        (Some(s), _) => s,
        (None, Some(n)) => n,
        (None, None) => QUAD9_IP@,
    }
}

/// Takes up the upstream that was found out, and says whether it is another.
pub fn upstream_detected(
    ctx: &mut ServerCtx,
    system: Option<String>,
    network: Option<String>,
) -> (changed: bool)
    ensures
        ({
            let a = addr_text(detected(text_in(system), text_in(network)), old(ctx).upstream_port);
            let before = old(ctx).upstream_pool@;
            if a is None || (before.primary.len() > 0 && before.primary[0] == UpstreamView::Udp(
                a->0,
            )) {
                !changed && final(ctx).upstream_pool@ == before
            } else {
                changed && final(ctx).upstream_pool@ == (PoolView {
                    primary: seq![UpstreamView::Udp(a->0)],
                    fallback: before.fallback,
                })
            }
        }),
        *final(ctx) == (ServerCtx { upstream_pool: final(ctx).upstream_pool, ..*old(ctx) }),
{
    let addr = match system {
        Some(s) => s,
        None => match network {
            Some(n) => n,
            None => QUAD9_IP.to_owned(),
        },
    };
    let port: u16 = ctx.upstream_port;
    ctx.upstream_pool.maybe_update_primary(addr.as_str(), port)
}

/// What a datagram of a peer is, by its bytes and the front-ends.
pub open spec fn datagram_kind(bytes: Seq<u8>, peer: SocketAddr, pp: Option<&PpConfig>) -> UdpPp {
    match pp {
        None => UdpPp::Bare,
        Some(p) => if !in_any(p.from@, peer.ip) {
            UdpPp::Drop
        } else {
            match proxy_v2_header(bytes) {
                None => UdpPp::Drop,
                Some((Some(src), n)) => UdpPp::Proxied {
                    src,
                    hdr_len: n as usize,
                    local_command: false,
                },
                Some((None, n)) => UdpPp::Proxied {
                    src: peer,
                    hdr_len: n as usize,
                    local_command: true,
                },
            }
        },
    }
}

/// The counters after a datagram of a peer.
pub open spec fn datagram_stats(
    s: ServerStats,
    bytes: Seq<u8>,
    peer: SocketAddr,
    pp: Option<&PpConfig>,
) -> ServerStats {
    match pp {
        None => s,
        Some(p) => if !in_any(p.from@, peer.ip) {
            one_untrusted(s)
        } else {
            match proxy_v2_header(bytes) {
                None => one_invalid(s),
                Some((source, _)) => one_header(s, source),
            }
        },
    }
}

/// Takes a datagram in: the client whose message it holds, and the length of the
/// message, which is then at the start of the buffer. Nothing where it is
/// dropped, without a reply: where it is not from a front-end though these are
/// listed, holds no header, or is of a client that may not ask.
pub fn take_datagram(
    ctx: &mut ServerCtx,
    buf: &mut [u8],
    len: usize,
    peer: SocketAddr,
    pp: Option<&PpConfig>,
) -> (r: Option<(SocketAddr, usize)>)
    requires
        old(ctx).wf(),
        has_room(&old(ctx).stats),
        len <= old(buf)@.len(),
        pp matches Some(p) ==> p.wf(),
    ensures
        *final(ctx) == (ServerCtx {
            stats: datagram_stats(
                old(ctx).stats,
                old(buf)@.subrange(0, len as int),
                peer,
                pp,
            ),
            ..*old(ctx)
        }),
        match datagram_kind(old(buf)@.subrange(0, len as int), peer, pp) {
            UdpPp::Drop => r is None && final(buf)@ == old(buf)@,
            UdpPp::Bare => final(buf)@ == old(buf)@ && r == (if old(ctx).allow_from.permits(
                peer.ip,
            ) {
                Some((peer, len))
            } else {
                None
            }),
            UdpPp::Proxied { src, hdr_len, local_command } => {
                &&& hdr_len <= len
                &&& final(buf)@ == shifted(old(buf)@, hdr_len as int, len as int)
                &&& r == (if local_command || old(ctx).allow_from.permits(src.ip) {
                    Some((src, (len - hdr_len) as usize))
                } else {
                    None
                })
            },
        },
{
    let kind = parse_if_trusted(
        vstd::slice::slice_subrange(buf, 0, len),
        peer,
        pp,
        &mut ctx.stats,
    );
    match kind.apply(buf, len, peer) {
        None => None,
        Some((src, n, local_command)) => {
            if !ctx.allow_from.admits(src.ip, local_command) {
                return None;
            }
            Some((src, n))
        },
    }
}

/// Where front-ends are listed, a header is required: no datagram is taken as it
/// came, and none of another sender is taken at all.
pub proof fn headers_are_required(bytes: Seq<u8>, peer: SocketAddr, pp: &PpConfig)
    ensures
        !(datagram_kind(bytes, peer, Some(pp)) is Bare),
        proxy_v2_header(bytes) is None ==> datagram_kind(bytes, peer, Some(pp)) is Drop,
        !in_any(pp.from@, peer.ip) ==> datagram_kind(bytes, peer, Some(pp)) is Drop,
{
}

} // verus!
