//! The PROXY protocol in front of a datagram.
use vstd::prelude::*;

use crate::acl::in_any;
use crate::net::SocketAddr;
use crate::pp2::{
    has_room, one_header, one_invalid, one_untrusted, parse_header, proxy_v2_header, PpConfig,
};
use crate::stats::ServerStats;

verus! {

/// What a datagram is.
#[derive(Debug, Clone, Copy, PartialEq, Eq, Structural)]
pub enum UdpPp {
    /// A message of the peer itself.
    Bare,
    /// A message of `src` behind a header. A local command is one of the
    /// front-end itself, which asks for no client.
    Proxied { src: SocketAddr, hdr_len: usize, local_command: bool },
    /// Nothing to listen to.
    Drop,
}

/// Bytes whose part from `from` to `to` stands at the start too.
pub open spec fn shifted(b: Seq<u8>, from: int, to: int) -> Seq<u8> {
    Seq::new(
        b.len(),
        |i: int|
            if i < to - from {
                b[i + from]
            } else {
                b[i]
            },
    )
}

impl UdpPp {
    /// The client, the length of its message, which is moved to the start of
    /// the buffer, and whether the front-end asks for itself; nothing where the
    /// datagram is dropped.
    pub fn apply(self, buf: &mut [u8], len: usize, peer: SocketAddr) -> (r: Option<
        (SocketAddr, usize, bool),
    >)
        requires
            self matches UdpPp::Proxied { hdr_len, .. } ==> hdr_len <= len <= old(buf)@.len(),
        ensures
            match self {
                UdpPp::Bare => r == Some((peer, len, false)) && final(buf)@ == old(buf)@,
                UdpPp::Proxied { src, hdr_len, local_command } => {
                    &&& r == Some((src, (len - hdr_len) as usize, local_command))
                    &&& final(buf)@ == shifted(old(buf)@, hdr_len as int, len as int)
                },
                UdpPp::Drop => r is None && final(buf)@ == old(buf)@,
            },
    {
        match self {
            UdpPp::Bare => Some((peer, len, false)),
            UdpPp::Proxied { src, hdr_len, local_command } => {
                let n: usize = len - hdr_len;
                let ghost before = buf@;
                let mut i: usize = 0;
                while i < n
                    invariant
                        i <= n,
                        n == len - hdr_len,
                        hdr_len <= len <= before.len(),
                        buf@.len() == before.len(),
                        forall|j: int| 0 <= j < i ==> #[trigger] buf@[j] == before[j + hdr_len],
                        forall|j: int| i <= j < before.len() ==> #[trigger] buf@[j] == before[j],
                    decreases n - i,
                {
                    let b: u8 = buf[i + hdr_len];
                    buf[i] = b;
                    i += 1;
                }
                assert(buf@ =~= shifted(before, hdr_len as int, len as int));
                Some((src, n, local_command))
            },
            UdpPp::Drop => None,
        }
    }
}

/// What a datagram with a header that was read is, where it is from a front-end.
pub fn with_header(
    header: Option<(Option<SocketAddr>, usize)>,
    peer: SocketAddr,
    stats: &mut ServerStats,
) -> (r: UdpPp)
    requires
        has_room(old(stats)),
    ensures
        match header {
            None => r == UdpPp::Drop && *final(stats) == one_invalid(*old(stats)),
            Some((source, n)) => {
                &&& *final(stats) == one_header(*old(stats), source)
                &&& r == (match source {
                    Some(src) => UdpPp::Proxied { src, hdr_len: n, local_command: false },
                    None => UdpPp::Proxied { src: peer, hdr_len: n, local_command: true },
                })
            },
        },
{
    match header {
        None => {
            stats.proxy_v2_rejected_signature = stats.proxy_v2_rejected_signature + 1;
            UdpPp::Drop
        },
        Some((Some(src), hdr_len)) => {
            stats.proxy_v2_accepted = stats.proxy_v2_accepted + 1;
            UdpPp::Proxied { src, hdr_len, local_command: false }
        },
        Some((None, hdr_len)) => {
            stats.proxy_v2_local_command = stats.proxy_v2_local_command + 1;
            UdpPp::Proxied { src: peer, hdr_len, local_command: true }
        },
    }
}

/// What a datagram from a peer is. Where front-ends are listed, only they are
/// listened to, and only with a header.
pub fn parse_if_trusted(
    bytes: &[u8],
    peer: SocketAddr,
    pp: Option<&PpConfig>,
    stats: &mut ServerStats,
) -> (r: UdpPp)
    requires
        pp matches Some(p) ==> p.wf(),
        has_room(old(stats)),
    ensures
        match pp {
            None => r == UdpPp::Bare && *final(stats) == *old(stats),
            Some(p) => if !in_any(p.from@, peer.ip) {
                r == UdpPp::Drop && *final(stats) == one_untrusted(*old(stats))
            } else {
                match proxy_v2_header(bytes@) {
                    None => r == UdpPp::Drop && *final(stats) == one_invalid(*old(stats)),
                    Some((source, n)) => {
                        &&& *final(stats) == one_header(*old(stats), source)
                        &&& n <= bytes@.len()
                        &&& r == (match source {
                            Some(src) => UdpPp::Proxied {
                                src,
                                hdr_len: n as usize,
                                local_command: false,
                            },
                            None => UdpPp::Proxied {
                                src: peer,
                                hdr_len: n as usize,
                                local_command: true,
                            },
                        })
                    },
                }
            },
        },
{
    let p = match pp {
        None => {
            return UdpPp::Bare;
        },
        Some(p) => p,
    };
    if !p.allows(peer.ip) {
        stats.proxy_v2_rejected_untrusted = stats.proxy_v2_rejected_untrusted + 1;
        return UdpPp::Drop;
    }
    with_header(parse_header(bytes), peer, stats)
}

} // verus!
