//! Internet addresses as numbers, and networks of them.
use vstd::arithmetic::power2::{lemma2_to64, pow2};
use vstd::bits::{lemma_u128_shr_is_div, lemma_u32_shr_is_div};
use vstd::prelude::*;

use crate::text::{
    all_digits, chars_of, cut_at, decimal, decimal_string, decimal_value, parse_u64, string_range,
    up_to,
};

verus! {

/// An IPv4 address as a number, its first octet highest.
#[derive(Debug, Clone, Copy, PartialEq, Eq, Hash, PartialOrd, Ord, Structural)]
pub struct Ipv4Addr {
    pub bits: u32,
}

/// An IPv6 address as a number, its first segment highest.
#[derive(Debug, Clone, Copy, PartialEq, Eq, Hash, PartialOrd, Ord, Structural)]
pub struct Ipv6Addr {
    pub bits: u128,
}

/// An address of either family.
#[derive(Debug, Clone, Copy, PartialEq, Eq, Hash, PartialOrd, Ord, Structural)]
pub enum IpAddr {
    V4(Ipv4Addr),
    V6(Ipv6Addr),
}

/// An address and a port. The scope says on which link an IPv6 address is, by a
/// number other than 0; for other addresses it is 0.
#[derive(Debug, Clone, Copy, PartialEq, Eq, Hash, PartialOrd, Ord, Structural)]
pub struct SocketAddr {
    pub ip: IpAddr,
    pub port: u16,
    pub scope: u32,
}

/// The number of the IPv4 address with these octets.
pub open spec fn v4_bits(a: u8, b: u8, c: u8, d: u8) -> u32 {
    (a * 16777216 + b * 65536 + c * 256 + d) as u32
}

/// The text of an IPv4 address: four decimal octets between dots.
pub open spec fn ipv4_text(a: Ipv4Addr) -> Seq<char> {
    decimal((a.bits / 16777216) as nat) + seq!['.'] + decimal((a.bits / 65536 % 256) as nat) + seq![
        '.',
    ] + decimal((a.bits / 256 % 256) as nat) + seq!['.'] + decimal((a.bits % 256) as nat)
}

impl Ipv4Addr {
    /// The IPv6 address under ::ffff:0:0/96 that stands for this address.
    pub open spec fn as_mapped(&self) -> Ipv6Addr {
        Ipv6Addr { bits: (0xffff_0000_0000 + self.bits) as u128 }
    }

    /// The IPv6 address under ::ffff:0:0/96 that stands for this address.
    pub fn to_ipv6_mapped(&self) -> (r: Ipv6Addr)
        ensures
            r == self.as_mapped(),
            r.mapped() == Some(*self),
    {
        Ipv6Addr { bits: 0xffff_0000_0000 + self.bits as u128 }
    }

    /// The address with these octets.
    pub fn new(a: u8, b: u8, c: u8, d: u8) -> (r: Self)
        ensures
            r.bits == v4_bits(a, b, c, d),
    {
        Ipv4Addr { bits: a as u32 * 16777216 + b as u32 * 65536 + c as u32 * 256 + d as u32 }
    }

    /// The four octets, first to last.
    pub fn octets(&self) -> (r: [u8; 4])
        ensures
            r@ == crate::buffer::be32(self.bits),
    {
        let r = [
            (self.bits / 16777216) as u8,
            (self.bits / 65536 % 256) as u8,
            (self.bits / 256 % 256) as u8,
            (self.bits % 256) as u8,
        ];
        assert(r@ =~= crate::buffer::be32(self.bits));
        r
    }

    /// Whether the address is in 127.0.0.0/8.
    pub open spec fn loopback(&self) -> bool {
        self.bits / 16777216 == 127
    }

    /// Whether the address is in 127.0.0.0/8.
    pub fn is_loopback(&self) -> (b: bool)
        ensures
            b == self.loopback(),
    {
        self.bits / 16777216 == 127
    }

    /// The address in dotted decimal.
    pub fn to_text(&self) -> (s: String)
        ensures
            s@ == ipv4_text(*self),
    {
        let mut s = decimal_string((self.bits / 16777216) as u64);
        s.push('.');
        s.append(decimal_string((self.bits / 65536 % 256) as u64).as_str());
        s.push('.');
        s.append(decimal_string((self.bits / 256 % 256) as u64).as_str());
        s.push('.');
        s.append(decimal_string((self.bits % 256) as u64).as_str());
        assert(s@ =~= ipv4_text(*self));
        s
    }
}

/// The number of the IPv6 address with these segments.
pub open spec fn v6_bits(s: Seq<u16>) -> u128 {
    (((((((s[0] * 65536 + s[1]) * 65536 + s[2]) * 65536 + s[3]) * 65536 + s[4]) * 65536 + s[5])
        * 65536 + s[6]) * 65536 + s[7]) as u128
}

impl Ipv6Addr {
    /// The address with these segments.
    pub fn new(a: u16, b: u16, c: u16, d: u16, e: u16, f: u16, g: u16, h: u16) -> (r: Self)
        ensures
            r.bits == v6_bits(seq![a, b, c, d, e, f, g, h]),
    {
        let m: u128 = 65536;
        let x1: u128 = a as u128 * m + b as u128;
        let x2: u128 = x1 * m + c as u128;
        let x3: u128 = x2 * m + d as u128;
        let x4: u128 = x3 * m + e as u128;
        let x5: u128 = x4 * m + f as u128;
        let x6: u128 = x5 * m + g as u128;
        let x7: u128 = x6 * m + h as u128;
        Ipv6Addr { bits: x7 }
    }

    /// Whether the address is ::1.
    pub open spec fn loopback(&self) -> bool {
        self.bits == 1
    }

    /// Whether the address is ::1.
    pub fn is_loopback(&self) -> (b: bool)
        ensures
            b == self.loopback(),
    {
        self.bits == 1
    }

    /// The IPv4 address that an address under ::ffff:0:0/96 stands for.
    pub open spec fn mapped(&self) -> Option<Ipv4Addr> {
        if self.bits / 0x1_0000_0000 == 0xffff {
            Some(Ipv4Addr { bits: (self.bits % 0x1_0000_0000) as u32 })
        } else {
            None
        }
    }

    /// The IPv4 address that an address under ::ffff:0:0/96 stands for.
    pub fn to_ipv4_mapped(&self) -> (r: Option<Ipv4Addr>)
        ensures
            r == self.mapped(),
    {
        if self.bits / 0x1_0000_0000 == 0xffff {
            Some(Ipv4Addr { bits: (self.bits % 0x1_0000_0000) as u32 })
        } else {
            None
        }
    }
}

impl IpAddr {
    /// Whether the address is a loopback address of its family.
    pub open spec fn loopback(&self) -> bool {
        match self {
            IpAddr::V4(a) => a.loopback(),
            IpAddr::V6(a) => a.loopback(),
        }
    }

    /// Whether the address is a loopback address of its family.
    pub fn is_loopback(&self) -> (b: bool)
        ensures
            b == self.loopback(),
    {
        match self {
            IpAddr::V4(a) => a.is_loopback(),
            IpAddr::V6(a) => a.is_loopback(),
        }
    }

    /// The address with an IPv4-mapped one replaced by what it stands for.
    pub open spec fn canonical(&self) -> IpAddr {
        match self {
            IpAddr::V4(a) => IpAddr::V4(*a),
            IpAddr::V6(a) => match a.mapped() {
                Some(b) => IpAddr::V4(b),
                None => IpAddr::V6(*a),
            },
        }
    }

    /// The address with an IPv4-mapped one replaced by what it stands for.
    pub fn to_canonical(&self) -> (r: IpAddr)
        ensures
            r == self.canonical(),
    {
        match self {
            IpAddr::V4(a) => IpAddr::V4(*a),
            IpAddr::V6(a) => match a.to_ipv4_mapped() {
                Some(b) => IpAddr::V4(b),
                None => IpAddr::V6(*a),
            },
        }
    }
}

/// A network: the addresses of one family that share the first `prefix` bits
/// of `addr`.
#[allow(inconsistent_fields)]
#[derive(Debug, Clone, Copy, PartialEq, Eq, Structural)]
pub enum IpNet {
    V4 { addr: u32, prefix: u8 },
    V6 { addr: u128, prefix: u8 },
}

/// Whether two numbers of `width` bits share their first `prefix` bits.
pub open spec fn same_prefix(a: nat, b: nat, width: nat, prefix: nat) -> bool {
    a / pow2((width - prefix) as nat) == b / pow2((width - prefix) as nat)
}

impl IpNet {
    /// Whether the prefix is no longer than an address.
    pub open spec fn wf(&self) -> bool {
        match self {
            IpNet::V4 { addr, prefix } => *prefix <= 32,
            IpNet::V6 { addr, prefix } => *prefix <= 128,
        }
    }

    /// Whether an address belongs to the network.
    pub open spec fn has(&self, ip: IpAddr) -> bool {
        match (self, ip) {
            (IpNet::V4 { addr, prefix }, IpAddr::V4(a)) => same_prefix(
                *addr as nat,
                a.bits as nat,
                32,
                *prefix as nat,
            ),
            (IpNet::V6 { addr, prefix }, IpAddr::V6(a)) => same_prefix(
                *addr as nat,
                a.bits as nat,
                128,
                *prefix as nat,
            ),
            _ => false,
        }
    }

    /// The network that holds one address alone.
    pub open spec fn single(ip: IpAddr) -> IpNet {
        match ip {
            IpAddr::V4(a) => IpNet::V4 { addr: a.bits, prefix: 32 },
            IpAddr::V6(a) => IpNet::V6 { addr: a.bits, prefix: 128 },
        }
    }

    /// The network that holds one address alone.
    pub fn host(ip: IpAddr) -> (r: IpNet)
        ensures
            r == IpNet::single(ip),
            r.wf(),
    {
        match ip {
            IpAddr::V4(a) => IpNet::V4 { addr: a.bits, prefix: 32 },
            IpAddr::V6(a) => IpNet::V6 { addr: a.bits, prefix: 128 },
        }
    }

    /// Whether an address belongs to the network.
    pub fn contains(&self, ip: IpAddr) -> (b: bool)
        requires
            self.wf(),
        ensures
            b == self.has(ip),
    {
        match (self, ip) {
            (IpNet::V4 { addr, prefix }, IpAddr::V4(a)) => {
                if *prefix == 0 {
                    proof {
                        lemma2_to64();
                        div_below_is_zero(*addr as nat, pow2(32));
                        div_below_is_zero(a.bits as nat, pow2(32));
                    }
                    return true;
                }
                let shift: u32 = 32 - *prefix as u32;
                proof {
                    lemma_u32_shr_is_div(*addr, shift);
                    lemma_u32_shr_is_div(a.bits, shift);
                }
                *addr >> shift == a.bits >> shift
            },
            (IpNet::V6 { addr, prefix }, IpAddr::V6(a)) => {
                if *prefix == 0 {
                    proof {
                        pow2_128();
                        div_below_is_zero(*addr as nat, pow2(128));
                        div_below_is_zero(a.bits as nat, pow2(128));
                    }
                    return true;
                }
                let shift: u128 = 128 - *prefix as u128;
                proof {
                    lemma_u128_shr_is_div(*addr, shift);
                    lemma_u128_shr_is_div(a.bits, shift);
                }
                *addr >> shift == a.bits >> shift
            },
            _ => false,
        }
    }
}

proof fn div_below_is_zero(a: nat, m: nat)
    requires
        a < m,
    ensures
        a / m == 0,
{
    vstd::arithmetic::div_mod::lemma_basic_div(a as int, m as int);
}

proof fn pow2_128()
    ensures
        pow2(128) == 0x1_0000_0000_0000_0000_0000_0000_0000_0000,
{
    lemma2_to64();
    vstd::arithmetic::power2::lemma_pow2_adds(64, 64);
}

/// The address that a text stands for, by std's grammar of addresses.
pub uninterp spec fn ip_text(s: Seq<char>) -> Option<IpAddr>;

/// The network that a text stands for, by the grammar of the crate `ipnet`.
pub uninterp spec fn net_text(s: Seq<char>) -> Option<IpNet>;

/// `FromStr` of std's `IpAddr`, which `ipnet::IpNet::new` picks: the address
/// that the text stands for, a function of the text alone. An IPv4 address is
/// what stands in dotted decimal, without leading zeros, and nothing else.
#[verifier::external_body]
fn read_ip(s: &str) -> (r: Option<IpAddr>)
    ensures
        r == ip_text(s@),
        forall|a: Ipv4Addr| r == Some(IpAddr::V4(a)) <==> s@ == #[trigger] ipv4_text(a),
{
    match ipnet::IpNet::new(s.parse().ok()?, 0).ok()? {
        ipnet::IpNet::V4(n) => Some(IpAddr::V4(Ipv4Addr { bits: n.addr().into() })),
        ipnet::IpNet::V6(n) => Some(IpAddr::V6(Ipv6Addr { bits: n.addr().into() })),
    }
}

/// The address that a text stands for.
pub fn parse_ip(s: &str) -> (r: Option<IpAddr>)
    ensures
        r == ip_text(s@),
        forall|a: Ipv4Addr| r == Some(IpAddr::V4(a)) <==> s@ == #[trigger] ipv4_text(a),
{
    read_ip(s)
}

/// `FromStr` of `ipnet::IpNet`: the network that the text stands for, a
/// function of the text alone, with a prefix that is no longer than an
/// address. An IPv4 address in dotted decimal, a slash and a prefix length of
/// at most 32 stand for that address with that prefix.
#[verifier::external_body]
pub(crate) fn parse_net(s: &str) -> (r: Option<IpNet>)
    ensures
        r == net_text(s@),
        r matches Some(n) ==> n.wf(),
        forall|a: Ipv4Addr, p: u8|
            p <= 32 && s@ == #[trigger] (ipv4_text(a) + seq!['/'] + decimal(p as nat)) ==> r
                == Some(IpNet::V4 { addr: a.bits, prefix: p }),
{
    match s.parse::<ipnet::IpNet>().ok()? {
        ipnet::IpNet::V4(n) => Some(IpNet::V4 { addr: n.addr().into(), prefix: n.prefix_len() }),
        ipnet::IpNet::V6(n) => Some(IpNet::V6 { addr: n.addr().into(), prefix: n.prefix_len() }),
    }
}

/// The IPv4 address that a text stands for.
pub fn parse_ipv4(s: &str) -> (r: Option<Ipv4Addr>)
    ensures
        forall|a: Ipv4Addr| r == Some(a) <==> s@ == #[trigger] ipv4_text(a),
        ip_text(s@) matches Some(IpAddr::V4(a)) ==> r == Some(a),
        !(ip_text(s@) matches Some(IpAddr::V4(_))) ==> r is None,
{
    match parse_ip(s) {
        Some(IpAddr::V4(a)) => Some(a),
        _ => None,
    }
}

/// The IPv6 address that a text stands for.
pub open spec fn ipv6_text(s: Seq<char>) -> Option<Ipv6Addr> {
    match ip_text(s) {
        Some(IpAddr::V6(a)) => Some(a),
        _ => None,
    }
}

/// The IPv6 address that a text stands for.
pub fn parse_ipv6(s: &str) -> (r: Option<Ipv6Addr>)
    ensures
        r == ipv6_text(s@),
{
    match parse_ip(s) {
        Some(IpAddr::V6(a)) => Some(a),
        _ => None,
    }
}

/// The port that a text stands for: digits that make at most 65535.
pub open spec fn port_text(s: Seq<char>) -> Option<u16> {
    if s.len() > 0 && all_digits(s) && decimal_value(s) <= 65535 {
        Some(decimal_value(s) as u16)
    } else {
        None
    }
}

/// The number that a text of digits stands for.
fn parse_digits(s: &str) -> (r: Option<u64>)
    ensures
        match r {
            Some(n) => s@.len() > 0 && all_digits(s@) && decimal_value(s@) == n,
            None => s@.len() == 0 || !all_digits(s@) || decimal_value(s@) > u64::MAX,
        },
{
    let x = chars_of(s);
    if x.len() == 0 {
        return None;
    }
    if x[0] == '+' {
        assert(!crate::text::is_digit(s@[0]));
        return None;
    }
    parse_u64(s)
}

/// The port that a text stands for.
pub fn parse_port(s: &str) -> (r: Option<u16>)
    ensures
        r == port_text(s@),
{
    match parse_digits(s) {
        Some(n) => if n <= 65535 {
            Some(n as u16)
        } else {
            None
        },
        None => None,
    }
}

/// The address and the scope that a text between brackets stands for: an IPv6
/// address, and after a percent sign a number of 32 bits, where there is one.
pub open spec fn bracketed_text(s: Seq<char>) -> Option<(Ipv6Addr, u32)> {
    let host = up_to(s, '%');
    let scope = if host.len() == s.len() {
        seq!['0']
    } else {
        s.subrange(host.len() as int + 1, s.len() as int)
    };
    match ipv6_text(host) {
        Some(a) => if scope.len() > 0 && all_digits(scope) && decimal_value(scope)
            <= 0xffff_ffff {
            Some((a, decimal_value(scope) as u32))
        } else {
            None
        },
        None => None,
    }
}

/// The address and port that a text stands for: an IPv4 address, or an IPv6
/// address between brackets, then a colon and a port.
pub open spec fn socket_text(s: Seq<char>) -> Option<SocketAddr> {
    if s.len() > 0 && s[0] == '[' {
        let inner = up_to(s.drop_first(), ']');
        let rest = s.subrange(1 + inner.len() as int, s.len() as int);
        if rest.len() >= 2 && rest[1] == ':' {
            match (bracketed_text(inner), port_text(rest.subrange(2, rest.len() as int))) {
                (Some((a, scope)), Some(port)) => Some(
                    SocketAddr { ip: IpAddr::V6(a), port, scope },
                ),
                _ => None,
            }
        } else {
            None
        }
    } else {
        let host = up_to(s, ':');
        if host.len() == s.len() {
            None
        } else {
            match (ip_text(host), port_text(s.subrange(host.len() as int + 1, s.len() as int))) {
                (Some(IpAddr::V4(a)), Some(port)) => Some(
                    SocketAddr { ip: IpAddr::V4(a), port, scope: 0 },
                ),
                _ => None,
            }
        }
    }
}

/// The address and the scope that a text between brackets stands for.
fn parse_bracketed(s: &str) -> (r: Option<(Ipv6Addr, u32)>)
    ensures
        r == bracketed_text(s@),
{
    let host = cut_at(s, '%');
    proof {
        up_to_is_prefix(s@, '%');
    }
    let x = chars_of(s);
    let n: usize = chars_of(host.as_str()).len();
    let a = match parse_ipv6(host.as_str()) {
        Some(a) => a,
        None => {
            return None;
        },
    };
    if n == x.len() {
        proof {
            let zero = seq!['0'];
            reveal_with_fuel(decimal_value, 2);
            assert(all_digits(zero));
            assert(decimal_value(zero) == 0);
        }
        return Some((a, 0));
    }
    let scope = string_range(x.as_slice(), n + 1, x.len());
    match parse_digits(scope.as_str()) {
        Some(v) => if v <= 0xffff_ffff {
            Some((a, v as u32))
        } else {
            None
        },
        None => None,
    }
}

/// A text up to a character is no longer than the text, and ends at the
/// character where it is shorter.
pub proof fn up_to_is_prefix(s: Seq<char>, c: char)
    ensures
        up_to(s, c).len() <= s.len(),
        up_to(s, c) == s.subrange(0, up_to(s, c).len() as int),
        up_to(s, c).len() < s.len() ==> s[up_to(s, c).len() as int] == c,
    decreases s.len(),
{
    if s.len() > 0 && s[0] != c {
        let rest = s.drop_first();
        up_to_is_prefix(rest, c);
        let u = up_to(rest, c);
        assert(up_to(s, c) =~= s.subrange(0, u.len() as int + 1)) by {
            assert forall|i: int| 0 <= i < u.len() implies u[i] == s[i + 1] by {
                assert(rest.subrange(0, u.len() as int)[i] == rest[i]);
            }
        }
    } else {
        assert(s.subrange(0, 0) =~= Seq::<char>::empty());
    }
}

/// The address and port that a text stands for.
pub fn parse_socket_addr(s: &str) -> (r: Option<SocketAddr>)
    ensures
        r == socket_text(s@),
{
    let x = chars_of(s);
    if x.len() > 0 && x[0] == '[' {
        let tail = string_range(x.as_slice(), 1, x.len());
        assert(tail@ =~= s@.drop_first());
        let inner = cut_at(tail.as_str(), ']');
        proof {
            up_to_is_prefix(tail@, ']');
        }
        let n: usize = chars_of(inner.as_str()).len();
        let ghost rest = s@.subrange(1 + n as int, s@.len() as int);
        if x.len() - n - 1 < 2 || x[n + 2] != ':' {
            return None;
        }
        assert(rest[1] == x@[n + 2]);
        let port = string_range(x.as_slice(), n + 3, x.len());
        assert(port@ =~= rest.subrange(2, rest.len() as int));
        return match (parse_bracketed(inner.as_str()), parse_port(port.as_str())) {
            (Some((a, scope)), Some(port)) => Some(SocketAddr { ip: IpAddr::V6(a), port, scope }),
            _ => None,
        };
    }
    let host = cut_at(s, ':');
    proof {
        up_to_is_prefix(s@, ':');
    }
    let n: usize = chars_of(host.as_str()).len();
    if n == x.len() {
        return None;
    }
    let port = string_range(x.as_slice(), n + 1, x.len());
    match (parse_ip(host.as_str()), parse_port(port.as_str())) {
        (Some(IpAddr::V4(a)), Some(port)) => Some(SocketAddr { ip: IpAddr::V4(a), port, scope: 0 }),
        _ => None,
    }
}

} // verus!
