//! What addresses and networks come to: which octets an address is made of,
//! which addresses a network holds, and how an address with a port is written.
use vstd::arithmetic::power2::{lemma2_to64, lemma_pow2_adds, lemma_pow2_pos, pow2};
use vstd::prelude::*;

use crate::net::{
    bracketed_text, ip_text, ipv4_text, port_text, socket_text, v4_bits, v6_bits,
    IpAddr, IpNet, Ipv4Addr, Ipv6Addr, SocketAddr,
};
use crate::text::{all_digits, decimal, decimal_value, is_digit};
use crate::text_laws::{cut_at_the_first, digits_give_the_number};

verus! {

// ---------------------------------------------------------------------------
// Octets
// ---------------------------------------------------------------------------

/// An IPv4 address has its four octets one after the other, the first at the
/// top, and is written with them in decimal and dots between. It is loopback
/// where the first of them is 127.
pub proof fn octets_of_an_address(a: u8, b: u8, c: u8, d: u8)
    ensures
        ({
            let addr = Ipv4Addr { bits: v4_bits(a, b, c, d) };
            &&& addr.bits == a * 0x100_0000 + b * 0x1_0000 + c * 0x100 + d
            &&& ipv4_text(addr) == decimal(a as nat) + seq!['.'] + decimal(b as nat) + seq!['.']
                + decimal(c as nat) + seq!['.'] + decimal(d as nat)
            &&& addr.loopback() <==> a == 127
            &&& IpAddr::V4(addr).loopback() <==> a == 127
            &&& IpAddr::V4(addr).canonical() == IpAddr::V4(addr)
        }),
{
    octets_apart(a, b, c, d);
}

proof fn octets_apart(a: u8, b: u8, c: u8, d: u8)
    ensures
        v4_bits(a, b, c, d) as int == a * 0x100_0000 + b * 0x1_0000 + c * 0x100 + d,
        v4_bits(a, b, c, d) as int / 0x100_0000 == a,
        v4_bits(a, b, c, d) as int / 0x1_0000 == a * 0x100 + b,
        v4_bits(a, b, c, d) as int / 0x1_0000 % 0x100 == b,
        v4_bits(a, b, c, d) as int / 0x100 == (a * 0x100 + b) * 0x100 + c,
        v4_bits(a, b, c, d) as int / 0x100 % 0x100 == c,
        v4_bits(a, b, c, d) as int % 0x100 == d,
{
    let n: int = a * 16777216 + b * 65536 + c * 256 + d;
    let two: int = a * 256 + b;
    let three: int = two * 256 + c;
    assert(n == three * 256 + d);
    assert(n == two * 65536 + (c * 256 + d));
    assert(0 <= n < 0x1_0000_0000);
    assert(v4_bits(a, b, c, d) == n);
    assert(n / 256 == three && n % 256 == d);
    assert(three % 256 == c);
    assert(n / 65536 == two);
    assert(two % 256 == b);
    assert(n / 16777216 == a);
}

/// An IPv6 address has its eight groups one after the other. Where the first
/// five are zero and the sixth is all ones it stands for the IPv4 address of the
/// other two, and is that address in its canonical form; no other does. The
/// address one is loopback, and no other.
pub proof fn groups_of_an_address(s: Seq<u16>)
    requires
        s.len() == 8,
    ensures
        ({
            let addr = Ipv6Addr { bits: v6_bits(s) };
            let v4 = s[0] == 0 && s[1] == 0 && s[2] == 0 && s[3] == 0 && s[4] == 0 && s[5] == 0xffff;
            &&& v4 ==> addr.mapped() == Some(Ipv4Addr { bits: (s[6] * 0x1_0000 + s[7]) as u32 })
            &&& !v4 ==> addr.mapped() is None
            &&& v4 ==> IpAddr::V6(addr).canonical() == IpAddr::V4(
                Ipv4Addr { bits: (s[6] * 0x1_0000 + s[7]) as u32 },
            )
            &&& !v4 ==> IpAddr::V6(addr).canonical() == IpAddr::V6(addr)
            &&& addr.loopback() <==> (s[7] == 1 && forall|i: int|
                0 <= i < 7 ==> #[trigger] s[i] == 0)
        }),
{
    let l: int = s[6] * 0x1_0000 + s[7];
    let n: int = ((((((s[0] * 65536 + s[1]) * 65536 + s[2]) * 65536 + s[3]) * 65536 + s[4]) * 65536
        + s[5]) * 65536 + s[6]) * 65536 + s[7];
    let g: int = s[0] * 0x1_0000_0000_0000_0000_0000 + s[1] * 0x1_0000_0000_0000_0000 + s[2]
        * 0x1_0000_0000_0000 + s[3] * 0x1_0000_0000 + s[4] * 0x1_0000 + s[5];
    assert(n == g * 0x1_0000_0000 + l);
    assert(0 <= l < 0x1_0000_0000);
    assert(n / 0x1_0000_0000 == g && n % 0x1_0000_0000 == l);
    assert(0 <= n < 0x1_0000_0000_0000_0000_0000_0000_0000_0000);
    assert(v6_bits(s) == n);
    if n == 1 {
        assert(g == 0 && l == 1);
        assert(s[0] == 0 && s[1] == 0 && s[2] == 0 && s[3] == 0 && s[4] == 0 && s[5] == 0);
        assert(s[6] == 0);
    }
}

/// An IPv4 address in the form of an IPv6 address stands for itself.
pub proof fn mapped_and_back(a: Ipv4Addr)
    ensures
        a.as_mapped().mapped() == Some(a),
        a.as_mapped().bits == 0xffff * 0x1_0000_0000 + a.bits,
{
}

// ---------------------------------------------------------------------------
// Networks
// ---------------------------------------------------------------------------

/// A network of a prefix of 0 holds every address of its family, one of the full
/// length only its own address, and no network an address of the other family.
pub proof fn widest_and_narrowest(addr: u32, wide: u128, a: Ipv4Addr, b: Ipv6Addr, p: u8)
    ensures
        (IpNet::V4 { addr, prefix: 0 }).has(IpAddr::V4(a)),
        (IpNet::V6 { addr: wide, prefix: 0 }).has(IpAddr::V6(b)),
        (IpNet::V4 { addr, prefix: 32 }).has(IpAddr::V4(a)) <==> a.bits == addr,
        (IpNet::V6 { addr: wide, prefix: 128 }).has(IpAddr::V6(b)) <==> b.bits == wide,
        IpNet::single(IpAddr::V4(a)).has(IpAddr::V4(Ipv4Addr { bits: addr })) <==> a.bits == addr,
        IpNet::single(IpAddr::V6(b)).has(IpAddr::V6(Ipv6Addr { bits: wide })) <==> b.bits == wide,
        !(IpNet::V4 { addr, prefix: p }).has(IpAddr::V6(b)),
        !(IpNet::V6 { addr: wide, prefix: p }).has(IpAddr::V4(a)),
{
    lemma2_to64();
    lemma_pow2_adds(64, 64);
    assert(pow2(128) == 0x1_0000_0000_0000_0000_0000_0000_0000_0000);
    assert(addr as nat / pow2(32) == 0 && a.bits as nat / pow2(32) == 0);
    assert(wide as nat / pow2(128) == 0 && b.bits as nat / pow2(128) == 0) by {
        vstd::arithmetic::div_mod::lemma_basic_div(wide as int, pow2(128) as int);
        vstd::arithmetic::div_mod::lemma_basic_div(b.bits as int, pow2(128) as int);
    }
    assert(pow2(0) == 1);
    assert(forall|x: nat| #[trigger] (x / pow2(0)) == x);
}

/// A network holds the addresses that share its first bits: those of a prefix of
/// 8, 16 or 24 bits share the first one, two or three octets with it.
pub proof fn whole_octets_are_shared(
    a: u8,
    b: u8,
    c: u8,
    d: u8,
    e: u8,
    f: u8,
    g: u8,
    h: u8,
)
    ensures
        ({
            let net = v4_bits(a, b, c, d);
            let ip = IpAddr::V4(Ipv4Addr { bits: v4_bits(e, f, g, h) });
            &&& (IpNet::V4 { addr: net, prefix: 8 }).has(ip) <==> a == e
            &&& (IpNet::V4 { addr: net, prefix: 16 }).has(ip) <==> a == e && b == f
            &&& (IpNet::V4 { addr: net, prefix: 24 }).has(ip) <==> a == e && b == f && c == g
        }),
{
    lemma2_to64();
    assert(pow2(24) == 0x100_0000 && pow2(16) == 0x1_0000 && pow2(8) == 0x100);
    octets_apart(a, b, c, d);
    octets_apart(e, f, g, h);
}

/// Each bit more of a prefix halves a network: an address that is in the wider
/// one is in the narrower one just where the next bit is that of the network.
pub proof fn each_bit_halves(addr: u32, a: Ipv4Addr, p: u8)
    requires
        p < 32,
    ensures
        (IpNet::V4 { addr, prefix: (p + 1) as u8 }).has(IpAddr::V4(a)) <==> (IpNet::V4 {
            addr,
            prefix: p,
        }).has(IpAddr::V4(a)) && (a.bits as nat / pow2((31 - p) as nat)) % 2 == (addr as nat / pow2(
            (31 - p) as nat,
        )) % 2,
{
    next_bit(addr as nat, a.bits as nat, (31 - p) as nat);
}

/// Each bit more of a prefix halves a network of IPv6 addresses too.
pub proof fn each_wide_bit_halves(addr: u128, a: Ipv6Addr, p: u8)
    requires
        p < 128,
    ensures
        (IpNet::V6 { addr, prefix: (p + 1) as u8 }).has(IpAddr::V6(a)) <==> (IpNet::V6 {
            addr,
            prefix: p,
        }).has(IpAddr::V6(a)) && (a.bits as nat / pow2((127 - p) as nat)) % 2 == (addr as nat
            / pow2((127 - p) as nat)) % 2,
{
    next_bit(addr as nat, a.bits as nat, (127 - p) as nat);
}

proof fn next_bit(x: nat, y: nat, s: nat)
    ensures
        x / pow2(s) == y / pow2(s) <==> x / pow2(s + 1) == y / pow2(s + 1) && (y / pow2(s)) % 2 == (
        x / pow2(s)) % 2,
{
    lemma2_to64();
    lemma_pow2_pos(s);
    lemma_pow2_adds(s, 1);
    let m = pow2(s) as int;
    vstd::arithmetic::div_mod::lemma_div_denominator(x as int, m, 2);
    vstd::arithmetic::div_mod::lemma_div_denominator(y as int, m, 2);
    let u = x as int / m;
    let v = y as int / m;
    assert(u == 2 * (u / 2) + u % 2);
    assert(v == 2 * (v / 2) + v % 2);
}

// ---------------------------------------------------------------------------
// Addresses with a port
// ---------------------------------------------------------------------------

proof fn port_is_read(n: nat)
    ensures
        n <= 65535 ==> port_text(decimal(n)) == Some(n as u16),
        n > 65535 ==> port_text(decimal(n)) is None,
        all_digits(decimal(n)),
{
    digits_give_the_number(n);
    assert forall|i: int| 0 <= i < decimal(n).len() implies is_digit(#[trigger] decimal(n)[i]) by {
        assert('0' <= decimal(n)[i]);
    }
}

/// An IPv4 address, a colon and a port of at most 65535 stand for that address
/// and that port.
pub proof fn port_behind_a_colon(host: Seq<char>, n: nat)
    requires
        !host.contains(':'),
        host.len() > 0,
        host[0] != '[',
    ensures
        socket_text(host) is None,
        match ip_text(host) {
            Some(IpAddr::V4(a)) => if n <= 65535 {
                socket_text(host + seq![':'] + decimal(n)) == Some(
                    SocketAddr { ip: IpAddr::V4(a), port: n as u16, scope: 0 },
                )
            } else {
                socket_text(host + seq![':'] + decimal(n)) is None
            },
            _ => socket_text(host + seq![':'] + decimal(n)) is None,
        },
{
    let s = host + seq![':'] + decimal(n);
    cut_at_the_first(host, decimal(n), ':');
    port_is_read(n);
    assert(s[0] == host[0]);
    assert(s.subrange(host.len() as int + 1, s.len() as int) =~= decimal(n));
}

/// An IPv6 address in brackets, a colon and a port stand for that address and
/// that port. A scope stands behind a percent sign in the brackets, and is zero
/// where there is none.
pub proof fn port_behind_brackets(host: Seq<char>, scope: nat, n: nat)
    requires
        !host.contains(']'),
        !host.contains('%'),
        n <= 65535,
        scope <= 0xffff_ffff,
    ensures
        match ip_text(host) {
            Some(IpAddr::V6(a)) => {
                &&& socket_text(seq!['['] + host + seq![']', ':'] + decimal(n)) == Some(
                    SocketAddr { ip: IpAddr::V6(a), port: n as u16, scope: 0 },
                )
                &&& socket_text(
                    seq!['['] + host + seq!['%'] + decimal(scope) + seq![']', ':'] + decimal(n),
                ) == Some(SocketAddr { ip: IpAddr::V6(a), port: n as u16, scope: scope as u32 })
            },
            _ => socket_text(seq!['['] + host + seq![']', ':'] + decimal(n)) is None,
        },
{
    let zone = host + seq!['%'] + decimal(scope);
    cut_at_the_first(host, decimal(scope), '%');
    assert(decimal_value(seq!['0']) == 0) by {
        assert(seq!['0'].drop_last() =~= Seq::<char>::empty());
        assert(decimal_value(Seq::<char>::empty()) == 0);
    }
    assert(all_digits(seq!['0']));
    port_is_read(scope);
    digits_give_the_number(scope);
    assert(zone.subrange(host.len() as int + 1, zone.len() as int) =~= decimal(scope));
    bracketed_is_read(host, n);
    assert(!zone.contains(']')) by {
        if zone.contains(']') {
            let i = choose|i: int| 0 <= i < zone.len() && zone[i] == ']';
            if i < host.len() {
                assert(host[i] == ']');
            } else if i > host.len() {
                assert(decimal(scope)[i - host.len() - 1] == ']');
                assert(decimal(scope)[i - host.len() - 1] <= '9');
            }
        }
    }
    bracketed_is_read(zone, n);
    assert(seq!['['] + host + seq!['%'] + decimal(scope) + seq![']', ':'] + decimal(n) =~= seq!['[']
        + zone + seq![']', ':'] + decimal(n));
}

proof fn bracketed_is_read(inner: Seq<char>, n: nat)
    requires
        !inner.contains(']'),
        n <= 65535,
    ensures
        socket_text(seq!['['] + inner + seq![']', ':'] + decimal(n)) == (match bracketed_text(inner) {
            Some((a, scope)) => Some(SocketAddr { ip: IpAddr::V6(a), port: n as u16, scope }),
            None => None,
        }),
{
    let s = seq!['['] + inner + seq![']', ':'] + decimal(n);
    let tail = seq![':'] + decimal(n);
    assert(s.drop_first() =~= inner + seq![']'] + tail);
    cut_at_the_first(inner, tail, ']');
    let rest = s.subrange(1 + inner.len() as int, s.len() as int);
    assert(rest[0] == ']' && rest[1] == ':');
    assert(rest.subrange(2, rest.len() as int) =~= decimal(n));
    port_is_read(n);
}

} // verus!
