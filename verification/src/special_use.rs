//! Names that are answered here and never asked upstream.
use vstd::prelude::*;

use crate::header::ResultCode;
use crate::net::{v4_bits, v6_bits, Ipv4Addr, Ipv6Addr};
use crate::packet::{records, DnsPacket, PacketView};
use crate::question::QueryType;
use crate::record::{DnsRecord, RdataView, RecordView};
use crate::text::{
    contains, drop_suffix, ends_with, has_part, has_suffix, parse_u64, parsed_number, split,
    split_parts, str_eq, without_suffix,
};

verus! {

/// Whether a reverse name lies under 172.16.0.0/12.
pub open spec fn reverse_of_172(qname: Seq<char>) -> bool {
    has_suffix(qname, ".172.in-addr.arpa"@) && match parsed_number(
        split_parts(without_suffix(qname, ".172.in-addr.arpa"@), '.').last(),
    ) {
        Some(octet) => 16 <= octet <= 31,
        None => false,
    }
}

/// Whether a name under in-addr.arpa is of a private, loopback or link-local
/// network, or of service discovery.
pub open spec fn private_reverse(qname: Seq<char>) -> bool {
    ||| has_suffix(qname, ".10.in-addr.arpa"@)
    ||| has_suffix(qname, ".168.192.in-addr.arpa"@)
    ||| has_suffix(qname, ".127.in-addr.arpa"@)
    ||| has_suffix(qname, ".254.169.in-addr.arpa"@)
    ||| has_suffix(qname, ".0.in-addr.arpa"@)
    ||| has_part(qname, "_dns-sd._udp"@)
    ||| reverse_of_172(qname)
}

/// Whether a name is set aside for special use: a private reverse name, the
/// discovery of resolvers, NAT64, or multicast DNS.
pub open spec fn special_use(qname: Seq<char>) -> bool {
    if has_suffix(qname, ".in-addr.arpa"@) {
        private_reverse(qname)
    } else {
        ||| qname == "_dns.resolver.arpa"@
        ||| has_suffix(qname, "._dns.resolver.arpa"@)
        ||| qname == "ipv4only.arpa"@
        ||| qname == "local"@
        ||| has_suffix(qname, ".local"@)
    }
}

/// Whether a name is set aside for special use.
pub fn is_special_use_domain(qname: &str) -> (b: bool)
    ensures
        b == special_use(qname@),
{
    if ends_with(qname, ".in-addr.arpa") {
        if ends_with(qname, ".10.in-addr.arpa") || ends_with(qname, ".168.192.in-addr.arpa")
            || ends_with(qname, ".127.in-addr.arpa") || ends_with(qname, ".254.169.in-addr.arpa")
            || ends_with(qname, ".0.in-addr.arpa") || contains(qname, "_dns-sd._udp") {
            return true;
        }
        if ends_with(qname, ".172.in-addr.arpa") {
            let rest = drop_suffix(qname, ".172.in-addr.arpa");
            let parts = split(rest.as_str(), '.');
            let last: usize = parts.len() - 1;
            assert(split_parts(rest@, '.').last() == parts@[last as int]@);
            return match parse_u64(parts[last].as_str()) {
                Some(octet) => 16 <= octet && octet <= 31,
                None => false,
            };
        }
        return false;
    }
    str_eq(qname, "_dns.resolver.arpa") || ends_with(qname, "._dns.resolver.arpa") || str_eq(
        qname,
        "ipv4only.arpa",
    ) || str_eq(qname, "local") || ends_with(qname, ".local")
}

/// The answer of the family that is asked for. None where there is no address
/// of that family, or the question is not for an address.
pub open spec fn address_answer(
    domain: Seq<char>,
    qtype: QueryType,
    v4: Option<Ipv4Addr>,
    v6: Option<Ipv6Addr>,
    ttl: u32,
) -> Seq<RecordView> {
    match (qtype, v4, v6) {
        (QueryType::A, Some(addr), _) => seq![
            RecordView { domain, ttl, data: RdataView::A { addr } },
        ],
        (QueryType::AAAA, _, Some(addr)) => seq![
            RecordView { domain, ttl, data: RdataView::Aaaa { addr } },
        ],
        _ => Seq::empty(),
    }
}

/// The answer of the family that is asked for.
pub fn answer_record(
    domain: &str,
    qtype: QueryType,
    v4: Option<Ipv4Addr>,
    v6: Option<Ipv6Addr>,
    ttl: u32,
) -> (r: Option<DnsRecord>)
    ensures
        address_answer(domain@, qtype, v4, v6, ttl) == (match r {
            Some(rec) => seq![rec@],
            None => Seq::empty(),
        }),
{
    match qtype {
        QueryType::A => match v4 {
            Some(addr) => Some(DnsRecord::A { domain: domain.to_owned(), addr, ttl }),
            None => None,
        },
        QueryType::AAAA => match v6 {
            Some(addr) => Some(DnsRecord::AAAA { domain: domain.to_owned(), addr, ttl }),
            None => None,
        },
        _ => None,
    }
}

/// A response with such an answer.
pub open spec fn address_response(
    query: PacketView,
    qname: Seq<char>,
    qtype: QueryType,
    v4: Option<Ipv4Addr>,
    v6: Option<Ipv6Addr>,
    ttl: u32,
) -> PacketView {
    PacketView {
        answers: address_answer(qname, qtype, v4, v6, ttl),
        ..DnsPacket::response_view(query, ResultCode::NOERROR)
    }
}

/// A response with the address that is asked for, if there is one.
pub fn respond_with_address(
    query: &DnsPacket,
    qname: &str,
    qtype: QueryType,
    v4: Option<Ipv4Addr>,
    v6: Option<Ipv6Addr>,
    ttl: u32,
) -> (r: DnsPacket)
    ensures
        r@ == address_response(query@, qname@, qtype, v4, v6, ttl),
{
    let mut resp = DnsPacket::response_from(query, ResultCode::NOERROR);
    let mut answers: Vec<DnsRecord> = Vec::new();
    if let Some(rec) = answer_record(qname, qtype, v4, v6, ttl) {
        answers.push(rec);
    }
    resp.answers = answers;
    assert(records(resp.answers@) =~= address_answer(qname@, qtype, v4, v6, ttl));
    resp
}

/// The answers for the name by which hosts find out about NAT64.
pub open spec fn nat64_answers(qname: Seq<char>, qtype: QueryType) -> Seq<RecordView> {
    match qtype {
        QueryType::A => seq![
            RecordView {
                domain: qname,
                ttl: 300,
                data: RdataView::A { addr: Ipv4Addr { bits: v4_bits(192, 0, 0, 170) } },
            },
            RecordView {
                domain: qname,
                ttl: 300,
                data: RdataView::A { addr: Ipv4Addr { bits: v4_bits(192, 0, 0, 171) } },
            },
        ],
        QueryType::AAAA => seq![
            RecordView {
                domain: qname,
                ttl: 300,
                data: RdataView::Aaaa {
                    addr: Ipv6Addr {
                        bits: v6_bits(seq![0x0064u16, 0xff9b, 0, 0, 0, 0, 0xc000, 0x00aa]),
                    },
                },
            },
        ],
        _ => Seq::empty(),
    }
}

/// The response for a name of special use: the addresses of NAT64, or that
/// there is no such name.
pub open spec fn special_response(query: PacketView, qname: Seq<char>, qtype: QueryType) -> PacketView {
    if qname == "ipv4only.arpa"@ {
        PacketView {
            answers: nat64_answers(qname, qtype),
            ..DnsPacket::response_view(query, ResultCode::NOERROR)
        }
    } else {
        DnsPacket::response_view(query, ResultCode::NXDOMAIN)
    }
}

/// The response for a name of special use.
pub fn special_use_response(query: &DnsPacket, qname: &str, qtype: QueryType) -> (r: DnsPacket)
    ensures
        r@ == special_response(query@, qname@, qtype),
{
    if str_eq(qname, "ipv4only.arpa") {
        let mut resp = DnsPacket::response_from(query, ResultCode::NOERROR);
        let mut answers: Vec<DnsRecord> = Vec::new();
        match qtype {
            QueryType::A => {
                answers.push(
                    DnsRecord::A {
                        domain: qname.to_owned(),
                        addr: Ipv4Addr::new(192, 0, 0, 170),
                        ttl: 300,
                    },
                );
                answers.push(
                    DnsRecord::A {
                        domain: qname.to_owned(),
                        addr: Ipv4Addr::new(192, 0, 0, 171),
                        ttl: 300,
                    },
                );
            },
            QueryType::AAAA => {
                answers.push(
                    DnsRecord::AAAA {
                        domain: qname.to_owned(),
                        addr: Ipv6Addr::new(0x0064, 0xff9b, 0, 0, 0, 0, 0xc000, 0x00aa),
                        ttl: 300,
                    },
                );
            },
            _ => {},
        }
        resp.answers = answers;
        assert(records(resp.answers@) =~= nat64_answers(qname@, qtype));
        resp
    } else {
        DnsPacket::response_from(query, ResultCode::NXDOMAIN)
    }
}

} // verus!
