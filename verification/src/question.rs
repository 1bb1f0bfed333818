//! Record types and questions.
use vstd::prelude::*;

use crate::text::{ascii_lowercase, eq_ignore_ascii_case};

verus! {

/// A record type. The types that the server treats by name, and any other by
/// its number.
#[derive(Debug, Clone, Copy, PartialEq, Eq, Hash, PartialOrd, Ord, Structural)]
pub enum QueryType {
    UNKNOWN(u16),
    A,
    NS,
    CNAME,
    SOA,
    PTR,
    MX,
    TXT,
    AAAA,
    SRV,
    DS,
    RRSIG,
    NSEC,
    DNSKEY,
    NSEC3,
    SVCB,
    HTTPS,
}

impl QueryType {
    /// The number of the type in messages.
    pub open spec fn num(&self) -> u16 {
        match self {
            QueryType::UNKNOWN(n) => *n,
            QueryType::A => 1,
            QueryType::NS => 2,
            QueryType::CNAME => 5,
            QueryType::SOA => 6,
            QueryType::PTR => 12,
            QueryType::MX => 15,
            QueryType::TXT => 16,
            QueryType::AAAA => 28,
            QueryType::SRV => 33,
            QueryType::DS => 43,
            QueryType::RRSIG => 46,
            QueryType::NSEC => 47,
            QueryType::DNSKEY => 48,
            QueryType::NSEC3 => 50,
            QueryType::SVCB => 64,
            QueryType::HTTPS => 65,
        }
    }

    /// Whether a number belongs to no type with a name.
    pub open spec fn unnamed(n: u16) -> bool {
        !(n == 1 || n == 2 || n == 5 || n == 6 || n == 12 || n == 15 || n == 16 || n == 28 || n
            == 33 || n == 43 || n == 46 || n == 47 || n == 48 || n == 50 || n == 64 || n == 65)
    }

    /// The number of the type in messages.
    pub fn to_num(&self) -> (n: u16)
        ensures
            n == self.num(),
    {
        match self {
            QueryType::UNKNOWN(n) => *n,
            QueryType::A => 1,
            QueryType::NS => 2,
            QueryType::CNAME => 5,
            QueryType::SOA => 6,
            QueryType::PTR => 12,
            QueryType::MX => 15,
            QueryType::TXT => 16,
            QueryType::AAAA => 28,
            QueryType::SRV => 33,
            QueryType::DS => 43,
            QueryType::RRSIG => 46,
            QueryType::NSEC => 47,
            QueryType::DNSKEY => 48,
            QueryType::NSEC3 => 50,
            QueryType::SVCB => 64,
            QueryType::HTTPS => 65,
        }
    }

    /// The type with this number.
    pub fn from_num(n: u16) -> (t: QueryType)
        ensures
            t.num() == n,
            QueryType::unnamed(n) <==> t == QueryType::UNKNOWN(n),
    {
        match n {
            1 => QueryType::A,
            2 => QueryType::NS,
            5 => QueryType::CNAME,
            6 => QueryType::SOA,
            12 => QueryType::PTR,
            15 => QueryType::MX,
            16 => QueryType::TXT,
            28 => QueryType::AAAA,
            33 => QueryType::SRV,
            43 => QueryType::DS,
            46 => QueryType::RRSIG,
            47 => QueryType::NSEC,
            48 => QueryType::DNSKEY,
            50 => QueryType::NSEC3,
            64 => QueryType::SVCB,
            65 => QueryType::HTTPS,
            _ => QueryType::UNKNOWN(n),
        }
    }

    /// The name of the type.
    pub open spec fn name(&self) -> Seq<char> {
        match self {
            QueryType::UNKNOWN(_) => "UNKNOWN"@,
            QueryType::A => "A"@,
            QueryType::NS => "NS"@,
            QueryType::CNAME => "CNAME"@,
            QueryType::SOA => "SOA"@,
            QueryType::PTR => "PTR"@,
            QueryType::MX => "MX"@,
            QueryType::TXT => "TXT"@,
            QueryType::AAAA => "AAAA"@,
            QueryType::SRV => "SRV"@,
            QueryType::DS => "DS"@,
            QueryType::RRSIG => "RRSIG"@,
            QueryType::NSEC => "NSEC"@,
            QueryType::DNSKEY => "DNSKEY"@,
            QueryType::NSEC3 => "NSEC3"@,
            QueryType::SVCB => "SVCB"@,
            QueryType::HTTPS => "HTTPS"@,
        }
    }

    /// The name of the type.
    pub fn as_str(&self) -> (s: &'static str)
        ensures
            s@ == self.name(),
    {
        match self {
            QueryType::UNKNOWN(_) => "UNKNOWN",
            QueryType::A => "A",
            QueryType::NS => "NS",
            QueryType::CNAME => "CNAME",
            QueryType::SOA => "SOA",
            QueryType::PTR => "PTR",
            QueryType::MX => "MX",
            QueryType::TXT => "TXT",
            QueryType::AAAA => "AAAA",
            QueryType::SRV => "SRV",
            QueryType::DS => "DS",
            QueryType::RRSIG => "RRSIG",
            QueryType::NSEC => "NSEC",
            QueryType::DNSKEY => "DNSKEY",
            QueryType::NSEC3 => "NSEC3",
            QueryType::SVCB => "SVCB",
            QueryType::HTTPS => "HTTPS",
        }
    }

    /// The type with a name, in any case of letters.
    pub fn parse_str(s: &str) -> (r: Option<QueryType>)
        ensures
            match r {
                Some(t) => !(t is UNKNOWN) && ascii_lowercase(t.name()) == ascii_lowercase(s@),
                None => forall|t: QueryType|
                    !(t is UNKNOWN) ==> ascii_lowercase(#[trigger] t.name()) != ascii_lowercase(s@),
            },
    {
        if eq_ignore_ascii_case(s, "A") {
            return Some(QueryType::A);
        }
        if eq_ignore_ascii_case(s, "NS") {
            return Some(QueryType::NS);
        }
        if eq_ignore_ascii_case(s, "CNAME") {
            return Some(QueryType::CNAME);
        }
        if eq_ignore_ascii_case(s, "SOA") {
            return Some(QueryType::SOA);
        }
        if eq_ignore_ascii_case(s, "PTR") {
            return Some(QueryType::PTR);
        }
        if eq_ignore_ascii_case(s, "MX") {
            return Some(QueryType::MX);
        }
        if eq_ignore_ascii_case(s, "TXT") {
            return Some(QueryType::TXT);
        }
        if eq_ignore_ascii_case(s, "AAAA") {
            return Some(QueryType::AAAA);
        }
        if eq_ignore_ascii_case(s, "SRV") {
            return Some(QueryType::SRV);
        }
        if eq_ignore_ascii_case(s, "DS") {
            return Some(QueryType::DS);
        }
        if eq_ignore_ascii_case(s, "RRSIG") {
            return Some(QueryType::RRSIG);
        }
        if eq_ignore_ascii_case(s, "NSEC") {
            return Some(QueryType::NSEC);
        }
        if eq_ignore_ascii_case(s, "DNSKEY") {
            return Some(QueryType::DNSKEY);
        }
        if eq_ignore_ascii_case(s, "NSEC3") {
            return Some(QueryType::NSEC3);
        }
        if eq_ignore_ascii_case(s, "SVCB") {
            return Some(QueryType::SVCB);
        }
        if eq_ignore_ascii_case(s, "HTTPS") {
            return Some(QueryType::HTTPS);
        }
        None
    }
}

/// A type is determined by its number, unless it stands for the number of a
/// type with a name.
pub proof fn type_is_its_number(a: QueryType, b: QueryType)
    requires
        a.num() == b.num(),
        a matches QueryType::UNKNOWN(n) ==> QueryType::unnamed(n),
        b matches QueryType::UNKNOWN(n) ==> QueryType::unnamed(n),
    ensures
        a == b,
{
}

/// A question: a name and the type that is asked for.
#[derive(Debug, Clone, PartialEq, Eq)]
pub struct DnsQuestion {
    pub name: String,
    pub qtype: QueryType,
}

impl DnsQuestion {
    /// A question for a name and a type.
    pub fn new(name: String, qtype: QueryType) -> (r: Self)
        ensures
            r.name@ == name@,
            r.qtype == qtype,
    {
        DnsQuestion { name, qtype }
    }

    /// The same question again.
    pub fn copy(&self) -> (r: Self)
        ensures
            r.name@ == self.name@,
            r.qtype == self.qtype,
    {
        DnsQuestion { name: self.name.clone(), qtype: self.qtype }
    }
}

} // verus!
