//! Zones that the server answers for by itself, with wildcards.
use vstd::prelude::*;

use crate::domain_list::{normalize, normalized, parent};
use crate::net::{ip_text, ipv6_text, parse_ipv4, parse_ipv6, IpAddr};
use crate::packet::records;
use crate::question::QueryType;
use crate::question_set::{push_key, KeyView, QuestionSet};
use crate::record::{DnsRecord, RdataView, RecordView};
use crate::text::{
    chars_of, contains_char, cut_at, has_prefix, has_suffix, parse_u64, parsed_number, starts_with,
    str_eq, string_range, to_uppercase, up_to, uppercase,
};

verus! {

/// A record of a zone as it is configured.
pub struct ZoneRecord {
    pub domain: String,
    pub record_type: String,
    pub value: String,
    pub ttl: u32,
}

/// What is wrong with a configured record.
#[derive(Debug)]
pub enum ZoneError {
    /// A wildcard that is not a single one at the front of a name.
    InvalidWildcard(String),
    /// A value that is no IPv4 address.
    InvalidA(String),
    /// A value that is no IPv6 address.
    InvalidAaaa(String),
    /// An MX value that is not a priority and a host.
    MxShape(String),
    /// An MX priority that is no number of 16 bits.
    MxPriority(String),
    /// A record type that cannot be configured.
    UnsupportedType(String),
}

/// What is wrong with a configured record.
pub enum ZoneFault {
    InvalidWildcard(Seq<char>),
    InvalidA(Seq<char>),
    InvalidAaaa(Seq<char>),
    MxShape(Seq<char>),
    MxPriority(Seq<char>),
    UnsupportedType(Seq<char>),
}

impl View for ZoneError {
    type V = ZoneFault;

    open spec fn view(&self) -> ZoneFault {
        match self {
            ZoneError::InvalidWildcard(s) => ZoneFault::InvalidWildcard(s@),
            ZoneError::InvalidA(s) => ZoneFault::InvalidA(s@),
            ZoneError::InvalidAaaa(s) => ZoneFault::InvalidAaaa(s@),
            ZoneError::MxShape(s) => ZoneFault::MxShape(s@),
            ZoneError::MxPriority(s) => ZoneFault::MxPriority(s@),
            ZoneError::UnsupportedType(s) => ZoneFault::UnsupportedType(s@),
        }
    }
}

/// The data of a record of a configured type with a configured value.
pub open spec fn zone_data(kind: Seq<char>, value: Seq<char>) -> Result<RdataView, ZoneFault> {
    if kind == "A"@ {
        match ip_text(value) {
            Some(IpAddr::V4(addr)) => Ok(RdataView::A { addr }),
            _ => Err(ZoneFault::InvalidA(value)),
        }
    } else if kind == "AAAA"@ {
        match ipv6_text(value) {
            Some(addr) => Ok(RdataView::Aaaa { addr }),
            None => Err(ZoneFault::InvalidAaaa(value)),
        }
    } else if kind == "CNAME"@ {
        Ok(RdataView::Cname { host: value })
    } else if kind == "PTR"@ {
        Ok(RdataView::Ptr { host: value })
    } else if kind == "NS"@ {
        Ok(RdataView::Ns { host: value })
    } else if kind == "MX"@ {
        if !value.contains(' ') {
            Err(ZoneFault::MxShape(value))
        } else {
            let first = up_to(value, ' ');
            match parsed_number(first) {
                Some(n) => if n <= 65535 {
                    Ok(
                        RdataView::Mx {
                            priority: n as u16,
                            host: value.subrange(first.len() as int + 1, value.len() as int),
                        },
                    )
                } else {
                    Err(ZoneFault::MxPriority(first))
                },
                None => Err(ZoneFault::MxPriority(first)),
            }
        }
    } else {
        Err(ZoneFault::UnsupportedType(kind))
    }
}

/// A configured record: whether it is for a wildcard, and the record, which
/// bears the name without the wildcard.
pub open spec fn zone_entry(z: ZoneRecord) -> Result<(bool, RecordView), ZoneFault> {
    let raw = normalized(z.domain@);
    let wild = has_prefix(raw, "*."@);
    let key = if wild {
        raw.subrange(2, raw.len() as int)
    } else {
        raw
    };
    if key.len() == 0 || key.contains('*') {
        Err(ZoneFault::InvalidWildcard(raw))
    } else {
        match zone_data(uppercase(z.record_type@), z.value@) {
            Err(e) => Err(e),
            Ok(data) => Ok((wild, RecordView { domain: key, ttl: z.ttl, data })),
        }
    }
}

/// The records of zones, in their order: those for names, and those for the
/// names under a name.
pub struct ZoneView {
    pub exact: Seq<RecordView>,
    pub wildcard: Seq<RecordView>,
}

/// The zones that are configured, or what is wrong with the first record that
/// cannot be used.
pub open spec fn zones_of(zones: Seq<ZoneRecord>) -> Result<ZoneView, ZoneFault>
    decreases zones.len(),
{
    if zones.len() == 0 {
        Ok(ZoneView { exact: Seq::empty(), wildcard: Seq::empty() })
    } else {
        match zones_of(zones.drop_last()) {
            Err(e) => Err(e),
            Ok(m) => match zone_entry(zones.last()) {
                Err(e) => Err(e),
                Ok((wild, rec)) => if wild {
                    Ok(ZoneView { exact: m.exact, wildcard: m.wildcard.push(rec) })
                } else {
                    Ok(ZoneView { exact: m.exact.push(rec), wildcard: m.wildcard })
                },
            },
        }
    }
}

/// Whether some record is about a name.
pub open spec fn owned(recs: Seq<RecordView>, name: Seq<char>) -> bool {
    exists|i: int| 0 <= i < recs.len() && (#[trigger] recs[i]).domain == name
}

/// The records about a name of a type, in their order.
pub open spec fn of_type(recs: Seq<RecordView>, name: Seq<char>, qtype: QueryType) -> Seq<
    RecordView,
> {
    recs.filter(|r: RecordView| r.domain == name && r.data.qtype() == qtype)
}

/// The records that answer a question about a name: those of the type, or the
/// alias of the name where there are none.
pub open spec fn answering(recs: Seq<RecordView>, name: Seq<char>, qtype: QueryType) -> Seq<
    RecordView,
> {
    let found = of_type(recs, name, qtype);
    if found.len() > 0 || qtype == QueryType::CNAME {
        found
    } else {
        of_type(recs, name, QueryType::CNAME)
    }
}

/// The nearest proper parent of a name that has a wildcard.
pub open spec fn wildcard_owner(wildcard: Seq<RecordView>, name: Seq<char>) -> Option<Seq<char>>
    decreases name.len(),
    via wildcard_owner_terminates
{
    match parent(name) {
        None => None,
        Some(p) => if p.len() == 0 {
            None
        } else if owned(wildcard, p) {
            Some(p)
        } else {
            wildcard_owner(wildcard, p)
        },
    }
}

#[via_fn]
proof fn wildcard_owner_terminates(wildcard: Seq<RecordView>, name: Seq<char>) {
    crate::domain_list::parent_is_shorter(name);
}

impl ZoneView {
    /// The records that answer a question. Nothing where no zone has the name;
    /// an empty answer where one has the name but no such record.
    pub open spec fn answers(&self, qname: Seq<char>, qtype: QueryType) -> Option<
        Seq<RecordView>,
    > {
        if owned(self.exact, qname) {
            Some(answering(self.exact, qname, qtype))
        } else {
            match wildcard_owner(self.wildcard, qname) {
                None => None,
                Some(p) => Some(
                    answering(self.wildcard, p, qtype).map_values(
                        |r: RecordView| RecordView { domain: qname, ..r },
                    ),
                ),
            }
        }
    }
}

/// The zones that the server answers for by itself.
pub struct ZoneMap {
    pub exact: Vec<DnsRecord>,
    pub wildcard: Vec<DnsRecord>,
}

impl View for ZoneMap {
    type V = ZoneView;

    open spec fn view(&self) -> ZoneView {
        ZoneView { exact: records(self.exact@), wildcard: records(self.wildcard@) }
    }
}

impl Default for ZoneMap {
    fn default() -> (r: Self)
        ensures
            r@ == (ZoneView { exact: Seq::empty(), wildcard: Seq::empty() }),
    {
        let r = ZoneMap { exact: Vec::new(), wildcard: Vec::new() };
        assert(records(r.exact@) =~= Seq::<RecordView>::empty());
        assert(records(r.wildcard@) =~= Seq::<RecordView>::empty());
        r
    }
}

/// Whether some record is about a name.
fn has_name(recs: &Vec<DnsRecord>, name: &str) -> (b: bool)
    ensures
        b == owned(records(recs@), name@),
{
    let mut i: usize = 0;
    while i < recs.len()
        invariant
            i <= recs.len(),
            forall|j: int| 0 <= j < i ==> (#[trigger] records(recs@)[j]).domain != name@,
        decreases recs.len() - i,
    {
        assert(records(recs@)[i as int] == recs@[i as int]@);
        if str_eq(recs[i].domain(), name) {
            return true;
        }
        i += 1;
    }
    false
}

/// The records about a name of a type.
fn select(recs: &Vec<DnsRecord>, name: &str, qtype: QueryType) -> (v: Vec<DnsRecord>)
    ensures
        records(v@) == of_type(records(recs@), name@, qtype),
{
    let ghost all = records(recs@);
    let ghost p = |r: RecordView| r.domain == name@ && r.data.qtype() == qtype;
    let mut v: Vec<DnsRecord> = Vec::new();
    let mut i: usize = 0;
    proof {
        reveal(Seq::filter);
        assert(all.subrange(0, 0) =~= Seq::<RecordView>::empty());
        assert(records(v@) =~= Seq::<RecordView>::empty());
    }
    while i < recs.len()
        invariant
            i <= recs.len(),
            all == records(recs@),
            p == (|r: RecordView| r.domain == name@ && r.data.qtype() == qtype),
            records(v@) == all.subrange(0, i as int).filter(p),
        decreases recs.len() - i,
    {
        proof {
            reveal(Seq::filter);
            let more = all.subrange(0, i + 1);
            assert(more.drop_last() =~= all.subrange(0, i as int));
            assert(more.last() == recs@[i as int]@);
        }
        let ghost before = v@;
        if str_eq(recs[i].domain(), name) && recs[i].query_type() == qtype {
            let one = recs[i].copy();
            v.push(one);
            assert(records(v@) =~= records(before).push(one@));
        }
        i += 1;
    }
    assert(all.subrange(0, all.len() as int) =~= all);
    v
}

/// The records that answer a question about a name.
fn pick(recs: &Vec<DnsRecord>, name: &str, qtype: QueryType) -> (v: Vec<DnsRecord>)
    ensures
        records(v@) == answering(records(recs@), name@, qtype),
{
    let found = select(recs, name, qtype);
    assert(records(found@).len() == found@.len());
    if found.len() > 0 || qtype == QueryType::CNAME {
        found
    } else {
        select(recs, name, QueryType::CNAME)
    }
}

/// The records under another name.
fn rename(recs: Vec<DnsRecord>, name: &str) -> (v: Vec<DnsRecord>)
    ensures
        records(v@) == records(recs@).map_values(
            |r: RecordView| RecordView { domain: name@, ..r },
        ),
{
    let ghost f = |r: RecordView| RecordView { domain: name@, ..r };
    let mut v: Vec<DnsRecord> = Vec::new();
    let mut i: usize = 0;
    while i < recs.len()
        invariant
            i <= recs.len(),
            v@.len() == i,
            f == (|r: RecordView| RecordView { domain: name@, ..r }),
            forall|j: int| 0 <= j < i ==> (#[trigger] v@[j])@ == f(recs@[j]@),
        decreases recs.len() - i,
    {
        let mut one = recs[i].copy();
        one.set_domain(name.to_owned());
        v.push(one);
        i += 1;
    }
    assert(records(v@) =~= records(recs@).map_values(f));
    v
}

impl ZoneMap {
    /// The records that answer a question. Nothing where no zone has the name;
    /// an empty answer where one has the name but no such record.
    pub fn lookup(&self, qname: &str, qtype: QueryType) -> (r: Option<Vec<DnsRecord>>)
        ensures
            match r {
                Some(v) => self@.answers(qname@, qtype) == Some(records(v@)),
                None => self@.answers(qname@, qtype) is None,
            },
    {
        if has_name(&self.exact, qname) {
            return Some(pick(&self.exact, qname, qtype));
        }
        let x = chars_of(qname);
        let n: usize = x.len();
        let mut from: usize = 0;
        assert(x@.subrange(0, n as int) =~= x@);
        loop
            invariant
                x@ == qname@,
                n == x.len(),
                from <= n,
                !owned(self@.exact, qname@),
                wildcard_owner(self@.wildcard, qname@) == wildcard_owner(
                    self@.wildcard,
                    x@.subrange(from as int, n as int),
                ),
            decreases n - from,
        {
            let ghost rest = x@.subrange(from as int, n as int);
            let mut i: usize = from;
            while i < n && x[i] != '.'
                invariant
                    n == x.len(),
                    from <= i <= n,
                    parent(rest) == parent(x@.subrange(i as int, n as int)),
                decreases n - i,
            {
                let ghost here = x@.subrange(i as int, n as int);
                assert(here.len() > 0 && here[0] == x@[i as int]);
                assert(here.drop_first() =~= x@.subrange(i + 1, n as int));
                i += 1;
            }
            let ghost here = x@.subrange(i as int, n as int);
            assert(here.len() == n - i);
            if i == n {
                return None;
            }
            assert(here[0] == x@[i as int]);
            assert(here.drop_first() =~= x@.subrange(i + 1, n as int));
            let owner = string_range(x.as_slice(), i + 1, n);
            if i + 1 == n {
                return None;
            }
            if has_name(&self.wildcard, owner.as_str()) {
                return Some(rename(pick(&self.wildcard, owner.as_str(), qtype), qname));
            }
            from = i + 1;
        }
    }

    /// Whether no zone has any name.
    pub fn is_empty(&self) -> (b: bool)
        ensures
            b == (self@.exact.len() == 0 && self@.wildcard.len() == 0),
    {
        self.exact.len() == 0 && self.wildcard.len() == 0
    }

    /// The zones with these records, none of them a wildcard's.
    pub fn from_exact(recs: Vec<DnsRecord>) -> (r: Self)
        ensures
            r@ == (ZoneView { exact: records(recs@), wildcard: Seq::empty() }),
    {
        let r = ZoneMap { exact: recs, wildcard: Vec::new() };
        assert(records(r.wildcard@) =~= Seq::<RecordView>::empty());
        r
    }
}

/// The record of a configured type with a configured value.
fn build_record(kind: &String, value: &String, domain: String, ttl: u32) -> (r: Result<
    DnsRecord,
    ZoneError,
>)
    ensures
        match r {
            Ok(rec) => zone_data(kind@, value@) == Ok::<RdataView, ZoneFault>(rec@.data)
                && rec@.domain == domain@ && rec@.ttl == ttl,
            Err(e) => zone_data(kind@, value@) == Err::<RdataView, ZoneFault>(e@),
        },
{
    if str_eq(kind.as_str(), "A") {
        return match parse_ipv4(value.as_str()) {
            Some(addr) => Ok(DnsRecord::A { domain, addr, ttl }),
            None => Err(ZoneError::InvalidA(value.clone())),
        };
    }
    if str_eq(kind.as_str(), "AAAA") {
        return match parse_ipv6(value.as_str()) {
            Some(addr) => Ok(DnsRecord::AAAA { domain, addr, ttl }),
            None => Err(ZoneError::InvalidAaaa(value.clone())),
        };
    }
    if str_eq(kind.as_str(), "CNAME") {
        return Ok(DnsRecord::CNAME { domain, host: value.clone(), ttl });
    }
    if str_eq(kind.as_str(), "PTR") {
        return Ok(DnsRecord::PTR { domain, host: value.clone(), ttl });
    }
    if str_eq(kind.as_str(), "NS") {
        return Ok(DnsRecord::NS { domain, host: value.clone(), ttl });
    }
    if !str_eq(kind.as_str(), "MX") {
        return Err(ZoneError::UnsupportedType(kind.clone()));
    }
    if !contains_char(value.as_str(), ' ') {
        return Err(ZoneError::MxShape(value.clone()));
    }
    let first = cut_at(value.as_str(), ' ');
    let x = chars_of(value.as_str());
    let at: usize = chars_of(first.as_str()).len();
    proof {
        up_to_stops(value@, ' ');
    }
    let host = string_range(x.as_slice(), at + 1, x.len());
    match parse_u64(first.as_str()) {
        Some(n) => if n <= 65535 {
            Ok(DnsRecord::MX { domain, priority: n as u16, host, ttl })
        } else {
            Err(ZoneError::MxPriority(first))
        },
        None => Err(ZoneError::MxPriority(first)),
    }
}

/// Where a character occurs, the text up to it is shorter than the text.
proof fn up_to_stops(s: Seq<char>, c: char)
    requires
        s.contains(c),
    ensures
        up_to(s, c).len() < s.len(),
    decreases s.len(),
{
    if s.len() > 0 && s[0] != c {
        let k = choose|k: int| 0 <= k < s.len() && s[k] == c;
        assert(s.drop_first()[k - 1] == c);
        up_to_stops(s.drop_first(), c);
    }
}

/// Adds a configured record to the zones.
fn add_zone(map: &mut ZoneMap, zone: &ZoneRecord) -> (r: Result<(), ZoneError>)
    ensures
        match zone_entry(*zone) {
            Err(e) => r is Err && r->Err_0@ == e,
            Ok((wild, rec)) => r is Ok && final(map)@ == (if wild {
                ZoneView { exact: old(map)@.exact, wildcard: old(map)@.wildcard.push(rec) }
            } else {
                ZoneView { exact: old(map)@.exact.push(rec), wildcard: old(map)@.wildcard }
            }),
        },
{
    let raw = normalize(zone.domain.as_str());
    let wild = starts_with(raw.as_str(), "*.");
    proof {
        reveal_strlit("*.");
    }
    let x = chars_of(raw.as_str());
    let from: usize = if wild {
        2
    } else {
        0
    };
    let key = string_range(x.as_slice(), from, x.len());
    assert(raw@.subrange(0, raw@.len() as int) =~= raw@);
    if key.as_str().is_empty() || contains_char(key.as_str(), '*') {
        return Err(ZoneError::InvalidWildcard(raw));
    }
    let kind = to_uppercase(zone.record_type.as_str());
    let ghost domain = key@;
    let rec = match build_record(&kind, &zone.value, key, zone.ttl) {
        Ok(rec) => rec,
        Err(e) => {
            return Err(e);
        },
    };
    let ghost view = rec@;
    assert(view =~= RecordView { domain, ttl: zone.ttl, data: view.data });
    if wild {
        let ghost before = map.wildcard@;
        map.wildcard.push(rec);
        assert(records(map.wildcard@) =~= records(before).push(view));
    } else {
        let ghost before = map.exact@;
        map.exact.push(rec);
        assert(records(map.exact@) =~= records(before).push(view));
    }
    Ok(())
}

/// The zones that are configured, or what is wrong with the first record that
/// cannot be used.
pub fn build_zone_map(zones: &Vec<ZoneRecord>) -> (r: Result<ZoneMap, ZoneError>)
    ensures
        match r {
            Ok(m) => zones_of(zones@) == Ok::<ZoneView, ZoneFault>(m@),
            Err(e) => zones_of(zones@) == Err::<ZoneView, ZoneFault>(e@),
        },
{
    let mut map = ZoneMap::default();
    let mut i: usize = 0;
    assert(zones@.subrange(0, 0) =~= Seq::<ZoneRecord>::empty());
    while i < zones.len()
        invariant
            i <= zones.len(),
            zones_of(zones@.subrange(0, i as int)) == Ok::<ZoneView, ZoneFault>(map@),
        decreases zones.len() - i,
    {
        proof {
            let more = zones@.subrange(0, i + 1);
            assert(more.drop_last() =~= zones@.subrange(0, i as int));
            assert(more.last() == zones@[i as int]);
            zones_of_fails(zones@, i + 1);
        }
        match add_zone(&mut map, &zones[i]) {
            Ok(_) => {},
            Err(e) => {
                return Err(e);
            },
        }
        i += 1;
    }
    assert(zones@.subrange(0, zones@.len() as int) =~= zones@);
    Ok(map)
}

proof fn zones_of_fails(zones: Seq<ZoneRecord>, i: int)
    requires
        0 <= i <= zones.len(),
    ensures
        zones_of(zones.subrange(0, i)) is Err ==> zones_of(zones) == zones_of(
            zones.subrange(0, i),
        ),
    decreases zones.len() - i,
{
    if i < zones.len() {
        zones_of_fails(zones, i + 1);
        assert(zones.subrange(0, i + 1).drop_last() =~= zones.subrange(0, i));
    } else {
        assert(zones.subrange(0, i) =~= zones);
    }
}

/// A name with records of its own is answered from those alone, for every
/// type: no wildcard has a say.
pub proof fn exact_name_shadows_wildcard(a: ZoneView, b: ZoneView, qname: Seq<char>, qtype: QueryType)
    requires
        a.exact == b.exact,
        owned(a.exact, qname),
    ensures
        a.answers(qname, qtype) == b.answers(qname, qtype),
        a.answers(qname, qtype) is Some,
{
}

/// A wildcard answers for names strictly under its own, never for its own, and
/// of several the one nearest to the name.
pub proof fn nearest_wildcard_answers(
    wildcard: Seq<RecordView>,
    qname: Seq<char>,
    other: Seq<char>,
)
    requires
        wildcard_owner(wildcard, qname) is Some,
    ensures
        ({
            let p = wildcard_owner(wildcard, qname)->0;
            &&& owned(wildcard, p)
            &&& has_suffix(qname, seq!['.'] + p)
            &&& p.len() < qname.len()
            &&& owned(wildcard, other) && has_suffix(qname, seq!['.'] + other) ==> other.len()
                <= p.len()
        }),
    decreases qname.len(),
{
    crate::domain_list::parent_is_shorter(qname);
    let p = parent(qname)->0;
    crate::domain_list::under_parent(qname, p);
    crate::domain_list::under_parent(qname, other);
    if owned(wildcard, p) {
    } else {
        nearest_wildcard_answers(wildcard, p, other);
        let w = wildcard_owner(wildcard, p)->0;
        crate::domain_list::under_parent(qname, w);
    }
}

/// The names and types of records.
pub open spec fn owner_types(recs: Seq<RecordView>) -> Set<KeyView> {
    recs.map_values(|r: RecordView| (r.domain, r.data.qtype())).to_set()
}

fn count_owner_types(recs: &Vec<DnsRecord>) -> (n: usize)
    ensures
        n == owner_types(records(recs@)).len(),
        n <= recs@.len(),
{
    let ghost all = records(recs@).map_values(|r: RecordView| (r.domain, r.data.qtype()));
    let mut set = QuestionSet::new();
    let mut i: usize = 0;
    assert(all.subrange(0, 0).to_set() =~= Set::<KeyView>::empty());
    while i < recs.len()
        invariant
            i <= recs.len(),
            set.wf(),
            all == records(recs@).map_values(|r: RecordView| (r.domain, r.data.qtype())),
            set@ == all.subrange(0, i as int).to_set(),
        decreases recs.len() - i,
    {
        proof {
            assert(all[i as int] == (recs@[i as int]@.domain, recs@[i as int]@.data.qtype()));
            assert(all.subrange(0, i + 1) =~= all.subrange(0, i as int).push(all[i as int]));
            push_key(all.subrange(0, i as int), all[i as int]);
        }
        let _new = set.insert(recs[i].domain(), recs[i].query_type());
        i += 1;
    }
    assert(all.subrange(0, all.len() as int) =~= all);
    proof {
        all.lemma_cardinality_of_set();
    }
    set.len()
}

impl ZoneMap {
    /// The number of sets of records of one name and type, exact and wildcard.
    pub fn len(&self) -> (n: usize)
        requires
            self.exact@.len() + self.wildcard@.len() <= usize::MAX,
        ensures
            n == owner_types(self@.exact).len() + owner_types(self@.wildcard).len(),
    {
        count_owner_types(&self.exact) + count_owner_types(&self.wildcard)
    }
}

} // verus!
