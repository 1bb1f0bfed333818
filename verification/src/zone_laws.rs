//! What configured records come to: how their values are read, and what is
//! answered from them.
use vstd::prelude::*;

use crate::domain_list::{normalized, parent, parent_is_shorter, under, under_parent};
use crate::net::{ip_text, IpAddr};
use crate::question::QueryType;
use crate::record::{RdataView, RecordView};
use crate::text::{decimal, has_prefix, has_suffix, parsed_number, uppercase};
use crate::text_laws::{
    cut_at_the_first, digits_give_the_number, numbers_are_read, prefix_and_rest, suffix_or_whole,
};
use crate::zone::{
    answering, nearest_wildcard_answers, of_type, owned, wildcard_owner, zone_data, zone_entry,
    zones_of, ZoneFault, ZoneRecord, ZoneView,
};

verus! {

// ---------------------------------------------------------------------------
// Values
// ---------------------------------------------------------------------------

/// The value of a mail exchange is a number, a space and a host: the record has
/// that number as its priority, and that host.
pub proof fn exchange_has_its_priority(n: nat, host: Seq<char>)
    ensures
        n <= 65535 ==> zone_data("MX"@, decimal(n) + seq![' '] + host) == Ok::<
            RdataView,
            ZoneFault,
        >(RdataView::Mx { priority: n as u16, host }),
        n > 65535 ==> zone_data("MX"@, decimal(n) + seq![' '] + host) == Err::<
            RdataView,
            ZoneFault,
        >(ZoneFault::MxPriority(decimal(n))),
{
    reveal_strlit("MX");
    reveal_strlit("A");
    reveal_strlit("AAAA");
    reveal_strlit("CNAME");
    reveal_strlit("PTR");
    reveal_strlit("NS");
    assert("MX"@[0] == 'M' && "PTR"@.len() == 3 && "NS"@[0] == 'N');
    let d = decimal(n);
    let v = d + seq![' '] + host;
    digits_give_the_number(n);
    assert(!d.contains(' ')) by {
        if d.contains(' ') {
            let i = choose|i: int| 0 <= i < d.len() && d[i] == ' ';
            assert('0' <= decimal(n)[i]);
        }
    }
    cut_at_the_first(d, host, ' ');
    numbers_are_read(n, d);
    assert(v[d.len() as int] == ' ');
    assert(v.contains(' '));
    assert(v.subrange(d.len() as int + 1, v.len() as int) =~= host);
}

/// A mail exchange without a space, or whose priority is no number, is refused.
pub proof fn exchange_without_priority(value: Seq<char>, word: Seq<char>, host: Seq<char>)
    requires
        !word.contains(' '),
    ensures
        !value.contains(' ') ==> zone_data("MX"@, value) == Err::<RdataView, ZoneFault>(
            ZoneFault::MxShape(value),
        ),
        parsed_number(word) is None ==> zone_data("MX"@, word + seq![' '] + host) == Err::<
            RdataView,
            ZoneFault,
        >(ZoneFault::MxPriority(word)),
{
    reveal_strlit("MX");
    reveal_strlit("A");
    reveal_strlit("AAAA");
    reveal_strlit("CNAME");
    reveal_strlit("PTR");
    reveal_strlit("NS");
    assert("MX"@[0] == 'M' && "PTR"@.len() == 3 && "NS"@[0] == 'N');
    let v = word + seq![' '] + host;
    cut_at_the_first(word, host, ' ');
    assert(v[word.len() as int] == ' ');
    assert(v.contains(' '));
}

/// An address record holds the address that its value writes, an IPv4 address
/// for `A` and an IPv6 address for `AAAA`; any other value is refused.
pub proof fn address_is_the_one_written(value: Seq<char>)
    ensures
        match ip_text(value) {
            Some(IpAddr::V4(addr)) => zone_data("A"@, value) == Ok::<RdataView, ZoneFault>(
                RdataView::A { addr },
            ) && zone_data("AAAA"@, value) == Err::<RdataView, ZoneFault>(
                ZoneFault::InvalidAaaa(value),
            ),
            Some(IpAddr::V6(addr)) => zone_data("AAAA"@, value) == Ok::<RdataView, ZoneFault>(
                RdataView::Aaaa { addr },
            ) && zone_data("A"@, value) == Err::<RdataView, ZoneFault>(ZoneFault::InvalidA(value)),
            None => zone_data("A"@, value) == Err::<RdataView, ZoneFault>(
                ZoneFault::InvalidA(value),
            ) && zone_data("AAAA"@, value) == Err::<RdataView, ZoneFault>(
                ZoneFault::InvalidAaaa(value),
            ),
        },
{
    reveal_strlit("A");
    reveal_strlit("AAAA");
    assert("A"@.len() != "AAAA"@.len());
}

/// An alias, a pointer and a name server are taken as they are written, and no
/// other type than the six is known.
pub proof fn names_are_taken_as_written(kind: Seq<char>, value: Seq<char>)
    ensures
        zone_data("CNAME"@, value) == Ok::<RdataView, ZoneFault>(RdataView::Cname { host: value }),
        zone_data("PTR"@, value) == Ok::<RdataView, ZoneFault>(RdataView::Ptr { host: value }),
        zone_data("NS"@, value) == Ok::<RdataView, ZoneFault>(RdataView::Ns { host: value }),
        kind != "A"@ && kind != "AAAA"@ && kind != "CNAME"@ && kind != "PTR"@ && kind != "NS"@
            && kind != "MX"@ ==> zone_data(kind, value) == Err::<RdataView, ZoneFault>(
            ZoneFault::UnsupportedType(kind),
        ),
{
    reveal_strlit("MX");
    reveal_strlit("A");
    reveal_strlit("AAAA");
    reveal_strlit("CNAME");
    reveal_strlit("PTR");
    reveal_strlit("NS");
    assert("MX"@[0] == 'M' && "PTR"@.len() == 3 && "NS"@[0] == 'N');
    assert("CNAME"@.len() == 5 && "AAAA"@.len() == 4 && "A"@.len() == 1);
}

/// A record stands under its domain in normal form, with its time to live. One
/// whose domain starts with `*.` stands for what is under the rest, and a star
/// anywhere else, or nothing behind it, is refused. The type is written in
/// either case.
pub proof fn record_stands_under_its_domain(z: ZoneRecord, rest: Seq<char>, data: RdataView)
    requires
        zone_data(uppercase(z.record_type@), z.value@) == Ok::<RdataView, ZoneFault>(data),
    ensures
        normalized(z.domain@).len() > 0 && !normalized(z.domain@).contains('*') ==> zone_entry(z)
            == Ok::<(bool, RecordView), ZoneFault>(
            (false, RecordView { domain: normalized(z.domain@), ttl: z.ttl, data }),
        ),
        normalized(z.domain@) == seq!['*', '.'] + rest && rest.len() > 0 && !rest.contains('*')
            ==> zone_entry(z) == Ok::<(bool, RecordView), ZoneFault>(
            (true, RecordView { domain: rest, ttl: z.ttl, data }),
        ),
        normalized(z.domain@) == seq!['*', '.'] + rest && (rest.len() == 0 || rest.contains('*'))
            ==> zone_entry(z) == Err::<(bool, RecordView), ZoneFault>(
            ZoneFault::InvalidWildcard(normalized(z.domain@)),
        ),
        normalized(z.domain@).len() == 0 || (normalized(z.domain@).contains('*') && !(
        normalized(z.domain@).len() >= 2 && normalized(z.domain@)[0] == '*' && normalized(
            z.domain@,
        )[1] == '.')) ==> zone_entry(z) == Err::<
            (bool, RecordView),
            ZoneFault,
        >(ZoneFault::InvalidWildcard(normalized(z.domain@))),
{
    reveal_strlit("*.");
    let raw = normalized(z.domain@);
    let star = seq!['*', '.'];
    assert("*."@ =~= star);
    if has_prefix(raw, star) {
        let t = raw.subrange(2, raw.len() as int);
        assert(raw =~= star + t);
        assert(raw[0] == '*');
        assert(raw.contains('*'));
    }
    if raw == star + rest {
        prefix_and_rest(star, rest);
        assert(raw.subrange(2, raw.len() as int) =~= rest);
    }
}

// ---------------------------------------------------------------------------
// The zones as a whole
// ---------------------------------------------------------------------------

/// Configured records make up the zones where each of them is in order, and only
/// then: those for exact names and those for wildcards, each in the order in
/// which they were written.
pub proof fn zones_hold_each_record(
    zones: Seq<ZoneRecord>,
    entries: Seq<(bool, RecordView)>,
    wild: spec_fn((bool, RecordView)) -> bool,
    exact: spec_fn((bool, RecordView)) -> bool,
    record: spec_fn((bool, RecordView)) -> RecordView,
)
    requires
        entries.len() == zones.len(),
        forall|i: int|
            0 <= i < zones.len() ==> zone_entry(#[trigger] zones[i]) == Ok::<
                (bool, RecordView),
                ZoneFault,
            >(entries[i]),
        forall|e: (bool, RecordView)| #[trigger] wild(e) == e.0,
        forall|e: (bool, RecordView)| #[trigger] exact(e) == !e.0,
        forall|e: (bool, RecordView)| #[trigger] record(e) == e.1,
    ensures
        zones_of(zones) == Ok::<ZoneView, ZoneFault>(
            ZoneView {
                exact: entries.filter(exact).map_values(record),
                wildcard: entries.filter(wild).map_values(record),
            },
        ),
    decreases zones.len(),
{
    reveal(Seq::filter);
    if zones.len() == 0 {
        assert(entries.filter(exact).map_values(record) =~= Seq::<RecordView>::empty());
        assert(entries.filter(wild).map_values(record) =~= Seq::<RecordView>::empty());
    } else {
        let zs = zones.drop_last();
        let es = entries.drop_last();
        assert forall|i: int| 0 <= i < zs.len() implies zone_entry(#[trigger] zs[i]) == Ok::<
            (bool, RecordView),
            ZoneFault,
        >(es[i]) by {
            assert(zs[i] == zones[i]);
        }
        zones_hold_each_record(zs, es, wild, exact, record);
        let z = zones[zones.len() - 1];
        let e = entries[entries.len() - 1];
        assert(zone_entry(z) == Ok::<(bool, RecordView), ZoneFault>(e));
        assert(wild(e) == e.0 && exact(e) == !e.0 && record(e) == e.1);
        assert(es.filter(exact).push(e).map_values(record) =~= es.filter(exact).map_values(
            record,
        ).push(e.1));
        assert(es.filter(wild).push(e).map_values(record) =~= es.filter(wild).map_values(
            record,
        ).push(e.1));
        assert(z == zones.last());
    }
}

/// One record that is not in order is enough for the zones to be refused, with
/// what is wrong with the first such record.
pub proof fn first_fault_is_told(zones: Seq<ZoneRecord>, i: int)
    requires
        0 <= i < zones.len(),
        zone_entry(zones[i]) is Err,
        forall|j: int| 0 <= j < i ==> zone_entry(#[trigger] zones[j]) is Ok,
    ensures
        zones_of(zones) == Err::<ZoneView, ZoneFault>(zone_entry(zones[i])->Err_0),
    decreases zones.len(),
{
    let zs = zones.drop_last();
    if i < zones.len() - 1 {
        assert(zs[i] == zones[i]);
        assert forall|j: int| 0 <= j < i implies zone_entry(#[trigger] zs[j]) is Ok by {
            assert(zs[j] == zones[j]);
        }
        first_fault_is_told(zs, i);
    } else {
        assert forall|j: int| 0 <= j < zs.len() implies zone_entry(#[trigger] zs[j]) is Ok by {
            assert(zs[j] == zones[j]);
        }
        faultless_zones_stand(zs);
    }
}

proof fn faultless_zones_stand(zones: Seq<ZoneRecord>)
    requires
        forall|j: int| 0 <= j < zones.len() ==> zone_entry(#[trigger] zones[j]) is Ok,
    ensures
        zones_of(zones) is Ok,
    decreases zones.len(),
{
    if zones.len() > 0 {
        let zs = zones.drop_last();
        assert forall|j: int| 0 <= j < zs.len() implies zone_entry(#[trigger] zs[j]) is Ok by {
            assert(zs[j] == zones[j]);
        }
        assert(zone_entry(zones[zones.len() - 1]) is Ok);
        faultless_zones_stand(zs);
    }
}

// ---------------------------------------------------------------------------
// Answers
// ---------------------------------------------------------------------------

proof fn chosen_records(
    recs: Seq<RecordView>,
    name: Seq<char>,
    qtype: QueryType,
    pick: spec_fn(RecordView) -> bool,
)
    requires
        forall|r: RecordView| #[trigger] pick(r) <==> r.domain == name && r.data.qtype() == qtype,
    ensures
        of_type(recs, name, qtype) == recs.filter(pick),
{
    let f = |r: RecordView| r.domain == name && r.data.qtype() == qtype;
    assert forall|r: RecordView| #[trigger] f(r) == pick(r) by {}
    assert(f =~= pick);
}

proof fn filtered_holds(recs: Seq<RecordView>, pick: spec_fn(RecordView) -> bool)
    ensures
        recs.filter(pick).len() > 0 <==> exists|i: int|
            0 <= i < recs.len() && pick(#[trigger] recs[i]),
    decreases recs.len(),
{
    reveal(Seq::filter);
    if recs.len() > 0 {
        let r = recs.drop_last();
        filtered_holds(r, pick);
        if recs.filter(pick).len() > 0 && !pick(recs.last()) {
            let i = choose|i: int| 0 <= i < r.len() && pick(#[trigger] r[i]);
            assert(pick(recs[i]));
        }
        if exists|i: int| 0 <= i < recs.len() && pick(#[trigger] recs[i]) {
            let i = choose|i: int| 0 <= i < recs.len() && pick(#[trigger] recs[i]);
            if i < recs.len() - 1 {
                assert(pick(r[i]));
            }
        }
    }
}

/// A name that has configured records is answered with those of the type asked
/// for, in their order. Where it has none of that type it is answered with its
/// aliases, and where it has none of those either, with nothing.
pub proof fn zone_answers_its_names(
    m: ZoneView,
    qname: Seq<char>,
    qtype: QueryType,
    asked: spec_fn(RecordView) -> bool,
    alias: spec_fn(RecordView) -> bool,
)
    requires
        exists|i: int| 0 <= i < m.exact.len() && (#[trigger] m.exact[i]).domain == qname,
        forall|r: RecordView| #[trigger] asked(r) <==> r.domain == qname && r.data.qtype() == qtype,
        forall|r: RecordView| #[trigger] alias(r) <==> r.domain == qname && r.data is Cname,
    ensures
        m.answers(qname, qtype) == Some(
            if exists|i: int| 0 <= i < m.exact.len() && asked(#[trigger] m.exact[i]) {
                m.exact.filter(asked)
            } else {
                m.exact.filter(alias)
            },
        ),
{
    chosen_answers(m.exact, qname, qtype, asked, alias);
}

proof fn chosen_answers(
    recs: Seq<RecordView>,
    name: Seq<char>,
    qtype: QueryType,
    asked: spec_fn(RecordView) -> bool,
    alias: spec_fn(RecordView) -> bool,
)
    requires
        forall|r: RecordView| #[trigger] asked(r) <==> r.domain == name && r.data.qtype() == qtype,
        forall|r: RecordView| #[trigger] alias(r) <==> r.domain == name && r.data is Cname,
    ensures
        answering(recs, name, qtype) == (if exists|i: int|
            0 <= i < recs.len() && asked(#[trigger] recs[i]) {
            recs.filter(asked)
        } else {
            recs.filter(alias)
        }),
{
    chosen_records(recs, name, qtype, asked);
    chosen_records(recs, name, QueryType::CNAME, alias);
    filtered_holds(recs, asked);
    if qtype == QueryType::CNAME {
        assert forall|r: RecordView| #[trigger] asked(r) == alias(r) by {}
        assert(asked =~= alias);
    }
}

proof fn nearest_owner_is_found(wildcard: Seq<RecordView>, qname: Seq<char>, owner: Seq<char>)
    requires
        owner.len() > 0,
        owned(wildcard, owner),
        has_suffix(qname, seq!['.'] + owner),
    ensures
        wildcard_owner(wildcard, qname) is Some,
    decreases qname.len(),
{
    under_parent(qname, owner);
    parent_is_shorter(qname);
    if let Some(p) = parent(qname) {
        assert(under(p, owner));
        if p.len() == 0 {
            assert(!has_suffix(p, seq!['.'] + owner));
        } else if !owned(wildcard, p) {
            nearest_owner_is_found(wildcard, p, owner);
        }
    }
}

/// A name without configured records of its own is answered with the records of
/// the longest wildcard that it is under, in its own name: `*.owner` stands for
/// every name that ends in `.owner`.
pub proof fn wildcard_stands_for_names(
    m: ZoneView,
    qname: Seq<char>,
    qtype: QueryType,
    front: Seq<char>,
    owner: Seq<char>,
    asked: spec_fn(RecordView) -> bool,
    alias: spec_fn(RecordView) -> bool,
    renamed: spec_fn(RecordView) -> RecordView,
)
    requires
        forall|i: int| 0 <= i < m.exact.len() ==> (#[trigger] m.exact[i]).domain != qname,
        qname == front + seq!['.'] + owner,
        owner.len() > 0,
        exists|i: int| 0 <= i < m.wildcard.len() && (#[trigger] m.wildcard[i]).domain == owner,
        forall|i: int|
            #![trigger m.wildcard[i]]
            0 <= i < m.wildcard.len() && m.wildcard[i].domain.len() > owner.len() ==> !has_suffix(
                qname,
                seq!['.'] + m.wildcard[i].domain,
            ),
        forall|r: RecordView| #[trigger] asked(r) <==> r.domain == owner && r.data.qtype() == qtype,
        forall|r: RecordView| #[trigger] alias(r) <==> r.domain == owner && r.data is Cname,
        forall|r: RecordView|
            (#[trigger] renamed(r)).domain == qname && renamed(r).ttl == r.ttl && renamed(r).data
                == r.data,
    ensures
        m.answers(qname, qtype) == Some(
            (if exists|i: int| 0 <= i < m.wildcard.len() && asked(#[trigger] m.wildcard[i]) {
                m.wildcard.filter(asked)
            } else {
                m.wildcard.filter(alias)
            }).map_values(renamed),
        ),
{
    assert(qname =~= front + (seq!['.'] + owner));
    suffix_or_whole(qname, seq!['.'] + owner);
    assert(has_suffix(qname, seq!['.'] + owner));
    assert(owned(m.wildcard, owner));
    nearest_owner_is_found(m.wildcard, qname, owner);
    nearest_wildcard_answers(m.wildcard, qname, owner);
    let p = wildcard_owner(m.wildcard, qname)->0;
    let i = choose|i: int| 0 <= i < m.wildcard.len() && (#[trigger] m.wildcard[i]).domain == p;
    assert(m.wildcard[i].domain.len() <= owner.len());
    assert(p =~= owner) by {
        let n = qname.len() as int;
        let tail = seq!['.'] + p;
        let same = seq!['.'] + owner;
        assert(qname.subrange(n - tail.len(), n) == tail);
        assert(qname.subrange(n - same.len(), n) == same);
        assert(tail =~= same);
        assert(p =~= tail.subrange(1, tail.len() as int));
        assert(owner =~= same.subrange(1, same.len() as int));
    }
    chosen_answers(m.wildcard, owner, qtype, asked, alias);
    let found = answering(m.wildcard, owner, qtype);
    let named = |r: RecordView| RecordView { domain: qname, ..r };
    assert(found.map_values(named) =~= found.map_values(renamed)) by {
        assert forall|k: int| 0 <= k < found.len() implies named(#[trigger] found[k]) == renamed(
            found[k],
        ) by {}
    }
}

/// A name that has no configured records and is under no wildcard is none of the
/// zones' business.
pub proof fn other_names_are_not_answered(m: ZoneView, qname: Seq<char>, qtype: QueryType)
    requires
        forall|i: int| 0 <= i < m.exact.len() ==> (#[trigger] m.exact[i]).domain != qname,
        forall|i: int|
            #![trigger m.wildcard[i]]
            0 <= i < m.wildcard.len() ==> !has_suffix(qname, seq!['.'] + m.wildcard[i].domain),
    ensures
        m.answers(qname, qtype) is None,
{
    if wildcard_owner(m.wildcard, qname) is Some {
        let p = wildcard_owner(m.wildcard, qname)->0;
        nearest_wildcard_answers(m.wildcard, qname, p);
        let i = choose|i: int| 0 <= i < m.wildcard.len() && (#[trigger] m.wildcard[i]).domain == p;
        assert(!has_suffix(qname, seq!['.'] + m.wildcard[i].domain));
    }
}

/// A record whose domain is in order is refused for its value, with what is wrong
/// with that.
pub proof fn faulty_value_is_told(z: ZoneRecord, fault: ZoneFault)
    requires
        zone_data(uppercase(z.record_type@), z.value@) == Err::<RdataView, ZoneFault>(fault),
        normalized(z.domain@).len() > 0,
        !normalized(z.domain@).contains('*'),
    ensures
        zone_entry(z) == Err::<(bool, RecordView), ZoneFault>(fault),
{
    reveal_strlit("*.");
    let raw = normalized(z.domain@);
    if has_prefix(raw, "*."@) {
        assert(raw.subrange(0, 2)[0] == "*."@[0]);
        assert(raw[0] == '*');
    }
}

} // verus!
