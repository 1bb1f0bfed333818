//! Protection against DNS rebinding: addresses inside the client's perimeter
//! are taken out of answers that come from outside.
use vstd::prelude::*;

use crate::acl::{bad_entry, first_bad, nets_of, CidrMatcher};
use crate::domain_list::PersistedDomainList;
use crate::name_set::ascending;
use crate::net::IpAddr;
use crate::packet::{records, DnsPacket, PacketView};
use crate::record::{DnsRecord, RdataView, RecordView};
use crate::svcb::{
    edited_rdata, strip_private_hints, strip_private_hints_once, within, without_private,
};
use crate::text::{at_most_max, copy_texts, texts};

verus! {

/// The private and special-use ranges that count where none are configured.
pub open spec fn default_ranges() -> Seq<Seq<char>> {
    seq![
        "127.0.0.0/8"@,
        "10.0.0.0/8"@,
        "172.16.0.0/12"@,
        "192.168.0.0/16"@,
        "169.254.0.0/16"@,
        "100.64.0.0/10"@,
        "0.0.0.0/8"@,
        "fc00::/7"@,
        "64:ff9b::/96"@,
        "fe80::/10"@,
        "::1/128"@,
        "::/128"@,
    ]
}

/// The private and special-use ranges that count where none are configured:
/// loopback, the private networks, link-local, carrier-grade NAT, "this host",
/// unique local, NAT64, and the loopback and unspecified addresses of IPv6.
fn default_range_list() -> (v: Vec<String>)
    ensures
        texts(v@) == default_ranges(),
{
    let mut v: Vec<String> = Vec::new();
    v.push("127.0.0.0/8".to_owned());
    v.push("10.0.0.0/8".to_owned());
    v.push("172.16.0.0/12".to_owned());
    v.push("192.168.0.0/16".to_owned());
    v.push("169.254.0.0/16".to_owned());
    v.push("100.64.0.0/10".to_owned());
    v.push("0.0.0.0/8".to_owned());
    v.push("fc00::/7".to_owned());
    v.push("64:ff9b::/96".to_owned());
    v.push("fe80::/10".to_owned());
    v.push("::1/128".to_owned());
    v.push("::/128".to_owned());
    assert(texts(v@) =~= default_ranges());
    v
}

/// Whether a record is an address in the private ranges.
pub open spec fn exposed(r: RecordView, private: spec_fn(IpAddr) -> bool) -> bool {
    match r.data {
        RdataView::A { addr } => private(IpAddr::V4(addr)),
        RdataView::Aaaa { addr } => private(IpAddr::V6(addr)),
        _ => false,
    }
}

/// The new data of a record of type SVCB or HTTPS whose hints hold private
/// addresses: the data without those.
pub open spec fn cleaned(r: RecordView, private: spec_fn(IpAddr) -> bool) -> Option<Seq<u8>> {
    match r.data {
        RdataView::Unknown { qtype, data } => if qtype == 64 || qtype == 65 {
            edited_rdata(data, without_private(private))
        } else {
            None
        },
        _ => None,
    }
}

/// A record without the private addresses in its hints.
pub open spec fn cleaned_record(r: RecordView, private: spec_fn(IpAddr) -> bool) -> RecordView {
    match cleaned(r, private) {
        None => r,
        Some(d) => match r.data {
            RdataView::Unknown { qtype, .. } => RecordView {
                data: RdataView::Unknown { qtype, data: d },
                ..r
            },
            _ => r,
        },
    }
}

/// Records without private addresses.
pub open spec fn scrubbed(recs: Seq<RecordView>, private: spec_fn(IpAddr) -> bool) -> Seq<
    RecordView,
>
    decreases recs.len(),
{
    if recs.len() == 0 {
        Seq::empty()
    } else {
        let before = scrubbed(recs.drop_last(), private);
        if exposed(recs.last(), private) {
            before
        } else {
            before.push(cleaned_record(recs.last(), private))
        }
    }
}

/// The number of records that are taken out or changed.
pub open spec fn acted_on(recs: Seq<RecordView>, private: spec_fn(IpAddr) -> bool) -> nat
    decreases recs.len(),
{
    if recs.len() == 0 {
        0
    } else {
        acted_on(recs.drop_last(), private) + if exposed(recs.last(), private) || cleaned(
            recs.last(),
            private,
        ) is Some {
            1nat
        } else {
            0
        }
    }
}

/// Takes the private addresses out of records, and counts the records that
/// were taken out or changed.
fn scrub_section(recs: Vec<DnsRecord>, ranges: &CidrMatcher) -> (r: (Vec<DnsRecord>, usize))
    requires
        ranges.wf(),
    ensures
        records(r.0@) == scrubbed(records(recs@), within(ranges)),
        r.1 == acted_on(records(recs@), within(ranges)),
        r.1 <= recs@.len(),
{
    let ghost all = records(recs@);
    let ghost private = within(ranges);
    let mut out: Vec<DnsRecord> = Vec::new();
    let mut acted: usize = 0;
    let mut rest = recs;
    let mut i: usize = 0;
    let n: usize = rest.len();
    assert(all.subrange(0, 0) =~= Seq::<RecordView>::empty());
    assert(records(out@) =~= Seq::<RecordView>::empty());
    while i < n
        invariant
            ranges.wf(),
            private == within(ranges),
            all == records(recs@),
            n == all.len(),
            i <= n,
            acted <= i,
            rest@ == recs@.subrange(i as int, n as int),
            records(out@) == scrubbed(all.subrange(0, i as int), private),
            acted == acted_on(all.subrange(0, i as int), private),
        decreases n - i,
    {
        let rec = rest.remove(0);
        proof {
            assert(rest@ =~= recs@.subrange(i + 1, n as int));
            let more = all.subrange(0, i + 1);
            assert(more.drop_last() =~= all.subrange(0, i as int));
            assert(more.last() == rec@);
        }
        let ghost before = out@;
        match rec {
            DnsRecord::A { domain, addr, ttl } => {
                if ranges.matches(IpAddr::V4(addr)) {
                    acted += 1;
                } else {
                    out.push(DnsRecord::A { domain, addr, ttl });
                }
            },
            DnsRecord::AAAA { domain, addr, ttl } => {
                if ranges.matches(IpAddr::V6(addr)) {
                    acted += 1;
                } else {
                    out.push(DnsRecord::AAAA { domain, addr, ttl });
                }
            },
            DnsRecord::UNKNOWN { domain, qtype, data, ttl } => {
                if qtype == 64 || qtype == 65 {
                    match strip_private_hints(data.as_slice(), ranges) {
                        Some(clean) => {
                            acted += 1;
                            out.push(DnsRecord::UNKNOWN { domain, qtype, data: clean, ttl });
                        },
                        None => {
                            out.push(DnsRecord::UNKNOWN { domain, qtype, data, ttl });
                        },
                    }
                } else {
                    out.push(DnsRecord::UNKNOWN { domain, qtype, data, ttl });
                }
            },
            other => {
                out.push(other);
            },
        }
        proof {
            if out@.len() > before.len() {
                assert(records(out@) =~= records(before).push(out@.last()@));
            }
        }
        i += 1;
    }
    assert(all.subrange(0, n as int) =~= all);
    (out, acted)
}

/// What the filter makes of a message.
pub open spec fn scrubbed_packet(p: PacketView, private: spec_fn(IpAddr) -> bool) -> PacketView {
    PacketView {
        answers: scrubbed(p.answers, private),
        authorities: scrubbed(p.authorities, private),
        resources: scrubbed(p.resources, private),
        ..p
    }
}

/// The number of records of a message that the filter takes out or changes.
pub open spec fn packet_acted_on(p: PacketView, private: spec_fn(IpAddr) -> bool) -> nat {
    acted_on(p.answers, private) + acted_on(p.authorities, private) + acted_on(
        p.resources,
        private,
    )
}

/// A filter of answers that come from outside.
pub struct RebindFilter {
    pub enabled: bool,
    pub ranges: CidrMatcher,
    pub range_strings: Vec<String>,
    pub allowlist: PersistedDomainList,
}

impl RebindFilter {
    /// Whether each range's prefix is no longer than an address.
    pub open spec fn wf(&self) -> bool {
        self.ranges.wf()
    }

    /// Whether the filter leaves the answers to a name alone.
    pub open spec fn leaves(&self, qname: Seq<char>) -> bool {
        !self.enabled || self.allowlist@.covers(qname)
    }

    /// A filter with these exceptions and ranges, or the default ranges where
    /// none are given. A message about the first range that stands for no network.
    pub fn new(enabled: bool, allowlist: PersistedDomainList, custom_ranges: &Vec<String>) -> (r:
        Result<Self, String>)
        ensures
            match r {
                Ok(f) => {
                    &&& f.wf()
                    &&& f.enabled == enabled
                    &&& f.allowlist@ == allowlist@
                    &&& texts(f.range_strings@) == (if custom_ranges@.len() == 0 {
                        default_ranges()
                    } else {
                        texts(custom_ranges@)
                    })
                    &&& nets_of(f.range_strings@, f.ranges.include_nets@)
                    &&& f.ranges.exclude_nets@.len() == 0
                },
                Err(m) => exists|v: Seq<String>, i: int|
                    texts(v) == (if custom_ranges@.len() == 0 {
                        default_ranges()
                    } else {
                        texts(custom_ranges@)
                    }) && #[trigger] first_bad(v, i) && m@ == bad_entry(
                        "rebind_private_ranges"@,
                        v[i]@,
                    ),
            },
    {
        let range_strings: Vec<String> = if custom_ranges.len() == 0 {
            default_range_list()
        } else {
            copy_texts(custom_ranges)
        };
        let none: Vec<String> = Vec::new();
        match CidrMatcher::from_entries(&range_strings, &none, "rebind_private_ranges") {
            Ok(ranges) => Ok(RebindFilter { enabled, ranges, range_strings, allowlist }),
            Err(m) => Err(m),
        }
    }

    /// Whether the filter is on.
    pub fn is_enabled(&self) -> (b: bool)
        ensures
            b == self.enabled,
    {
        self.enabled
    }

    /// Turns the filter on or off.
    pub fn set_enabled(&mut self, enabled: bool)
        ensures
            *final(self) == (RebindFilter { enabled, ..*old(self) }),
    {
        self.enabled = enabled;
    }

    /// The ranges in effect.
    pub fn ranges(&self) -> (v: &Vec<String>)
        ensures
            v@ == self.range_strings@,
    {
        &self.range_strings
    }

    /// The domains that the filter leaves alone, in order.
    pub fn allowlist(&self) -> (v: Vec<String>)
        ensures
            ascending(texts(v@)),
            texts(v@).to_set() == self.allowlist@.all(),
    {
        self.allowlist.entries()
    }

    /// Leaves a domain alone from now on, and says whether the entries to keep
    /// have changed.
    pub fn add_to_allowlist(&mut self, domain: &str) -> (changed: bool)
        ensures
            final(self).allowlist@ == old(self).allowlist@.with_user(domain@),
            changed <==> final(self).allowlist@.user != old(self).allowlist@.user,
            final(self).enabled == old(self).enabled,
            final(self).ranges == old(self).ranges,
            final(self).range_strings == old(self).range_strings,
    {
        self.allowlist.insert(domain)
    }

    /// No longer leaves a domain alone that was added while running, and says
    /// whether it was there.
    pub fn remove_from_allowlist(&mut self, domain: &str) -> (removed: bool)
        ensures
            final(self).allowlist@ == old(self).allowlist@.without_user(domain@),
            removed == old(self).allowlist@.user.contains(
                crate::domain_list::normalized(domain@),
            ),
            final(self).enabled == old(self).enabled,
            final(self).ranges == old(self).ranges,
            final(self).range_strings == old(self).range_strings,
    {
        self.allowlist.remove(domain)
    }

    /// Takes the private addresses out of a response, and counts the records
    /// that were taken out or changed.
    pub fn apply(&self, qname: &str, response: &mut DnsPacket) -> (n: usize)
        requires
            self.wf(),
        ensures
            self.leaves(qname@) ==> n == 0 && final(response)@ == old(response)@,
            !self.leaves(qname@) ==> n == at_most_max(
                packet_acted_on(old(response)@, within(&self.ranges)),
            ) && final(response)@ == scrubbed_packet(old(response)@, within(&self.ranges)),
            !self.leaves(qname@) && record_count(old(response)@) <= usize::MAX ==> n
                == packet_acted_on(old(response)@, within(&self.ranges)),
    {
        proof {
            few_are_acted_on(old(response)@, within(&self.ranges));
        }
        if !self.enabled || self.is_allowed(qname) {
            return 0;
        }
        let answers = take_records(&mut response.answers);
        let authorities = take_records(&mut response.authorities);
        let resources = take_records(&mut response.resources);
        let (answers, a) = scrub_section(answers, &self.ranges);
        let (authorities, b) = scrub_section(authorities, &self.ranges);
        let (resources, c) = scrub_section(resources, &self.ranges);
        response.answers = answers;
        response.authorities = authorities;
        response.resources = resources;
        a.saturating_add(b).saturating_add(c)
    }

    /// Whether a name is left alone by name.
    fn is_allowed(&self, qname: &str) -> (b: bool)
        ensures
            b == self.allowlist@.covers(qname@),
    {
        let empty = self.allowlist.is_empty();
        if empty {
            assert(!self.allowlist@.covers(qname@));
            return false;
        }
        self.allowlist.matches(qname)
    }
}

/// Takes records out of where they are.
fn take_records(v: &mut Vec<DnsRecord>) -> (r: Vec<DnsRecord>)
    ensures
        r@ == old(v)@,
        final(v)@.len() == 0,
{
    let mut r: Vec<DnsRecord> = Vec::new();
    std::mem::swap(&mut r, v);
    r
}

/// A record that the filter has cleaned gives it nothing more to do.
proof fn cleaned_record_is_clean(r: RecordView, private: spec_fn(IpAddr) -> bool)
    ensures
        cleaned(cleaned_record(r, private), private) is None,
        exposed(cleaned_record(r, private), private) == exposed(r, private),
{
    if let RdataView::Unknown { qtype, data } = r.data {
        if cleaned(r, private) is Some {
            strip_private_hints_once(data, private);
        }
    }
}

/// What the filter leaves, it leaves alone: there is nothing to take out or
/// change a second time.
pub proof fn scrub_once(recs: Seq<RecordView>, private: spec_fn(IpAddr) -> bool)
    ensures
        acted_on(scrubbed(recs, private), private) == 0,
        scrubbed(scrubbed(recs, private), private) == scrubbed(recs, private),
    decreases recs.len(),
{
    let out = scrubbed(recs, private);
    if recs.len() > 0 {
        scrub_once(recs.drop_last(), private);
        if !exposed(recs.last(), private) {
            let before = scrubbed(recs.drop_last(), private);
            cleaned_record_is_clean(recs.last(), private);
            assert(out.drop_last() =~= before);
        }
    }
}

/// Records without private addresses pass as they are.
pub proof fn public_records_pass(recs: Seq<RecordView>, private: spec_fn(IpAddr) -> bool)
    requires
        forall|i: int|
            0 <= i < recs.len() ==> !exposed(#[trigger] recs[i], private) && cleaned(
                recs[i],
                private,
            ) is None,
    ensures
        scrubbed(recs, private) == recs,
        acted_on(recs, private) == 0,
    decreases recs.len(),
{
    if recs.len() > 0 {
        let before = recs.drop_last();
        assert forall|i: int| 0 <= i < before.len() implies !exposed(#[trigger] before[i], private)
            && cleaned(before[i], private) is None by {
            assert(before[i] == recs[i]);
        }
        public_records_pass(before, private);
        assert(!exposed(recs[recs.len() - 1], private));
        assert(before.push(recs.last()) =~= recs);
    }
}

/// The number of records of a message.
pub open spec fn record_count(p: PacketView) -> nat {
    p.answers.len() + p.authorities.len() + p.resources.len()
}

proof fn few_of_section(recs: Seq<RecordView>, private: spec_fn(IpAddr) -> bool)
    ensures
        acted_on(recs, private) <= recs.len(),
    decreases recs.len(),
{
    if recs.len() > 0 {
        few_of_section(recs.drop_last(), private);
    }
}

proof fn few_are_acted_on(p: PacketView, private: spec_fn(IpAddr) -> bool)
    ensures
        packet_acted_on(p, private) <= record_count(p),
{
    few_of_section(p.answers, private);
    few_of_section(p.authorities, private);
    few_of_section(p.resources, private);
}

/// The records of a section that are no private addresses, in their order.
pub open spec fn unexposed(recs: Seq<RecordView>, private: spec_fn(IpAddr) -> bool) -> Seq<
    RecordView,
> {
    recs.filter(|r: RecordView| !exposed(r, private))
}

/// The filter keeps, in their order, exactly the records of a section that are no
/// private addresses. The data of SVCB and HTTPS records lose their private hints,
/// and the others stay as they are. It counts those that it takes out and those
/// that it changes.
pub proof fn section_keeps_the_rest(recs: Seq<RecordView>, private: spec_fn(IpAddr) -> bool)
    ensures
        scrubbed(recs, private) == unexposed(recs, private).map_values(
            |r: RecordView| cleaned_record(r, private),
        ),
        acted_on(recs, private) == (recs.len() - unexposed(recs, private).len()) + unexposed(
            recs,
            private,
        ).filter(|r: RecordView| cleaned(r, private) is Some).len(),
        forall|r: RecordView| #[trigger]
            cleaned_record(r, private) != r ==> (r.data matches RdataView::Unknown { qtype, .. } && (
            qtype == 64 || qtype == 65)),
    decreases recs.len(),
{
    reveal(Seq::filter);
    let keep = |r: RecordView| !exposed(r, private);
    let clean = |r: RecordView| cleaned_record(r, private);
    let changed = |r: RecordView| cleaned(r, private) is Some;
    let kept = unexposed(recs, private);
    if recs.len() > 0 {
        let before = recs.drop_last();
        section_keeps_the_rest(before, private);
        let some = unexposed(before, private);
        if keep(recs.last()) {
            assert(kept == some.push(recs.last()));
            assert(kept.drop_last() =~= some);
            assert(kept.map_values(clean) =~= some.map_values(clean).push(clean(recs.last())));
        } else {
            assert(kept == some);
        }
        assert(scrubbed(recs, private) =~= kept.map_values(clean));
    } else {
        assert(scrubbed(recs, private) =~= kept.map_values(clean));
    }
}

/// What the filter does to a message, it does to all three sections, and once is
/// enough: a second time it counts nothing and changes nothing. The count is exact
/// where the number of records is one that a count can hold.
pub proof fn filter_works_once(p: PacketView, private: spec_fn(IpAddr) -> bool)
    ensures
        record_count(p) <= usize::MAX ==> at_most_max(packet_acted_on(p, private))
            == packet_acted_on(p, private),
        packet_acted_on(scrubbed_packet(p, private), private) == 0,
        scrubbed_packet(scrubbed_packet(p, private), private) == scrubbed_packet(p, private),
{
    few_are_acted_on(p, private);
    scrub_once(p.answers, private);
    scrub_once(p.authorities, private);
    scrub_once(p.resources, private);
}

} // verus!
