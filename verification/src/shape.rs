//! The last pass over a response before it goes to a client, and its wire form.
use vstd::prelude::*;

use crate::buffer::{BytePacketBuffer, WireError, BUF_SIZE};
use crate::emit::Emission;
use crate::header::{DnsHeader, ResultCode};
use crate::packet::{
    default_edns, packet_emission, records, DnsPacket, EdnsOpt, EdnsView, PacketView,
};
use crate::question::QueryType;
use crate::record::{DnsRecord, RdataView, RecordView};
use crate::svcb::{edited_rdata, strip_ipv6hint, without_ipv6hint};

verus! {

/// Whether a record is of DNSSEC.
pub open spec fn of_dnssec(r: RecordView) -> bool {
    let t = r.data.qtype();
    t == QueryType::RRSIG || t == QueryType::DNSKEY || t == QueryType::DS || t == QueryType::NSEC
        || t == QueryType::NSEC3
}

/// Whether a record is of DNSSEC.
pub fn is_dnssec_record(r: &DnsRecord) -> (b: bool)
    ensures
        b == of_dnssec(r@),
{
    match r.query_type() {
        QueryType::RRSIG | QueryType::DNSKEY | QueryType::DS | QueryType::NSEC
        | QueryType::NSEC3 => true,
        _ => false,
    }
}

/// The records that are not of DNSSEC, in their order.
pub open spec fn plain_records(recs: Seq<RecordView>) -> Seq<RecordView>
    decreases recs.len(),
{
    if recs.len() == 0 {
        Seq::empty()
    } else if of_dnssec(recs.last()) {
        plain_records(recs.drop_last())
    } else {
        plain_records(recs.drop_last()).push(recs.last())
    }
}

/// A record without the IPv6 hint of an SVCB or HTTPS record.
pub open spec fn unhinted(r: RecordView) -> RecordView {
    match r.data {
        RdataView::Unknown { qtype, data } => if qtype == 64 || qtype == 65 {
            match edited_rdata(data, without_ipv6hint()) {
                Some(d) => RecordView { data: RdataView::Unknown { qtype, data: d }, ..r },
                None => r,
            }
        } else {
            r
        },
        _ => r,
    }
}

/// Records without the IPv6 hints of SVCB and HTTPS records.
pub open spec fn all_unhinted(recs: Seq<RecordView>) -> Seq<RecordView> {
    recs.map_values(|r: RecordView| unhinted(r))
}

/// The records that are not of DNSSEC.
fn keep_plain(recs: &Vec<DnsRecord>) -> (v: Vec<DnsRecord>)
    ensures
        records(v@) == plain_records(records(recs@)),
{
    let ghost all = records(recs@);
    let mut v: Vec<DnsRecord> = Vec::new();
    let mut i: usize = 0;
    assert(all.subrange(0, 0) =~= Seq::<RecordView>::empty());
    assert(records(v@) =~= Seq::<RecordView>::empty());
    while i < recs.len()
        invariant
            i <= recs.len(),
            all == records(recs@),
            records(v@) == plain_records(all.subrange(0, i as int)),
        decreases recs.len() - i,
    {
        proof {
            let more = all.subrange(0, i + 1);
            assert(more.drop_last() =~= all.subrange(0, i as int));
            assert(more.last() == recs@[i as int]@);
        }
        let ghost before = v@;
        if !is_dnssec_record(&recs[i]) {
            let one = recs[i].copy();
            v.push(one);
            assert(records(v@) =~= records(before).push(one@));
        }
        i += 1;
    }
    assert(all.subrange(0, all.len() as int) =~= all);
    v
}

/// A record without the IPv6 hint of an SVCB or HTTPS record.
fn unhint(r: &DnsRecord) -> (out: DnsRecord)
    ensures
        out@ == unhinted(r@),
{
    match r {
        DnsRecord::UNKNOWN { domain, qtype, data, ttl } => {
            if *qtype == 64 || *qtype == 65 {
                match strip_ipv6hint(data.as_slice()) {
                    Some(d) => {
                        return DnsRecord::UNKNOWN {
                            domain: domain.clone(),
                            qtype: *qtype,
                            data: d,
                            ttl: *ttl,
                        };
                    },
                    None => {},
                }
            }
        },
        _ => {},
    }
    r.copy()
}

/// Records without the IPv6 hints of SVCB and HTTPS records.
fn unhint_all(recs: &Vec<DnsRecord>) -> (v: Vec<DnsRecord>)
    ensures
        records(v@) == all_unhinted(records(recs@)),
{
    let mut v: Vec<DnsRecord> = Vec::new();
    let mut i: usize = 0;
    while i < recs.len()
        invariant
            i <= recs.len(),
            v@.len() == i,
            forall|j: int| 0 <= j < i ==> (#[trigger] v@[j])@ == unhinted(recs@[j]@),
        decreases recs.len() - i,
    {
        v.push(unhint(&recs[i]));
        i += 1;
    }
    assert(records(v@) =~= all_unhinted(records(recs@)));
    v
}

/// A message without records of DNSSEC.
pub open spec fn without_dnssec(p: PacketView) -> PacketView {
    PacketView {
        answers: plain_records(p.answers),
        authorities: plain_records(p.authorities),
        resources: plain_records(p.resources),
        ..p
    }
}

/// A message without IPv6 hints.
pub open spec fn without_hints(p: PacketView) -> PacketView {
    PacketView {
        answers: all_unhinted(p.answers),
        authorities: all_unhinted(p.authorities),
        resources: all_unhinted(p.resources),
        ..p
    }
}

/// Takes the records of DNSSEC out of a message.
pub fn strip_dnssec_records(pkt: &mut DnsPacket)
    ensures
        final(pkt)@ == without_dnssec(old(pkt)@),
{
    pkt.answers = keep_plain(&pkt.answers);
    pkt.authorities = keep_plain(&pkt.authorities);
    pkt.resources = keep_plain(&pkt.resources);
}

/// Takes the IPv6 hints out of the SVCB and HTTPS records of a message.
pub fn strip_svcb_ipv6_hints(pkt: &mut DnsPacket)
    ensures
        final(pkt)@ == without_hints(old(pkt)@),
{
    pkt.answers = unhint_all(&pkt.answers);
    pkt.authorities = unhint_all(&pkt.authorities);
    pkt.resources = unhint_all(&pkt.resources);
}

/// Whether a query asks for records of DNSSEC.
pub open spec fn wants_dnssec(query: PacketView) -> bool {
    query.edns matches Some(e) && e.do_bit
}

/// The options of EDNS in a response: none where the query has none; else those
/// of the response, or the server's own, with the wish for DNSSEC of the query.
pub open spec fn mirrored(response: Option<EdnsView>, query: PacketView) -> Option<EdnsView> {
    match query.edns {
        None => None,
        Some(_) => Some(
            EdnsView {
                do_bit: wants_dnssec(query),
                ..match response {
                    Some(e) => e,
                    None => default_edns(),
                }
            },
        ),
    }
}

/// A response as the client of a query is to see it: never authoritative, with
/// the options of EDNS mirrored, and without records of DNSSEC for a client
/// that did not ask for them, nor IPv6 hints where `filter_aaaa` hides IPv6.
pub open spec fn shaped(response: PacketView, query: PacketView, filter_aaaa: bool) -> PacketView {
    let stripped = if wants_dnssec(query) {
        response
    } else if filter_aaaa {
        without_hints(without_dnssec(response))
    } else {
        without_dnssec(response)
    };
    PacketView {
        header: DnsHeader { authoritative_answer: false, ..response.header },
        edns: mirrored(response.edns, query),
        ..stripped
    }
}

/// Makes a response what the client of a query is to see.
pub fn shape_response_for_client(response: &mut DnsPacket, query: &DnsPacket, filter_aaaa: bool)
    ensures
        final(response)@ == shaped(old(response)@, query@, filter_aaaa),
{
    let client_do = match &query.edns {
        Some(e) => e.do_bit,
        None => false,
    };
    response.header.authoritative_answer = false;
    if !client_do {
        strip_dnssec_records(response);
        if filter_aaaa {
            strip_svcb_ipv6_hints(response);
        }
    }
    let own = response.edns.take();
    response.edns = match &query.edns {
        None => None,
        Some(_) => {
            let mut e = match own {
                Some(e) => e,
                None => EdnsOpt::default(),
            };
            e.do_bit = client_do;
            Some(e)
        },
    };
}

/// The bytes of something that is written into an empty buffer, or the error.
pub open spec fn written(e: Emission) -> Result<Seq<u8>, WireError> {
    if e.bytes.len() > BUF_SIZE {
        Err(WireError::EndOfBuffer)
    } else {
        match e.error {
            Some(x) => Err(x),
            None => Ok(e.bytes),
        }
    }
}

/// Whether a buffer holds these bytes, or writing them failed with the error.
pub open spec fn holds_written(
    r: Result<BytePacketBuffer, WireError>,
    bytes: Result<Seq<u8>, WireError>,
) -> bool {
    match (r, bytes) {
        (Ok(b), Ok(s)) => b.pos <= BUF_SIZE && b.buf@.subrange(0, b.pos as int) == s,
        (Err(e), Err(x)) => e == x,
        _ => false,
    }
}

/// Writes a message into an empty buffer.
pub fn to_wire(p: &DnsPacket) -> (r: Result<BytePacketBuffer, WireError>)
    ensures
        holds_written(r, written(packet_emission(p@))),
{
    let mut out = BytePacketBuffer::new();
    match p.write(&mut out) {
        Ok(_) => {
            assert(out.buf@.subrange(0, out.pos as int) =~= packet_emission(p@).bytes);
            Ok(out)
        },
        Err(e) => Err(e),
    }
}

/// What stands in for a response that does not fit: its outcome, truncated.
pub open spec fn truncated(response: PacketView, query: PacketView, filter_aaaa: bool) -> PacketView {
    let p = DnsPacket::response_view(query, response.header.rescode);
    shaped(
        PacketView { header: DnsHeader { truncated_message: true, ..p.header }, ..p },
        query,
        filter_aaaa,
    )
}

/// What stands in for a response that cannot be written: a server failure.
pub open spec fn failed(query: PacketView, filter_aaaa: bool) -> PacketView {
    shaped(DnsPacket::response_view(query, ResultCode::SERVFAIL), query, filter_aaaa)
}

/// The wire form of a response. Where it does not fit, its outcome is sent
/// alone and truncated. Where it cannot be written, a server failure is sent,
/// and the response takes that outcome too.
pub fn serialize_with_fallback(
    response: &mut DnsPacket,
    query: &DnsPacket,
    filter_aaaa: bool,
) -> (r: Result<BytePacketBuffer, WireError>)
    ensures
        ({
            let e = packet_emission(old(response)@);
            if e.bytes.len() > BUF_SIZE {
                &&& final(response)@ == old(response)@
                &&& holds_written(
                    r,
                    written(packet_emission(truncated(old(response)@, query@, filter_aaaa))),
                )
            } else if e.error is Some {
                &&& final(response)@ == (PacketView {
                    header: DnsHeader {
                        rescode: ResultCode::SERVFAIL,
                        ..old(response)@.header
                    },
                    ..old(response)@
                })
                &&& holds_written(r, written(packet_emission(failed(query@, filter_aaaa))))
            } else {
                &&& final(response)@ == old(response)@
                &&& holds_written(r, Ok(e.bytes))
            }
        }),
{
    let mut buf = BytePacketBuffer::new();
    match response.write(&mut buf) {
        Ok(_) => {
            assert(buf.buf@.subrange(0, buf.pos as int) =~= packet_emission(response@).bytes);
            Ok(buf)
        },
        Err(_) => {
            if buf.overflowed() {
                let mut tc = DnsPacket::response_from(query, response.header.rescode);
                tc.header.truncated_message = true;
                shape_response_for_client(&mut tc, query, filter_aaaa);
                to_wire(&tc)
            } else {
                response.header.rescode = ResultCode::SERVFAIL;
                let mut servfail = DnsPacket::response_from(query, ResultCode::SERVFAIL);
                shape_response_for_client(&mut servfail, query, filter_aaaa);
                to_wire(&servfail)
            }
        },
    }
}

proof fn plain_records_again(recs: Seq<RecordView>)
    ensures
        plain_records(plain_records(recs)) == plain_records(recs),
    decreases recs.len(),
{
    if recs.len() > 0 {
        plain_records_again(recs.drop_last());
        if !of_dnssec(recs.last()) {
            let before = plain_records(recs.drop_last());
            assert(plain_records(recs).drop_last() =~= before);
        }
    }
}

proof fn unhinted_again(r: RecordView)
    ensures
        unhinted(unhinted(r)) == unhinted(r),
        of_dnssec(unhinted(r)) == of_dnssec(r),
{
    if let RdataView::Unknown { qtype, data } = r.data {
        if (qtype == 64 || qtype == 65) && edited_rdata(data, without_ipv6hint()) is Some {
            crate::svcb::strip_ipv6hint_once(data);
        }
    }
}

proof fn section_shaped_again(recs: Seq<RecordView>)
    ensures
        all_unhinted(plain_records(all_unhinted(plain_records(recs)))) == all_unhinted(
            plain_records(recs),
        ),
{
    let p = plain_records(recs);
    let u = all_unhinted(p);
    plain_records_again(recs);
    unhinted_keeps_plain(p);
    assert(plain_records(u) == u);
    assert forall|i: int| 0 <= i < u.len() implies all_unhinted(u)[i] == u[i] by {
        unhinted_again(p[i]);
    }
    assert(all_unhinted(u) =~= u);
}

proof fn unhinted_keeps_plain(p: Seq<RecordView>)
    requires
        plain_records(p) == p,
    ensures
        plain_records(all_unhinted(p)) == all_unhinted(p),
    decreases p.len(),
{
    let u = all_unhinted(p);
    if p.len() > 0 {
        plain_len(p.drop_last());
        assert(!of_dnssec(p.last())) by {
            if of_dnssec(p.last()) {
                assert(plain_records(p).len() <= p.len() - 1);
            }
        }
        assert(plain_records(p.drop_last()) =~= p.drop_last()) by {
            assert(plain_records(p).drop_last() =~= plain_records(p.drop_last()));
        }
        unhinted_keeps_plain(p.drop_last());
        assert(u.drop_last() =~= all_unhinted(p.drop_last()));
        unhinted_again(p.last());
        assert(u.last() == unhinted(p.last()));
        assert(plain_records(u) =~= u);
    } else {
        assert(u =~= p);
    }
}

proof fn plain_len(recs: Seq<RecordView>)
    ensures
        plain_records(recs).len() <= recs.len(),
    decreases recs.len(),
{
    if recs.len() > 0 {
        plain_len(recs.drop_last());
    }
}

/// A response that was made what a client is to see is that: shaping it again
/// changes nothing.
pub proof fn shape_once(response: PacketView, query: PacketView, filter_aaaa: bool)
    ensures
        shaped(shaped(response, query, filter_aaaa), query, filter_aaaa) == shaped(
            response,
            query,
            filter_aaaa,
        ),
{
    if !wants_dnssec(query) {
        plain_records_again(response.answers);
        plain_records_again(response.authorities);
        plain_records_again(response.resources);
        if filter_aaaa {
            section_shaped_again(response.answers);
            section_shaped_again(response.authorities);
            section_shaped_again(response.resources);
        }
    }
}

/// A client that did not ask for records of DNSSEC gets none.
pub proof fn no_dnssec_unasked(recs: Seq<RecordView>)
    ensures
        forall|i: int| 0 <= i < plain_records(recs).len() ==> !of_dnssec(
            #[trigger] plain_records(recs)[i],
        ),
    decreases recs.len(),
{
    if recs.len() > 0 {
        no_dnssec_unasked(recs.drop_last());
        let before = plain_records(recs.drop_last());
        let all = plain_records(recs);
        assert forall|i: int| 0 <= i < all.len() implies !of_dnssec(#[trigger] all[i]) by {
            if i < before.len() {
                assert(all[i] == before[i]);
            }
        }
    }
}

proof fn plain_records_are_kept(recs: Seq<RecordView>, keep: spec_fn(RecordView) -> bool)
    requires
        forall|r: RecordView| #[trigger]
            keep(r) <==> !(r.data is Rrsig || r.data is Dnskey || r.data is Ds || r.data is Nsec
                || r.data is Nsec3),
    ensures
        plain_records(recs) == recs.filter(keep),
    decreases recs.len(),
{
    reveal(Seq::filter);
    if recs.len() > 0 {
        plain_records_are_kept(recs.drop_last(), keep);
        assert(of_dnssec(recs.last()) == !keep(recs.last()));
    }
    assert(plain_records(recs) =~= recs.filter(keep));
}

/// A client that did not ask for DNSSEC gets every record of a response but the
/// signatures, keys, delegation digests and denials, each section in its order.
/// Where IPv6 answers are filtered too, the records are those same ones, with
/// nothing changed but the data of service bindings.
pub proof fn only_dnssec_is_stripped(
    response: PacketView,
    query: PacketView,
    keep: spec_fn(RecordView) -> bool,
)
    requires
        forall|r: RecordView| #[trigger]
            keep(r) <==> !(r.data is Rrsig || r.data is Dnskey || r.data is Ds || r.data is Nsec
                || r.data is Nsec3),
        query.edns is None || !query.edns->0.do_bit,
    ensures
        shaped(response, query, false).answers == response.answers.filter(keep),
        shaped(response, query, false).authorities == response.authorities.filter(keep),
        shaped(response, query, false).resources == response.resources.filter(keep),
        hints_alone_differ(shaped(response, query, true).answers, response.answers.filter(keep)),
        hints_alone_differ(
            shaped(response, query, true).authorities,
            response.authorities.filter(keep),
        ),
        hints_alone_differ(
            shaped(response, query, true).resources,
            response.resources.filter(keep),
        ),
{
    plain_records_are_kept(response.answers, keep);
    plain_records_are_kept(response.authorities, keep);
    plain_records_are_kept(response.resources, keep);
}

/// Whether two runs of records are the same but for the data of service bindings
/// (the types 64 and 65).
pub open spec fn hints_alone_differ(a: Seq<RecordView>, b: Seq<RecordView>) -> bool {
    &&& a.len() == b.len()
    &&& forall|i: int|
        0 <= i < a.len() ==> {
            &&& (#[trigger] a[i]).domain == b[i].domain
            &&& a[i].ttl == b[i].ttl
            &&& match b[i].data {
                RdataView::Unknown { qtype, data } => a[i].data matches RdataView::Unknown {
                    qtype: t,
                    data: e,
                } && t == qtype && (qtype != 64 && qtype != 65 ==> e == data),
                other => a[i].data == other,
            }
        }
}

/// A client that asked for DNSSEC gets every section as it came, filtered for
/// IPv6 or not.
pub proof fn dnssec_is_handed_on(response: PacketView, query: PacketView, filter_aaaa: bool)
    requires
        query.edns is Some && query.edns->0.do_bit,
    ensures
        shaped(response, query, filter_aaaa).answers == response.answers,
        shaped(response, query, filter_aaaa).authorities == response.authorities,
        shaped(response, query, filter_aaaa).resources == response.resources,
        shaped(response, query, filter_aaaa).edns is Some,
        shaped(response, query, filter_aaaa).edns->0.do_bit,
{
}

/// A response goes out under the header it came with, but never as authoritative,
/// with its questions. It has an OPT record where the query has one, with the DO
/// bit of the query; what else the record says is what the response said, or
/// else a payload of 1232 bytes and nothing more.
pub proof fn outer_form_of_a_response(response: PacketView, query: PacketView, filter_aaaa: bool)
    ensures
        ({
            let p = shaped(response, query, filter_aaaa);
            &&& p.questions == response.questions
            &&& p.header.id == response.header.id
            &&& p.header.recursion_desired == response.header.recursion_desired
            &&& p.header.truncated_message == response.header.truncated_message
            &&& !p.header.authoritative_answer
            &&& p.header.opcode == response.header.opcode
            &&& p.header.response == response.header.response
            &&& p.header.rescode == response.header.rescode
            &&& p.header.checking_disabled == response.header.checking_disabled
            &&& p.header.authed_data == response.header.authed_data
            &&& p.header.z == response.header.z
            &&& p.header.recursion_available == response.header.recursion_available
            &&& p.edns is Some <==> query.edns is Some
            &&& query.edns is Some ==> {
                &&& p.edns->0.do_bit == query.edns->0.do_bit
                &&& response.edns is Some ==> {
                    &&& p.edns->0.udp_payload_size == response.edns->0.udp_payload_size
                    &&& p.edns->0.extended_rcode == response.edns->0.extended_rcode
                    &&& p.edns->0.version == response.edns->0.version
                    &&& p.edns->0.options == response.edns->0.options
                }
                &&& response.edns is None ==> {
                    &&& p.edns->0.udp_payload_size == 1232
                    &&& p.edns->0.extended_rcode == 0
                    &&& p.edns->0.version == 0
                    &&& p.edns->0.options.len() == 0
                }
            }
        }),
{
}

/// A response that is too long is cut to an answer to the same query with the
/// same outcome: the truncation bit is set, and every section is empty. One that
/// cannot be written becomes a server failure without records.
pub proof fn cut_response_is_empty(response: PacketView, query: PacketView, filter_aaaa: bool)
    ensures
        ({
            let t = truncated(response, query, filter_aaaa);
            let f = failed(query, filter_aaaa);
            &&& t.header.truncated_message
            &&& !f.header.truncated_message
            &&& t.header.rescode == response.header.rescode
            &&& f.header.rescode is SERVFAIL
            &&& forall|p: PacketView|
                p == t || p == f ==> {
                    &&& (#[trigger] p.header).id == query.header.id
                    &&& p.header.response
                    &&& p.header.recursion_available
                    &&& p.header.recursion_desired == query.header.recursion_desired
                    &&& !p.header.authed_data
                    &&& p.questions == query.questions
                    &&& p.answers.len() == 0
                    &&& p.authorities.len() == 0
                    &&& p.resources.len() == 0
                    &&& p.edns is Some <==> query.edns is Some
                }
        }),
{
}

/// Where IPv6 is filtered for a client that did not ask for DNSSEC, each record
/// of a service binding has its data without the hints of IPv6 addresses, where
/// it has such hints, and every record else is as it came.
pub proof fn only_ipv6_hints_are_filtered(recs: Seq<RecordView>, i: int)
    requires
        0 <= i < recs.len(),
    ensures
        all_unhinted(recs).len() == recs.len(),
        all_unhinted(recs)[i].domain == recs[i].domain,
        all_unhinted(recs)[i].ttl == recs[i].ttl,
        match recs[i].data {
            RdataView::Unknown { qtype, data } => if (qtype == 64 || qtype == 65) && edited_rdata(
                data,
                without_ipv6hint(),
            ) is Some {
                all_unhinted(recs)[i].data == (RdataView::Unknown {
                    qtype,
                    data: edited_rdata(data, without_ipv6hint())->0,
                })
            } else {
                all_unhinted(recs)[i].data == recs[i].data
            },
            _ => all_unhinted(recs)[i].data == recs[i].data,
        },
{
}

/// With the filter for IPv6 the sections of a response are those without it,
/// less the hints of IPv6 addresses.
pub proof fn filter_takes_hints_from_each_section(response: PacketView, query: PacketView)
    requires
        query.edns is None || !query.edns->0.do_bit,
    ensures
        shaped(response, query, true).answers == all_unhinted(
            shaped(response, query, false).answers,
        ),
        shaped(response, query, true).authorities == all_unhinted(
            shaped(response, query, false).authorities,
        ),
        shaped(response, query, true).resources == all_unhinted(
            shaped(response, query, false).resources,
        ),
{
}

} // verus!
