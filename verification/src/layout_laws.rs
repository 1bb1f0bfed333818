//! What messages look like byte by byte: where each number, name and record
//! stands in them.
use vstd::prelude::*;
use vstd::utf8::encode_utf8;

use crate::buffer::{at16, at32, be16, be32, splice, WireError, BUF_SIZE};
use crate::emit::{after, in_turn, named, plain, Emission};
use crate::header::{DnsHeader, ResultCode};
use crate::name::{
    label_at, label_at_advances, label_text, labels_from, labels_of, labels_ok, name_at, name_wire,
    unescaped, wire_of, written_name_is_labels,
};
use crate::net::{Ipv4Addr, Ipv6Addr};
use crate::packet::{
    edns_emission, edns_flags, packet_emission, packet_parts, packet_parts_are, question_emission,
    questions_at, records_at, EdnsView, PacketView, QuestionView,
};
use crate::packet_laws::{head_stands, head_words_are};
use crate::question::QueryType;
use crate::record::{
    be128, counted, head_parts, rdata_parts, rdata_reading, record_emission, RdataView, RecordView,
};
use crate::record_laws::{
    holds, holds16, holds32, holds_part, offset, part_in_row, row_clean,
};
use crate::wire::{answer_ttls, name_skip, questions_skip, ttls_at};

verus! {

// ---------------------------------------------------------------------------
// Numbers
// ---------------------------------------------------------------------------

/// Numbers are written with their high byte first, and read so.
pub proof fn high_byte_first(a: u8, b: u8, c: u8, d: u8)
    ensures
        be16((a * 0x100 + b) as u16) == seq![a, b],
        be32((a * 0x100_0000 + b * 0x1_0000 + c * 0x100 + d) as u32) == seq![a, b, c, d],
        at16(seq![a, b], 0) == a * 0x100 + b,
        at32(seq![a, b, c, d], 0) == a * 0x100_0000 + b * 0x1_0000 + c * 0x100 + d,
{
    let n: int = a * 0x100_0000 + b * 0x1_0000 + c * 0x100 + d;
    let two: int = a * 0x100 + b;
    let three: int = two * 0x100 + c;
    assert(n == three * 0x100 + d);
    assert(n == two * 0x1_0000 + (c * 0x100 + d));
    assert(0 <= n < 0x1_0000_0000);
    assert(n / 0x100 == three && n % 0x100 == d);
    assert(three % 0x100 == c);
    assert(n / 0x1_0000 == two);
    assert(two % 0x100 == b && two / 0x100 == a);
    assert(n / 0x100_0000 == a);
    assert(be16(two as u16) =~= seq![a, b]);
    assert(be32(n as u32) =~= seq![a, b, c, d]);
}

/// The numbers of the record types.
pub proof fn numbers_of_types()
    ensures
        QueryType::A.num() == 1,
        QueryType::NS.num() == 2,
        QueryType::CNAME.num() == 5,
        QueryType::SOA.num() == 6,
        QueryType::PTR.num() == 12,
        QueryType::MX.num() == 15,
        QueryType::TXT.num() == 16,
        QueryType::AAAA.num() == 28,
        QueryType::SRV.num() == 33,
        QueryType::DS.num() == 43,
        QueryType::RRSIG.num() == 46,
        QueryType::NSEC.num() == 47,
        QueryType::DNSKEY.num() == 48,
        QueryType::NSEC3.num() == 50,
        QueryType::SVCB.num() == 64,
        QueryType::HTTPS.num() == 65,
        forall|n: u16| #[trigger] QueryType::UNKNOWN(n).num() == n,
{
}

/// A record is of the type of its data.
pub proof fn type_of_data(d: RdataView)
    ensures
        d is A <==> d.qtype() is A,
        d is Aaaa <==> d.qtype() is AAAA,
        d is Cname <==> d.qtype() is CNAME,
        d is Ns <==> d.qtype() is NS,
        d is Ptr <==> d.qtype() is PTR,
        d is Mx <==> d.qtype() is MX,
        d is Soa <==> d.qtype() is SOA,
        d is Ds <==> d.qtype() is DS,
        d is Dnskey <==> d.qtype() is DNSKEY,
        d is Rrsig <==> d.qtype() is RRSIG,
        d is Nsec <==> d.qtype() is NSEC,
        d is Nsec3 <==> d.qtype() is NSEC3,
        d matches RdataView::Unknown { qtype, .. } ==> d.qtype() == QueryType::UNKNOWN(qtype),
{
}

/// The numbers of the outcomes. A number that is none of them reads as success.
pub proof fn numbers_of_outcomes(n: u8)
    ensures
        ResultCode::NOERROR.num() == 0,
        ResultCode::FORMERR.num() == 1,
        ResultCode::SERVFAIL.num() == 2,
        ResultCode::NXDOMAIN.num() == 3,
        ResultCode::NOTIMP.num() == 4,
        ResultCode::REFUSED.num() == 5,
        n <= 5 ==> ResultCode::of_num(n).num() == n,
        n > 5 ==> ResultCode::of_num(n) is NOERROR,
{
}

// ---------------------------------------------------------------------------
// The header
// ---------------------------------------------------------------------------

/// A flag as it counts in its place.
pub open spec fn worth(flag: bool, value: int) -> int {
    if flag {
        value
    } else {
        0
    }
}

/// The flags of a header, from the highest bit down: response, operation,
/// authoritative, truncated, recursion desired; recursion available, reserved,
/// authentic data, checking disabled, outcome.
pub proof fn flags_of_a_header(h: DnsHeader)
    ensures
        h.flags() == worth(h.response, 0x8000) + (h.opcode as int % 16) * 0x800 + worth(
            h.authoritative_answer,
            0x400,
        ) + worth(h.truncated_message, 0x200) + worth(h.recursion_desired, 0x100) + worth(
            h.recursion_available,
            0x80,
        ) + worth(h.z, 0x40) + worth(h.authed_data, 0x20) + worth(h.checking_disabled, 0x10)
            + h.rescode.num(),
{
    reveal(DnsHeader::flags);
    reveal(crate::header::bit);
}

/// A message starts with its id, its flags and the number of records in each
/// section; an OPT record counts with the last one.
pub proof fn message_starts_with_its_header(p: PacketView, buf: Seq<u8>)
    requires
        packet_emission(p).error is None,
        packet_emission(p).bytes.len() <= BUF_SIZE,
        holds(buf, 0, packet_emission(p).bytes),
    ensures
        buf[0] * 0x100 + buf[1] == p.header.id,
        buf[2] * 0x100 + buf[3] == p.header.flags(),
        buf[4] * 0x100 + buf[5] == p.questions.len(),
        buf[6] * 0x100 + buf[7] == p.answers.len(),
        buf[8] * 0x100 + buf[9] == p.authorities.len(),
        buf[10] * 0x100 + buf[11] == p.resources.len() + worth(p.edns is Some, 1),
{
    head_stands(p, buf);
    head_words_are(p);
    crate::header::flags_fit(p.header);
    assert(at16(buf, 0) == buf[0] * 0x100 + buf[1]);
    assert(at16(buf, 2) == buf[2] * 0x100 + buf[3]);
    assert(at16(buf, 4) == buf[4] * 0x100 + buf[5]);
    assert(at16(buf, 6) == buf[6] * 0x100 + buf[7]);
    assert(at16(buf, 8) == buf[8] * 0x100 + buf[9]);
    assert(at16(buf, 10) == buf[10] * 0x100 + buf[11]);
}

// ---------------------------------------------------------------------------
// Names
// ---------------------------------------------------------------------------

proof fn unescaped_behind(front: Seq<u8>, s: Seq<u8>, i: int)
    requires
        0 <= i < s.len(),
    ensures
        unescaped(front + s, front.len() + i) == (match unescaped(s, i) {
            Ok((b, next)) => Ok::<(u8, int), WireError>((b, front.len() + next)),
            Err(e) => Err(e),
        }),
{
    let t = front + s;
    let n = front.len() as int;
    assert(t[n + i] == s[i]);
    assert(i + 1 < s.len() ==> t[n + i + 1] == s[i + 1]);
    assert(i + 2 < s.len() ==> t[n + i + 2] == s[i + 2]);
    assert(i + 3 < s.len() ==> t[n + i + 3] == s[i + 3]);
}

proof fn label_behind(front: Seq<u8>, s: Seq<u8>, i: int, body: Seq<u8>)
    requires
        0 <= i <= s.len(),
    ensures
        ({
            let (b, next, err) = label_at(s, i, body);
            label_at(front + s, front.len() + i, body) == (b, front.len() + next, err)
        }),
    decreases s.len() - i,
{
    if i < s.len() {
        let t = front + s;
        assert(t[front.len() + i] == s[i]);
        if s[i] != 46 {
            unescaped_behind(front, s, i);
            if let Ok((b, next)) = unescaped(s, i) {
                if body.len() + 1 <= 63 {
                    label_behind(front, s, next, body.push(b));
                }
            }
        }
    }
}

proof fn labels_behind(front: Seq<u8>, s: Seq<u8>, i: int)
    requires
        0 <= i <= s.len(),
    ensures
        labels_from(front + s, front.len() + i) == labels_from(s, i),
    decreases s.len() - i,
{
    if i < s.len() {
        let t = front + s;
        assert(t[front.len() + i] == s[i]);
        if s[i] == 46 {
            labels_behind(front, s, i + 1);
        } else {
            label_behind(front, s, i, Seq::empty());
            label_at_advances(s, i, Seq::empty());
            let (body, next, err) = label_at(s, i, Seq::<u8>::empty());
            if err is None {
                labels_behind(front, s, next);
            }
        }
    }
}

proof fn plain_label_is_taken(s: Seq<u8>, label: Seq<u8>, i: int)
    requires
        0 <= i <= label.len() <= 63,
        label.len() <= s.len(),
        s.subrange(0, label.len() as int) == label,
        s.len() == label.len() || s[label.len() as int] == 46,
        forall|k: int| 0 <= k < label.len() ==> #[trigger] label[k] != 46 && label[k] != 92,
    ensures
        label_at(s, i, label.subrange(0, i)) == (label, label.len() as int, None::<WireError>),
    decreases label.len() - i,
{
    if i < label.len() {
        assert(s[i] == s.subrange(0, label.len() as int)[i]);
        assert(label[i] != 46);
        assert(label.subrange(0, i).push(label[i]) =~= label.subrange(0, i + 1));
        plain_label_is_taken(s, label, i + 1);
    } else {
        assert(label.subrange(0, i) =~= label);
    }
}

/// A name is written label by label, each behind its length, and ends with a
/// length of zero. A label of 1 to 63 bytes that are neither dots nor
/// backslashes is written as it is, and a dot parts it from the next. Dots at
/// the start count for nothing.
pub proof fn names_are_written_by_label(label: Seq<u8>, rest: Seq<u8>)
    requires
        1 <= label.len() <= 63,
        forall|k: int| 0 <= k < label.len() ==> #[trigger] label[k] != 46 && label[k] != 92,
    ensures
        name_wire(Seq::empty()) == (seq![0u8], None::<WireError>),
        name_wire(label) == (seq![label.len() as u8] + label + seq![0u8], None::<WireError>),
        name_wire(label + seq![46u8] + rest) == (
            seq![label.len() as u8] + label + name_wire(rest).0,
            name_wire(rest).1,
        ),
        name_wire(seq![46u8] + rest) == name_wire(rest),
{
    assert(label[0] != 46);
    let e = Seq::<u8>::empty();
    assert(label.subrange(0, 0) =~= e);
    assert(label.subrange(0, label.len() as int) =~= label);
    plain_label_is_taken(label, label, 0);
    assert(labels_from(label, label.len() as int) == (seq![0u8], None::<WireError>));
    let s = label + seq![46u8] + rest;
    assert(s.subrange(0, label.len() as int) =~= label);
    assert(s[label.len() as int] == 46);
    assert(s[0] == label[0]);
    plain_label_is_taken(s, label, 0);
    let front = label + seq![46u8];
    assert(s =~= front + rest);
    labels_behind(front, rest, 0);
    assert(labels_from(s, label.len() as int) == labels_from(s, label.len() as int + 1));
    let d = seq![46u8] + rest;
    labels_behind(seq![46u8], rest, 0);
    assert(d[0] == 46);
}

/// A label that is longer than 63 bytes is refused, wherever it stands.
pub proof fn long_labels_are_refused(label: Seq<u8>, rest: Seq<u8>)
    requires
        label.len() > 63,
        forall|k: int| 0 <= k < label.len() ==> #[trigger] label[k] != 46 && label[k] != 92,
    ensures
        name_wire(label + rest).1 == Some(WireError::LabelTooLong),
{
    let s = label + rest;
    assert(label[0] != 46);
    assert(s[0] == label[0]);
    assert(label.subrange(0, 0) =~= Seq::<u8>::empty());
    assert(s.subrange(0, label.len() as int) =~= label);
    label_is_too_long(s, label, 0);
}

proof fn label_is_too_long(s: Seq<u8>, label: Seq<u8>, i: int)
    requires
        0 <= i <= 63 < label.len(),
        label.len() <= s.len(),
        s.subrange(0, label.len() as int) == label,
        forall|k: int| 0 <= k < label.len() ==> #[trigger] label[k] != 46 && label[k] != 92,
    ensures
        label_at(s, i, label.subrange(0, i)).2 == Some(WireError::LabelTooLong),
    decreases 63 - i,
{
    assert(s[i] == s.subrange(0, label.len() as int)[i]);
    assert(label[i] != 46);
    if i < 63 {
        assert(label.subrange(0, i).push(label[i]) =~= label.subrange(0, i + 1));
        label_is_too_long(s, label, i + 1);
    }
}

/// In the text of a label each byte stands for itself, letters in lower case. A
/// dot and a backslash stand behind a backslash, and what cannot be shown as
/// three digits behind one.
pub proof fn bytes_of_a_label_in_text(a: Seq<u8>, b: Seq<u8>, c: u8)
    ensures
        label_text(a + b) == label_text(a) + label_text(b),
        c == 46 ==> label_text(seq![c]) == seq!['\\', '.'],
        c == 92 ==> label_text(seq![c]) == seq!['\\', '\\'],
        65 <= c <= 90 ==> label_text(seq![c]) == seq![((c + 32) as u8) as char],
        0x21 <= c <= 0x7e && c != 46 && c != 92 && !(65 <= c <= 90) ==> label_text(seq![c]) == seq![
            c as char,
        ],
        c <= 0x20 || c > 0x7e ==> label_text(seq![c]) == seq![
            '\\',
            ((48 + c / 100) as u8) as char,
            ((48 + c / 10 % 10) as u8) as char,
            ((48 + c % 10) as u8) as char,
        ],
    decreases b.len(),
{
    let one = seq![c];
    assert(one.drop_last() =~= Seq::<u8>::empty());
    assert(label_text(one.drop_last()) == Seq::<char>::empty());
    assert(label_text(one) =~= crate::name::escaped(c));
    if b.len() == 0 {
        assert(a + b =~= a);
        assert(label_text(a) + label_text(b) =~= label_text(a));
    } else {
        let s = a + b;
        assert(s.drop_last() =~= a + b.drop_last());
        assert(s.last() == b.last());
        bytes_of_a_label_in_text(a, b.drop_last(), c);
        assert(label_text(s) =~= label_text(a) + label_text(b));
    }
}

/// A name is read label by label, with a dot before each but the first. A length
/// of 192 or more leads on to where the rest stands, at most five times.
pub proof fn names_are_read_by_label(buf: Seq<u8>, pos: int, jumps: int, first: bool)
    requires
        buf.len() == BUF_SIZE,
        0 <= pos < BUF_SIZE - 64,
        0 <= jumps <= 5,
    ensures
        buf[pos] == 0 ==> name_at(buf, pos, jumps, first) == (
            Seq::<char>::empty(),
            None::<WireError>,
        ),
        1 <= buf[pos] <= 63 ==> name_at(buf, pos, jumps, first) == (
            (if first {
                Seq::<char>::empty()
            } else {
                seq!['.']
            }) + label_text(buf.subrange(pos + 1, pos + 1 + buf[pos])) + name_at(
                buf,
                pos + 1 + buf[pos],
                jumps,
                false,
            ).0,
            name_at(buf, pos + 1 + buf[pos], jumps, false).1,
        ),
        64 <= buf[pos] <= 191 ==> name_at(buf, pos, jumps, first).1 == Some(
            WireError::ReservedLabel(buf[pos]),
        ),
        buf[pos] >= 192 && jumps < 5 ==> name_at(buf, pos, jumps, first) == name_at(
            buf,
            (buf[pos] - 192) * 0x100 + buf[pos + 1],
            jumps + 1,
            first,
        ),
        buf[pos] >= 192 && jumps == 5 ==> name_at(buf, pos, jumps, first).1 == Some(
            WireError::JumpLimit,
        ),
{
    let on = (buf[pos] - 192) * 0x100 + buf[pos + 1];
    assert(name_at(buf, on, 6, first).1 == Some(WireError::JumpLimit));
}

// ---------------------------------------------------------------------------
// Questions and records
// ---------------------------------------------------------------------------

proof fn row_of_three(a: Emission, b: Emission, c: Emission)
    ensures
        in_turn(seq![a]) == after(plain(Seq::empty()), a),
        in_turn(seq![a, b]) == after(in_turn(seq![a]), b),
        in_turn(seq![a, b, c]) == after(in_turn(seq![a, b]), c),
{
    assert(seq![a].drop_last() =~= Seq::<Emission>::empty());
    assert(in_turn(Seq::<Emission>::empty()) == plain(Seq::empty()));
    assert(seq![a, b].drop_last() =~= seq![a]);
    assert(seq![a, b, c].drop_last() =~= seq![a, b]);
}

/// A question is its name, its type and the class of the Internet.
pub proof fn bytes_of_a_question(q: QuestionView)
    requires
        named(q.name).error is None,
    ensures
        question_emission(q).error is None,
        question_emission(q).bytes == named(q.name).bytes + be16(q.qtype.num()) + seq![0u8, 1u8],
{
    row_of_three(named(q.name), plain(be16(q.qtype.num())), plain(be16(1)));
    assert(be16(1) =~= seq![0u8, 1u8]);
    assert(Seq::<u8>::empty() + named(q.name).bytes =~= named(q.name).bytes);
}

/// An OPT record is the root name, its type 41, the payload size, and the fields
/// that stand in place of a time to live: the high part of the outcome, the
/// version, and the DO bit at the top of the rest.
pub proof fn bytes_of_an_opt_record(e: EdnsView)
    requires
        e.options.len() <= 65535,
    ensures
        edns_emission(e).error is None,
        edns_emission(e).bytes == seq![0u8, 0u8, 41u8] + be16(e.udp_payload_size) + seq![
            e.extended_rcode,
            e.version,
            if e.do_bit {
                0x80u8
            } else {
                0u8
            },
            0u8,
        ] + be16(e.options.len() as u16) + e.options,
{
    let d: u8 = if e.do_bit {
        0x80u8
    } else {
        0u8
    };
    high_byte_first(e.extended_rcode, e.version, d, 0);
    let f = edns_flags(e);
    assert(f == (e.extended_rcode * 0x100_0000 + e.version * 0x1_0000 + d * 0x100 + 0) as u32);
    let a = plain(seq![0u8]);
    let b = plain(be16(41));
    let c = plain(be16(e.udp_payload_size));
    let g = plain(be32(f));
    let h = plain(be16((e.options.len() % 65536) as u16));
    let i = plain(e.options);
    row_of_three(a, b, c);
    assert(seq![a, b, c, g].drop_last() =~= seq![a, b, c]);
    assert(seq![a, b, c, g, h].drop_last() =~= seq![a, b, c, g]);
    assert(seq![a, b, c, g, h, i].drop_last() =~= seq![a, b, c, g, h]);
    assert(in_turn(seq![a, b, c, g]) == after(in_turn(seq![a, b, c]), g));
    assert(in_turn(seq![a, b, c, g, h]) == after(in_turn(seq![a, b, c, g]), h));
    assert(in_turn(seq![a, b, c, g, h, i]) == after(in_turn(seq![a, b, c, g, h]), i));
    assert(be16(41) =~= seq![0u8, 41u8]);
    assert(edns_emission(e).bytes =~= seq![0u8, 0u8, 41u8] + be16(e.udp_payload_size) + seq![
        e.extended_rcode,
        e.version,
        d,
        0u8,
    ] + be16(e.options.len() as u16) + e.options);
}

/// A record is its name, its type, the class of the Internet, its time to live,
/// the length of its data, and its data.
pub proof fn bytes_of_a_record(r: RecordView)
    requires
        named(r.domain).error is None,
        in_turn(rdata_parts(r.data)).error is None,
        in_turn(rdata_parts(r.data)).bytes.len() <= 65535,
    ensures
        record_emission(r).error is None,
        record_emission(r).bytes == named(r.domain).bytes + be16(r.data.qtype().num()) + seq![
            0u8,
            1u8,
        ] + be32(r.ttl) + be16(in_turn(rdata_parts(r.data)).bytes.len() as u16) + in_turn(
            rdata_parts(r.data),
        ).bytes,
{
    let a = named(r.domain);
    let b = plain(be16(r.data.qtype().num()));
    let c = plain(be16(1));
    let d = plain(be32(r.ttl));
    row_of_three(a, b, c);
    assert(seq![a, b, c, d].drop_last() =~= seq![a, b, c]);
    assert(in_turn(seq![a, b, c, d]) == after(in_turn(seq![a, b, c]), d));
    assert(head_parts(r.domain, r.data.qtype().num(), r.ttl) =~= seq![a, b, c, d]);
    assert(be16(1) =~= seq![0u8, 1u8]);
    let data = in_turn(rdata_parts(r.data));
    assert(record_emission(r).bytes =~= a.bytes + be16(r.data.qtype().num()) + seq![0u8, 1u8]
        + be32(r.ttl) + be16(data.bytes.len() as u16) + data.bytes);
}

/// The data of an address record is the address, and data that is not known is
/// its bytes.
pub proof fn data_of_addresses(v4: Ipv4Addr, v6: Ipv6Addr, qtype: u16, data: Seq<u8>)
    ensures
        in_turn(rdata_parts(RdataView::A { addr: v4 })) == plain(be32(v4.bits)),
        in_turn(rdata_parts(RdataView::Aaaa { addr: v6 })) == plain(be128(v6.bits)),
        in_turn(rdata_parts(RdataView::Unknown { qtype, data })) == plain(data),
{
    reveal(rdata_parts);
    row_of_one(plain(be32(v4.bits)));
    row_of_one(plain(be128(v6.bits)));
    row_of_one(plain(data));
    assert(rdata_parts(RdataView::A { addr: v4 }) == seq![plain(be32(v4.bits))]);
    assert(rdata_parts(RdataView::Aaaa { addr: v6 }) == seq![plain(be128(v6.bits))]);
    assert(rdata_parts(RdataView::Unknown { qtype, data }) == seq![plain(data)]);
}

/// The data of an alias, a pointer and a name server is the name.
pub proof fn data_of_names(host: Seq<char>)
    ensures
        in_turn(rdata_parts(RdataView::Cname { host })) == named(host),
        in_turn(rdata_parts(RdataView::Ptr { host })) == named(host),
        in_turn(rdata_parts(RdataView::Ns { host })) == named(host),
{
    reveal(rdata_parts);
    row_of_one(named(host));
    assert(rdata_parts(RdataView::Cname { host }) == seq![named(host)]);
    assert(rdata_parts(RdataView::Ptr { host }) == seq![named(host)]);
    assert(rdata_parts(RdataView::Ns { host }) == seq![named(host)]);
}

/// The data of a mail exchange is its priority and its name.
pub proof fn data_of_exchanges(priority: u16, host: Seq<char>)
    ensures
        in_turn(rdata_parts(RdataView::Mx { priority, host })).bytes == be16(priority) + named(
            host,
        ).bytes,
        in_turn(rdata_parts(RdataView::Mx { priority, host })).error == named(host).error,
{
    reveal(rdata_parts);
    let first = plain(be16(priority));
    row_of_one(first);
    row_of_three(first, named(host), named(host));
    assert(rdata_parts(RdataView::Mx { priority, host }) == seq![first, named(host)]);
}

/// The data of a start of authority is its two names and its five numbers: the
/// serial, and the times to refresh, to retry, to expire and of denials.
pub proof fn data_of_authority(
    mname: Seq<char>,
    rname: Seq<char>,
    serial: u32,
    refresh: u32,
    retry: u32,
    expire: u32,
    minimum: u32,
)
    requires
        named(mname).error is None,
        named(rname).error is None,
    ensures
        ({
            let e = in_turn(
                rdata_parts(
                    RdataView::Soa {
                        mname,
                        rname,
                        serial,
                        refresh,
                        retry,
                        expire,
                        minimum,
                    },
                ),
            );
            &&& e.error is None
            &&& e.bytes
                == named(mname).bytes + named(rname).bytes + be32(serial) + be32(refresh)
                + be32(retry) + be32(expire) + be32(minimum)
        }),
{
    reveal(rdata_parts);
    let p0 = named(mname);
    let p1 = named(rname);
    let p2 = plain(be32(serial));
    let p3 = plain(be32(refresh));
    let p4 = plain(be32(retry));
    let p5 = plain(be32(expire));
    let p6 = plain(be32(minimum));
    let d = RdataView::Soa {
        mname,
        rname,
        serial,
        refresh,
        retry,
        expire,
        minimum,
    };
    row_of_one(p0);
    let r1 = seq![p0];
    row_grows(r1, p1);
    assert(r1.push(p1) =~= seq![p0, p1]);
    let r2 = seq![p0, p1];
    row_grows(r2, p2);
    assert(r2.push(p2) =~= seq![p0, p1, p2]);
    let r3 = seq![p0, p1, p2];
    row_grows(r3, p3);
    assert(r3.push(p3) =~= seq![p0, p1, p2, p3]);
    let r4 = seq![p0, p1, p2, p3];
    row_grows(r4, p4);
    assert(r4.push(p4) =~= seq![p0, p1, p2, p3, p4]);
    let r5 = seq![p0, p1, p2, p3, p4];
    row_grows(r5, p5);
    assert(r5.push(p5) =~= seq![p0, p1, p2, p3, p4, p5]);
    let r6 = seq![p0, p1, p2, p3, p4, p5];
    row_grows(r6, p6);
    assert(rdata_parts(d) =~= r6.push(p6));
    assert(in_turn(rdata_parts(d)).bytes =~= named(mname).bytes + named(rname).bytes
        + be32(serial) + be32(refresh) + be32(retry) + be32(expire) + be32(minimum));
}

/// The data of a signature is the type it covers, the algorithm, the number of
/// labels, the original time to live, when it expires and when it starts, the
/// tag of the key, the name of the signer, and the signature.
pub proof fn data_of_signatures(
    type_covered: u16,
    algorithm: u8,
    labels: u8,
    original_ttl: u32,
    expiration: u32,
    inception: u32,
    key_tag: u16,
    signer_name: Seq<char>,
    signature: Seq<u8>,
)
    requires
        named(signer_name).error is None,
    ensures
        ({
            let e = in_turn(
                rdata_parts(
                    RdataView::Rrsig {
                        type_covered,
                        algorithm,
                        labels,
                        original_ttl,
                        expiration,
                        inception,
                        key_tag,
                        signer_name,
                        signature,
                    },
                ),
            );
            &&& e.error is None
            &&& e.bytes
                == be16(type_covered) + seq![algorithm, labels] + be32(original_ttl)
                + be32(expiration) + be32(inception) + be16(key_tag) + named(signer_name).bytes
                + signature
        }),
{
    reveal(rdata_parts);
    let p0 = plain(be16(type_covered));
    let p1 = plain(seq![algorithm]);
    let p2 = plain(seq![labels]);
    let p3 = plain(be32(original_ttl));
    let p4 = plain(be32(expiration));
    let p5 = plain(be32(inception));
    let p6 = plain(be16(key_tag));
    let p7 = named(signer_name);
    let p8 = plain(signature);
    let d = RdataView::Rrsig {
        type_covered,
        algorithm,
        labels,
        original_ttl,
        expiration,
        inception,
        key_tag,
        signer_name,
        signature,
    };
    row_of_one(p0);
    let r1 = seq![p0];
    row_grows(r1, p1);
    assert(r1.push(p1) =~= seq![p0, p1]);
    let r2 = seq![p0, p1];
    row_grows(r2, p2);
    assert(r2.push(p2) =~= seq![p0, p1, p2]);
    let r3 = seq![p0, p1, p2];
    row_grows(r3, p3);
    assert(r3.push(p3) =~= seq![p0, p1, p2, p3]);
    let r4 = seq![p0, p1, p2, p3];
    row_grows(r4, p4);
    assert(r4.push(p4) =~= seq![p0, p1, p2, p3, p4]);
    let r5 = seq![p0, p1, p2, p3, p4];
    row_grows(r5, p5);
    assert(r5.push(p5) =~= seq![p0, p1, p2, p3, p4, p5]);
    let r6 = seq![p0, p1, p2, p3, p4, p5];
    row_grows(r6, p6);
    assert(r6.push(p6) =~= seq![p0, p1, p2, p3, p4, p5, p6]);
    let r7 = seq![p0, p1, p2, p3, p4, p5, p6];
    row_grows(r7, p7);
    assert(r7.push(p7) =~= seq![p0, p1, p2, p3, p4, p5, p6, p7]);
    let r8 = seq![p0, p1, p2, p3, p4, p5, p6, p7];
    row_grows(r8, p8);
    assert(rdata_parts(d) =~= r8.push(p8));
    assert(in_turn(rdata_parts(d)).bytes =~= be16(type_covered) + seq![algorithm, labels]
        + be32(original_ttl) + be32(expiration) + be32(inception) + be16(key_tag)
        + named(signer_name).bytes + signature);
}

/// The data of a key is its flags, its protocol, its algorithm and the key.
pub proof fn data_of_keys(
    flags: u16,
    protocol: u8,
    algorithm: u8,
    public_key: Seq<u8>,
)
    ensures
        ({
            let e = in_turn(
                rdata_parts(
                    RdataView::Dnskey {
                        flags,
                        protocol,
                        algorithm,
                        public_key,
                    },
                ),
            );
            &&& e.error is None
            &&& e.bytes
                == be16(flags) + seq![protocol, algorithm] + public_key
        }),
{
    reveal(rdata_parts);
    let p0 = plain(be16(flags));
    let p1 = plain(seq![protocol]);
    let p2 = plain(seq![algorithm]);
    let p3 = plain(public_key);
    let d = RdataView::Dnskey {
        flags,
        protocol,
        algorithm,
        public_key,
    };
    row_of_one(p0);
    let r1 = seq![p0];
    row_grows(r1, p1);
    assert(r1.push(p1) =~= seq![p0, p1]);
    let r2 = seq![p0, p1];
    row_grows(r2, p2);
    assert(r2.push(p2) =~= seq![p0, p1, p2]);
    let r3 = seq![p0, p1, p2];
    row_grows(r3, p3);
    assert(rdata_parts(d) =~= r3.push(p3));
    assert(in_turn(rdata_parts(d)).bytes =~= be16(flags) + seq![protocol, algorithm]
        + public_key);
}

/// The data of a delegation is the tag of the key, the algorithm, the kind of
/// digest, and the digest.
pub proof fn data_of_delegations(
    key_tag: u16,
    algorithm: u8,
    digest_type: u8,
    digest: Seq<u8>,
)
    ensures
        ({
            let e = in_turn(
                rdata_parts(
                    RdataView::Ds {
                        key_tag,
                        algorithm,
                        digest_type,
                        digest,
                    },
                ),
            );
            &&& e.error is None
            &&& e.bytes
                == be16(key_tag) + seq![algorithm, digest_type] + digest
        }),
{
    reveal(rdata_parts);
    let p0 = plain(be16(key_tag));
    let p1 = plain(seq![algorithm]);
    let p2 = plain(seq![digest_type]);
    let p3 = plain(digest);
    let d = RdataView::Ds {
        key_tag,
        algorithm,
        digest_type,
        digest,
    };
    row_of_one(p0);
    let r1 = seq![p0];
    row_grows(r1, p1);
    assert(r1.push(p1) =~= seq![p0, p1]);
    let r2 = seq![p0, p1];
    row_grows(r2, p2);
    assert(r2.push(p2) =~= seq![p0, p1, p2]);
    let r3 = seq![p0, p1, p2];
    row_grows(r3, p3);
    assert(rdata_parts(d) =~= r3.push(p3));
    assert(in_turn(rdata_parts(d)).bytes =~= be16(key_tag) + seq![algorithm, digest_type]
        + digest);
}

proof fn row_grows(parts: Seq<Emission>, e: Emission)
    ensures
        in_turn(parts.push(e)) == after(in_turn(parts), e),
{
    assert(parts.push(e).drop_last() =~= parts);
}

proof fn row_of_one(e: Emission)
    ensures
        in_turn(seq![e]) == e,
{
    row_of_three(e, e, e);
    assert(Seq::<u8>::empty() + e.bytes =~= e.bytes);
}

// ---------------------------------------------------------------------------
// Messages that are only looked through
// ---------------------------------------------------------------------------

proof fn labels_are_skipped(w: Seq<u8>, p: int, labels: Seq<Seq<u8>>)
    requires
        labels_ok(labels),
        holds(w, p, wire_of(labels)),
    ensures
        name_skip(w, p) == Some(p + wire_of(labels).len()),
    decreases labels.len(),
{
    let all = wire_of(labels);
    assert forall|i: int| 0 <= i < all.len() implies w[p + i] == all[i] by {
        assert(w.subrange(p, p + all.len())[i] == all[i]);
    }
    if labels.len() == 0 {
        assert(w[p + 0] == all[0]);
    } else {
        let l = labels[0];
        let rest = labels.drop_first();
        assert(1 <= labels[0].len() <= 63);
        assert(w[p + 0] == all[0]);
        assert(all[0] == l.len());
        let q = p + 1 + l.len();
        assert(w.subrange(q, q + wire_of(rest).len()) =~= wire_of(rest)) by {
            assert forall|i: int| 0 <= i < wire_of(rest).len() implies w[q + i] == wire_of(
                rest,
            )[i] by {
                assert(all[1 + l.len() + i] == wire_of(rest)[i]);
                assert(w[p + (1 + l.len() + i)] == all[1 + l.len() + i]);
            }
        }
        assert(labels_ok(rest)) by {
            assert forall|i: int| 0 <= i < rest.len() implies 1 <= (#[trigger] rest[i]).len()
                <= 63 by {
                assert(rest[i] == labels[i + 1]);
            }
        }
        labels_are_skipped(w, q, rest);
        assert(wire_of(rest).len() >= 1);
    }
}

proof fn written_name_is_skipped(text: Seq<char>, w: Seq<u8>, p: int)
    requires
        named(text).error is None,
        holds(w, p, named(text).bytes),
    ensures
        name_skip(w, p) == Some(p + named(text).bytes.len()),
{
    written_name_is_labels(encode_utf8(text), 0);
    labels_are_skipped(w, p, labels_of(encode_utf8(text), 0));
}

proof fn questions_are_skipped(
    parts: Seq<Emission>,
    k: int,
    qs: Seq<QuestionView>,
    i: int,
    w: Seq<u8>,
)
    requires
        0 <= k,
        0 <= i <= qs.len(),
        k + qs.len() <= parts.len(),
        questions_at(parts, k, qs),
        forall|j: int| 0 <= j < parts.len() ==> (#[trigger] parts[j]).error is None,
        holds(w, 0, in_turn(parts).bytes),
    ensures
        questions_skip(w, offset(parts, k + i), (qs.len() - i) as nat) == Some(
            offset(parts, k + qs.len()),
        ),
    decreases qs.len() - i,
{
    if i < qs.len() {
        part_in_row(parts, k + i, w, 0);
        reveal(questions_at);
        assert(parts[k + i] == question_emission(qs[i]));
        let p = offset(parts, k + i);
        let q = qs[i];
        let row = seq![named(q.name), plain(be16(q.qtype.num())), plain(be16(1))];
        row_clean(row);
        part_in_row(row, 0, w, p);
        part_in_row(row, 1, w, p);
        part_in_row(row, 2, w, p);
        written_name_is_skipped(q.name, w, p);
        questions_are_skipped(parts, k, qs, i + 1, w);
    }
}

proof fn record_is_looked_through(r: RecordView, w: Seq<u8>, p: int)
    requires
        record_emission(r).error is None,
        holds(w, p, record_emission(r).bytes),
        w.len() <= BUF_SIZE,
    ensures
        name_skip(w, p) matches Some(e) && e + 10 <= w.len() && at32(w, e + 4) == r.ttl && e + 10
            + at16(w, e + 8) == p + record_emission(r).bytes.len(),
{
    let parts = head_parts(r.domain, r.data.qtype().num(), r.ttl);
    let head = in_turn(parts);
    let data = in_turn(rdata_parts(r.data));
    assert(head.error is None && data.error is None);
    holds_part(w, p, head.bytes, counted(data).bytes);
    let q = p + head.bytes.len();
    holds_part(w, q, be16((data.bytes.len() % 65536) as u16), data.bytes);
    holds16(w, q, data.bytes.len() as u16);
    row_clean(parts);
    part_in_row(parts, 0, w, p);
    part_in_row(parts, 1, w, p);
    part_in_row(parts, 2, w, p);
    part_in_row(parts, 3, w, p);
    written_name_is_skipped(r.domain, w, p);
    let e = p + named(r.domain).bytes.len();
    holds32(w, e + 4, r.ttl);
    assert(q == e + 8);
}

proof fn ttls_are_found(parts: Seq<Emission>, k: int, recs: Seq<RecordView>, i: int, w: Seq<u8>)
    requires
        0 <= k,
        0 <= i <= recs.len(),
        k + recs.len() <= parts.len(),
        records_at(parts, k, recs),
        forall|j: int| 0 <= j < parts.len() ==> (#[trigger] parts[j]).error is None,
        holds(w, 0, in_turn(parts).bytes),
        w.len() <= BUF_SIZE,
    ensures
        ttls_at(w, offset(parts, k + i), (recs.len() - i) as nat) == Some(
            Seq::new((recs.len() - i) as nat, |j: int| recs[i + j].ttl),
        ),
    decreases recs.len() - i,
{
    let ttls = Seq::new((recs.len() - i) as nat, |j: int| recs[i + j].ttl);
    if i < recs.len() {
        part_in_row(parts, k + i, w, 0);
        reveal(records_at);
        assert(parts[k + i] == record_emission(recs[i]));
        record_is_looked_through(recs[i], w, offset(parts, k + i));
        ttls_are_found(parts, k, recs, i + 1, w);
        let rest = Seq::new((recs.len() - (i + 1)) as nat, |j: int| recs[i + 1 + j].ttl);
        assert(seq![recs[i].ttl] + rest =~= ttls);
    } else {
        assert(ttls =~= Seq::<u32>::empty());
    }
}

/// In a message that was written, the times to live of its answers are found,
/// in their order, without reading it whole.
pub proof fn ttls_of_a_message(p: PacketView)
    requires
        packet_emission(p).error is None,
        packet_emission(p).bytes.len() <= BUF_SIZE,
    ensures
        answer_ttls(packet_emission(p).bytes) == Some(
            Seq::new(p.answers.len(), |i: int| p.answers[i].ttl),
        ),
{
    let w = packet_emission(p).bytes;
    assert(w.subrange(0, w.len() as int) =~= w);
    let parts = packet_parts(p);
    packet_parts_are(p);
    row_clean(parts);
    head_stands(p, w);
    head_words_are(p);
    part_in_row(parts, 5, w, 0);
    questions_are_skipped(parts, 6, p.questions, 0, w);
    ttls_are_found(parts, 6 + p.questions.len() as int, p.answers, 0, w);
    assert(Seq::new((p.answers.len() - 0) as nat, |j: int| p.answers[0 + j].ttl) =~= Seq::new(
        p.answers.len(),
        |i: int| p.answers[i].ttl,
    ));
}

// ---------------------------------------------------------------------------
// Escapes, and data that breaks off
// ---------------------------------------------------------------------------

/// In the text of a name a backslash and three digits stand for the byte of that
/// number, up to 255, a backslash and anything else for that byte, and any other
/// byte for itself. A backslash at the end and one before fewer digits are
/// refused.
pub proof fn escapes_in_a_name(s: Seq<u8>, i: int, b: u8)
    requires
        0 <= i < s.len(),
    ensures
        s[i] != 92 ==> unescaped(s, i) == Ok::<(u8, int), WireError>((s[i], i + 1)),
        s[i] == 92 && i + 1 == s.len() ==> unescaped(s, i) == Err::<(u8, int), WireError>(
            WireError::TrailingBackslash,
        ),
        s[i] == 92 && i + 1 < s.len() && !(48 <= s[i + 1] <= 57) ==> unescaped(s, i) == Ok::<
            (u8, int),
            WireError,
        >((s[i + 1], i + 2)),
        s[i] == 92 && i + 3 < s.len() && s[i + 1] == 48 + b / 100 && s[i + 2] == 48 + b / 10 % 10
            && s[i + 3] == 48 + b % 10 ==> unescaped(s, i) == Ok::<(u8, int), WireError>(
            (b, i + 4),
        ),
        s[i] == 92 && i + 3 >= s.len() && i + 1 < s.len() && 48 <= s[i + 1] <= 57 ==> unescaped(
            s,
            i,
        ) == Err::<(u8, int), WireError>(WireError::ShortEscape),
{
    assert(b / 100 * 100 + b / 10 % 10 * 10 + b % 10 == b) by (nonlinear_arith);
}

/// A key, a delegation or a denial whose data is shorter than its fixed part is
/// refused.
pub proof fn short_data_is_refused(buf: Seq<u8>, p: int, len: u16)
    requires
        buf.len() == BUF_SIZE,
        0 <= p <= BUF_SIZE - 16,
        len < 4,
    ensures
        rdata_reading(buf, p, 48, len) matches Err((e, _)) && e == WireError::DnskeyTooShort,
        rdata_reading(buf, p, 43, len) matches Err((e, _)) && e == WireError::DsTooShort,
{
    reveal(rdata_reading);
}

/// What is written into a buffer stands where it was written, and the rest stays.
pub proof fn rest_of_a_buffer_stays(s: Seq<u8>, at: int, part: Seq<u8>, i: int)
    requires
        0 <= at,
        at + part.len() <= s.len(),
        0 <= i < s.len(),
    ensures
        splice(s, at, part).len() == s.len(),
        at <= i < at + part.len() ==> splice(s, at, part)[i] == part[i - at],
        i < at || i >= at + part.len() ==> splice(s, at, part)[i] == s[i],
{
}

} // verus!
