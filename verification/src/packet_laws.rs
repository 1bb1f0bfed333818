//! A message that was written is read back as it was.
use vstd::prelude::*;

use crate::buffer::{at16, be16, be32, WireError, BUF_SIZE};
use crate::emit::{in_turn, named, plain, Emission};
use crate::header::header_reads_back;
use crate::name::canonical;
use crate::packet::{
    additional_count, additional_reading, count16, edns_emission, edns_flags, edns_reading,
    is_edns_at, packet_emission, packet_parts, packet_parts_are, packet_reading, question_emission,
    question_reading, questions_at, questions_reading, records_at, section_reading, type_of_is,
    EdnsView, PacketView, QuestionView, OPT,
};
use crate::question::QueryType;
use crate::record::{name_reading, record_emission, RecordView};
use crate::record_laws::{
    holds, holds16, holds32, named_reads_back, offset, part_in_row, readable, row_clean,
    written_head_reads_back, written_record_reads_back,
};

verus! {

/// Whether a question has a form that its wire form gives back.
pub open spec fn readable_question(q: QuestionView) -> bool {
    canonical(q.name) && (q.qtype matches QueryType::UNKNOWN(n) ==> QueryType::unnamed(n))
}

/// Whether a message has a form that its wire form gives back: its names are in
/// the form in which names are read, no record has the number of a kind that is
/// read otherwise, and the options of EDNS are not among the records.
pub open spec fn readable_packet(p: PacketView) -> bool {
    &&& p.header.opcode < 16
    &&& forall|i: int| 0 <= i < p.questions.len() ==> readable_question(#[trigger] p.questions[i])
    &&& forall|i: int| 0 <= i < p.answers.len() ==> readable(#[trigger] p.answers[i])
    &&& forall|i: int| 0 <= i < p.authorities.len() ==> readable(#[trigger] p.authorities[i])
    &&& forall|i: int|
        0 <= i < p.resources.len() ==> readable(#[trigger] p.resources[i])
            && p.resources[i].data.qtype().num() != OPT
}

proof fn question_reads_back(q: QuestionView, buf: Seq<u8>, p: int)
    requires
        readable_question(q),
        buf.len() == BUF_SIZE,
        question_emission(q).error is None,
        holds(buf, p, question_emission(q).bytes),
    ensures
        question_reading(buf, p) == Ok::<(QuestionView, int), (WireError, int)>(
            (q, p + question_emission(q).bytes.len()),
        ),
{
    let parts = seq![named(q.name), plain(be16(q.qtype.num())), plain(be16(1))];
    row_clean(parts);
    part_in_row(parts, 0, buf, p);
    part_in_row(parts, 1, buf, p);
    part_in_row(parts, 2, buf, p);
    named_reads_back(q.name, buf, p);
    holds16(buf, p + named(q.name).bytes.len(), q.qtype.num());
    type_of_is(q.qtype);
}

proof fn questions_read_back(
    parts: Seq<Emission>,
    k: int,
    qs: Seq<QuestionView>,
    n: int,
    buf: Seq<u8>,
)
    requires
        0 <= k,
        0 <= n <= qs.len(),
        k + qs.len() <= parts.len(),
        questions_at(parts, k, qs),
        forall|i: int| 0 <= i < qs.len() ==> readable_question(#[trigger] qs[i]),
        forall|i: int| 0 <= i < parts.len() ==> (#[trigger] parts[i]).error is None,
        buf.len() == BUF_SIZE,
        holds(buf, 0, in_turn(parts).bytes),
    ensures
        questions_reading(buf, offset(parts, k), n) == Ok::<
            (Seq<QuestionView>, int),
            (WireError, int),
        >((qs.subrange(0, n), offset(parts, k + n))),
    decreases n,
{
    if n > 0 {
        questions_read_back(parts, k, qs, n - 1, buf);
        let i = n - 1;
        part_in_row(parts, k + i, buf, 0);
        reveal(questions_at);
        assert(parts[k + i] == question_emission(qs[i]));
        question_reads_back(qs[i], buf, offset(parts, k + i));
        assert(qs.subrange(0, n) =~= qs.subrange(0, i).push(qs[i]));
    } else {
        assert(qs.subrange(0, 0) =~= Seq::<QuestionView>::empty());
    }
}

proof fn records_read_back(parts: Seq<Emission>, k: int, recs: Seq<RecordView>, n: int, buf: Seq<u8>)
    requires
        0 <= k,
        0 <= n <= recs.len(),
        k + recs.len() <= parts.len(),
        records_at(parts, k, recs),
        forall|i: int| 0 <= i < recs.len() ==> readable(#[trigger] recs[i]),
        forall|i: int| 0 <= i < parts.len() ==> (#[trigger] parts[i]).error is None,
        buf.len() == BUF_SIZE,
        holds(buf, 0, in_turn(parts).bytes),
    ensures
        section_reading(buf, offset(parts, k), n) == Ok::<
            (Seq<RecordView>, int),
            (WireError, int),
        >((recs.subrange(0, n), offset(parts, k + n))),
    decreases n,
{
    if n > 0 {
        records_read_back(parts, k, recs, n - 1, buf);
        let i = n - 1;
        part_in_row(parts, k + i, buf, 0);
        reveal(records_at);
        assert(parts[k + i] == record_emission(recs[i]));
        written_record_reads_back(recs[i], buf, offset(parts, k + i));
        assert(recs.subrange(0, n) =~= recs.subrange(0, i).push(recs[i]));
    } else {
        assert(recs.subrange(0, 0) =~= Seq::<RecordView>::empty());
    }
}

proof fn resources_read_back(
    parts: Seq<Emission>,
    k: int,
    recs: Seq<RecordView>,
    n: int,
    buf: Seq<u8>,
)
    requires
        0 <= k,
        0 <= n <= recs.len(),
        k + recs.len() <= parts.len(),
        records_at(parts, k, recs),
        forall|i: int|
            0 <= i < recs.len() ==> readable(#[trigger] recs[i]) && recs[i].data.qtype().num()
                != OPT,
        forall|i: int| 0 <= i < parts.len() ==> (#[trigger] parts[i]).error is None,
        buf.len() == BUF_SIZE,
        holds(buf, 0, in_turn(parts).bytes),
    ensures
        additional_reading(buf, offset(parts, k), n) == Ok::<
            ((Seq<RecordView>, Option<EdnsView>), int),
            (WireError, int),
        >(((recs.subrange(0, n), None), offset(parts, k + n))),
    decreases n,
{
    if n > 0 {
        resources_read_back(parts, k, recs, n - 1, buf);
        let i = n - 1;
        part_in_row(parts, k + i, buf, 0);
        reveal(records_at);
        assert(parts[k + i] == record_emission(recs[i]));
        written_record_reads_back(recs[i], buf, offset(parts, k + i));
        written_head_reads_back(recs[i], buf, offset(parts, k + i));
        assert(recs.subrange(0, n) =~= recs.subrange(0, i).push(recs[i]));
    } else {
        assert(recs.subrange(0, 0) =~= Seq::<RecordView>::empty());
    }
}

proof fn root_reads_back(buf: Seq<u8>, p: int)
    requires
        buf.len() == BUF_SIZE,
        0 <= p < BUF_SIZE,
        buf[p] == 0,
    ensures
        name_reading(buf, p) == Ok::<(Seq<char>, int), (WireError, int)>((Seq::empty(), p + 1)),
{
}

proof fn edns_fields(e: EdnsView)
    ensures
        edns_flags(e) / 16777216 == e.extended_rcode,
        edns_flags(e) / 65536 % 256 == e.version,
        edns_flags(e) / 32768 % 2 == (if e.do_bit {
            1int
        } else {
            0
        }),
{
}

proof fn edns_reads_back(e: EdnsView, buf: Seq<u8>, p: int)
    requires
        buf.len() == BUF_SIZE,
        holds(buf, p, edns_emission(e).bytes),
    ensures
        is_edns_at(buf, p),
        edns_reading(buf, p) == Ok::<(EdnsView, int), (WireError, int)>(
            (e, p + edns_emission(e).bytes.len()),
        ),
{
    let parts = seq![
        plain(seq![0u8]),
        plain(be16(OPT)),
        plain(be16(e.udp_payload_size)),
        plain(be32(edns_flags(e))),
        plain(be16((e.options.len() % 65536) as u16)),
        plain(e.options),
    ];
    part_in_row(parts, 0, buf, p);
    part_in_row(parts, 1, buf, p);
    part_in_row(parts, 2, buf, p);
    part_in_row(parts, 3, buf, p);
    part_in_row(parts, 4, buf, p);
    part_in_row(parts, 5, buf, p);
    assert(buf.subrange(p, p + 1)[0] == seq![0u8][0]);
    root_reads_back(buf, p);
    holds16(buf, p + 1, OPT);
    holds16(buf, p + 3, e.udp_payload_size);
    holds32(buf, p + 5, edns_flags(e));
    assert(e.options.len() <= BUF_SIZE);
    holds16(buf, p + 9, e.options.len() as u16);
    edns_fields(e);
    assert(buf.subrange(p + 11, p + 11 + e.options.len()) == e.options);
}

/// A row of parts that each write something has at least as many bytes as parts.
proof fn row_is_long(parts: Seq<Emission>)
    requires
        forall|i: int| 0 <= i < parts.len() ==> (#[trigger] parts[i]).error is None,
        forall|i: int| 0 <= i < parts.len() ==> (#[trigger] parts[i]).bytes.len() > 0,
    ensures
        in_turn(parts).error is None,
        in_turn(parts).bytes.len() >= parts.len(),
    decreases parts.len(),
{
    if parts.len() > 0 {
        let before = parts.drop_last();
        assert forall|i: int| 0 <= i < before.len() implies (#[trigger] before[i]).error is None
            && before[i].bytes.len() > 0 by {
            assert(before[i] == parts[i]);
        }
        row_is_long(before);
        assert(parts[parts.len() - 1] == parts.last());
    }
}

proof fn question_is_long(q: QuestionView)
    requires
        question_emission(q).error is None,
    ensures
        question_emission(q).bytes.len() > 0,
{
    let parts = seq![named(q.name), plain(be16(q.qtype.num())), plain(be16(1))];
    assert(parts.drop_last() =~= seq![named(q.name), plain(be16(q.qtype.num()))]);
}

proof fn record_is_long(r: RecordView)
    requires
        record_emission(r).error is None,
    ensures
        record_emission(r).bytes.len() > 0,
{
    let head = crate::record::head_parts(r.domain, r.data.qtype().num(), r.ttl);
    assert(in_turn(head).error is None);
    assert(head.last() == plain(be32(r.ttl)));
}

proof fn edns_is_long(e: EdnsView)
    ensures
        edns_emission(e).error is None,
        edns_emission(e).bytes.len() > 0,
{
    let parts = seq![
        plain(seq![0u8]),
        plain(be16(OPT)),
        plain(be16(e.udp_payload_size)),
        plain(be32(edns_flags(e))),
        plain(be16((e.options.len() % 65536) as u16)),
        plain(e.options),
    ];
    let head = parts.drop_last();
    assert(head =~= seq![
        plain(seq![0u8]),
        plain(be16(OPT)),
        plain(be16(e.udp_payload_size)),
        plain(be32(edns_flags(e))),
        plain(be16((e.options.len() % 65536) as u16)),
    ]);
    row_is_long(head);
}

proof fn parts_are_few(p: PacketView)
    requires
        packet_emission(p).error is None,
        packet_emission(p).bytes.len() <= BUF_SIZE,
    ensures
        packet_parts(p).len() <= BUF_SIZE,
{
    let parts = packet_parts(p);
    packet_parts_are(p);
    row_clean(parts);
    reveal(questions_at);
    reveal(records_at);
    let q = 6 + p.questions.len();
    let a = q + p.answers.len();
    let u = a + p.authorities.len();
    let r = u + p.resources.len();
    assert forall|i: int| 0 <= i < parts.len() implies (#[trigger] parts[i]).bytes.len() > 0 by {
        if 6 <= i < q {
            assert(parts[6 + (i - 6)] == question_emission(p.questions[i - 6]));
            question_is_long(p.questions[i - 6]);
        } else if q <= i < a {
            assert(parts[q + (i - q)] == record_emission(p.answers[i - q]));
            record_is_long(p.answers[i - q]);
        } else if a <= i < u {
            assert(parts[a + (i - a)] == record_emission(p.authorities[i - a]));
            record_is_long(p.authorities[i - a]);
        } else if u <= i < r {
            assert(parts[u + (i - u)] == record_emission(p.resources[i - u]));
            record_is_long(p.resources[i - u]);
        } else if i >= r {
            edns_is_long(p.edns->0);
        }
    }
    row_is_long(parts);
}

proof fn word_at(parts: Seq<Emission>, k: int, v: u16, buf: Seq<u8>)
    requires
        0 <= k < parts.len(),
        parts[k] == plain(be16(v)),
        offset(parts, k) == 2 * k,
        forall|i: int| 0 <= i < parts.len() ==> (#[trigger] parts[i]).error is None,
        holds(buf, 0, in_turn(parts).bytes),
    ensures
        at16(buf, 2 * k) == v,
        offset(parts, k + 1) == 2 * (k + 1),
{
    part_in_row(parts, k, buf, 0);
    holds16(buf, 2 * k, v);
}

/// Six numbers at the start of a row are read back.
proof fn words_at(parts: Seq<Emission>, v: Seq<u16>, buf: Seq<u8>)
    requires
        parts.len() >= 6,
        v.len() == 6,
        parts[0] == plain(be16(v[0])),
        parts[1] == plain(be16(v[1])),
        parts[2] == plain(be16(v[2])),
        parts[3] == plain(be16(v[3])),
        parts[4] == plain(be16(v[4])),
        parts[5] == plain(be16(v[5])),
        forall|i: int| 0 <= i < parts.len() ==> (#[trigger] parts[i]).error is None,
        holds(buf, 0, in_turn(parts).bytes),
    ensures
        at16(buf, 0) == v[0],
        at16(buf, 2) == v[1],
        at16(buf, 4) == v[2],
        at16(buf, 6) == v[3],
        at16(buf, 8) == v[4],
        at16(buf, 10) == v[5],
        offset(parts, 6) == 12,
{
    assert(parts.subrange(0, 0) =~= Seq::<Emission>::empty());
    word_at(parts, 0, v[0], buf);
    word_at(parts, 1, v[1], buf);
    word_at(parts, 2, v[2], buf);
    word_at(parts, 3, v[3], buf);
    word_at(parts, 4, v[4], buf);
    word_at(parts, 5, v[5], buf);
}

/// The numbers at the start of a message.
#[verifier::opaque]
pub(crate) closed spec fn head_words(p: PacketView) -> Seq<u16> {
    seq![
        p.header.id,
        p.header.flags() as u16,
        count16(p.questions.len() as int),
        count16(p.answers.len() as int),
        count16(p.authorities.len() as int),
        count16(additional_count(p)),
    ]
}

/// The header and the counts of a message stand at its start.
pub(crate) proof fn head_stands(p: PacketView, buf: Seq<u8>)
    requires
        packet_emission(p).error is None,
        holds(buf, 0, packet_emission(p).bytes),
    ensures
        at16(buf, 0) == head_words(p)[0],
        at16(buf, 2) == head_words(p)[1],
        at16(buf, 4) == head_words(p)[2],
        at16(buf, 6) == head_words(p)[3],
        at16(buf, 8) == head_words(p)[4],
        at16(buf, 10) == head_words(p)[5],
        offset(packet_parts(p), 6) == 12,
{
    let parts = packet_parts(p);
    packet_parts_are(p);
    row_clean(parts);
    reveal(head_words);
    words_at(parts, head_words(p), buf);
}

pub(crate) proof fn head_words_are(p: PacketView)
    requires
        packet_emission(p).error is None,
        packet_emission(p).bytes.len() <= BUF_SIZE,
    ensures
        head_words(p)[0] == p.header.id,
        head_words(p)[1] == p.header.flags() as u16,
        head_words(p)[2] == p.questions.len(),
        head_words(p)[3] == p.answers.len(),
        head_words(p)[4] == p.authorities.len(),
        head_words(p)[5] == additional_count(p),
{
    reveal(head_words);
    packet_parts_are(p);
    parts_are_few(p);
}

/// The last section of a message, with the options of EDNS, is read back.
proof fn additional_reads_back(p: PacketView, buf: Seq<u8>)
    requires
        readable_packet(p),
        buf.len() == BUF_SIZE,
        packet_emission(p).error is None,
        holds(buf, 0, packet_emission(p).bytes),
    ensures
        additional_reading(
            buf,
            offset(
                packet_parts(p),
                6 + p.questions.len() + p.answers.len() + p.authorities.len() as int,
            ),
            additional_count(p),
        ) == Ok::<((Seq<RecordView>, Option<EdnsView>), int), (WireError, int)>(
            ((p.resources, p.edns), packet_emission(p).bytes.len() as int),
        ),
{
    let parts = packet_parts(p);
    packet_parts_are(p);
    row_clean(parts);
    let u = 6 + p.questions.len() + p.answers.len() + p.authorities.len() as int;
    let nr = p.resources.len() as int;
    resources_read_back(parts, u, p.resources, nr, buf);
    assert(p.resources.subrange(0, nr) =~= p.resources);
    if let Some(e) = p.edns {
        part_in_row(parts, u + nr, buf, 0);
        edns_reads_back(e, buf, offset(parts, u + nr));
    } else {
        assert(parts.subrange(0, u + nr) =~= parts);
    }
}

/// A message that was written whole is read back as it was, to the last byte
/// that was written and no further.
pub proof fn written_packet_reads_back(p: PacketView, buf: Seq<u8>)
    requires
        readable_packet(p),
        buf.len() == BUF_SIZE,
        packet_emission(p).error is None,
        holds(buf, 0, packet_emission(p).bytes),
    ensures
        packet_reading(buf, 0) == Ok::<(PacketView, int), (WireError, int)>(
            (p, packet_emission(p).bytes.len() as int),
        ),
{
    let parts = packet_parts(p);
    packet_parts_are(p);
    row_clean(parts);
    head_stands(p, buf);
    head_words_are(p);
    header_reads_back(p.header);
    let nq = p.questions.len() as int;
    let na = p.answers.len() as int;
    let nu = p.authorities.len() as int;
    questions_read_back(parts, 6, p.questions, nq, buf);
    records_read_back(parts, 6 + nq, p.answers, na, buf);
    records_read_back(parts, 6 + nq + na, p.authorities, nu, buf);
    additional_reads_back(p, buf);
    assert(p.questions.subrange(0, nq) =~= p.questions);
    assert(p.answers.subrange(0, na) =~= p.answers);
    assert(p.authorities.subrange(0, nu) =~= p.authorities);
}

} // verus!
