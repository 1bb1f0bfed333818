//! Messages: a header, questions, three sections of records, and the options
//! of EDNS.
use vstd::prelude::*;

use crate::buffer::{at16, at32, be16, be32, BytePacketBuffer, WireError, BUF_SIZE};
use crate::emit::{
    emitted, emitted_next, emitted_none, in_turn, named, plain, put_bytes, put_name, put_u16,
    put_u32, put_u8, Emission,
};
use crate::header::{DnsHeader, ResultCode};
use crate::question::{DnsQuestion, QueryType};
use crate::record::{
    fixed_reading, name_reading, read_name, read_tail, record_emission, record_reading,
    tail_reading, DnsRecord, Reading, RecordView,
};

verus! {

/// The payload size that the server offers where a client names none.
pub const DEFAULT_EDNS_PAYLOAD: u16 = 1232;

/// The number of the pseudo-record that carries the options of EDNS.
pub const OPT: u16 = 41;

/// The options of EDNS.
#[derive(Debug, Clone, PartialEq, Eq)]
pub struct EdnsOpt {
    pub udp_payload_size: u16,
    pub extended_rcode: u8,
    pub version: u8,
    pub do_bit: bool,
    pub options: Vec<u8>,
}

/// The options of EDNS.
pub struct EdnsView {
    pub udp_payload_size: u16,
    pub extended_rcode: u8,
    pub version: u8,
    pub do_bit: bool,
    pub options: Seq<u8>,
}

impl View for EdnsOpt {
    type V = EdnsView;

    open spec fn view(&self) -> EdnsView {
        EdnsView {
            udp_payload_size: self.udp_payload_size,
            extended_rcode: self.extended_rcode,
            version: self.version,
            do_bit: self.do_bit,
            options: self.options@,
        }
    }
}

/// The options that the server offers by itself.
pub open spec fn default_edns() -> EdnsView {
    EdnsView {
        udp_payload_size: DEFAULT_EDNS_PAYLOAD,
        extended_rcode: 0,
        version: 0,
        do_bit: false,
        options: Seq::empty(),
    }
}

impl Default for EdnsOpt {
    fn default() -> (r: Self)
        ensures
            r@ == default_edns(),
    {
        let r = EdnsOpt {
            udp_payload_size: DEFAULT_EDNS_PAYLOAD,
            extended_rcode: 0,
            version: 0,
            do_bit: false,
            options: Vec::new(),
        };
        assert(r.options@ =~= Seq::<u8>::empty());
        r
    }
}

/// A question.
pub struct QuestionView {
    pub name: Seq<char>,
    pub qtype: QueryType,
}

impl View for DnsQuestion {
    type V = QuestionView;

    open spec fn view(&self) -> QuestionView {
        QuestionView { name: self.name@, qtype: self.qtype }
    }
}

/// A message.
pub struct PacketView {
    pub header: DnsHeader,
    pub questions: Seq<QuestionView>,
    pub answers: Seq<RecordView>,
    pub authorities: Seq<RecordView>,
    pub resources: Seq<RecordView>,
    pub edns: Option<EdnsView>,
}

/// A message.
#[derive(Debug, Clone, PartialEq, Eq)]
pub struct DnsPacket {
    pub header: DnsHeader,
    pub questions: Vec<DnsQuestion>,
    pub answers: Vec<DnsRecord>,
    pub authorities: Vec<DnsRecord>,
    pub resources: Vec<DnsRecord>,
    pub edns: Option<EdnsOpt>,
}

/// What each record says.
pub open spec fn records(v: Seq<DnsRecord>) -> Seq<RecordView> {
    v.map_values(|r: DnsRecord| r@)
}

/// What each question asks.
pub open spec fn questions(v: Seq<DnsQuestion>) -> Seq<QuestionView> {
    v.map_values(|q: DnsQuestion| q@)
}

/// What options say.
pub open spec fn edns_view(e: Option<EdnsOpt>) -> Option<EdnsView> {
    match e {
        Some(e) => Some(e@),
        None => None,
    }
}

impl View for DnsPacket {
    type V = PacketView;

    open spec fn view(&self) -> PacketView {
        PacketView {
            header: self.header,
            questions: questions(self.questions@),
            answers: records(self.answers@),
            authorities: records(self.authorities@),
            resources: records(self.resources@),
            edns: edns_view(self.edns),
        }
    }
}

// ---------------------------------------------------------------------------
// Writing
// ---------------------------------------------------------------------------

/// What writing a question comes to.
pub open spec fn question_emission(q: QuestionView) -> Emission {
    in_turn(seq![named(q.name), plain(be16(q.qtype.num())), plain(be16(1))])
}

/// The number in the place of a record's time to live that carries the rest of
/// what EDNS says.
pub open spec fn edns_flags(e: EdnsView) -> u32 {
    (e.extended_rcode * 16777216 + e.version * 65536 + if e.do_bit {
        32768int
    } else {
        0
    }) as u32
}

/// What writing the options of EDNS comes to.
pub open spec fn edns_emission(e: EdnsView) -> Emission {
    in_turn(
        seq![
            plain(seq![0u8]),
            plain(be16(OPT)),
            plain(be16(e.udp_payload_size)),
            plain(be32(edns_flags(e))),
            plain(be16((e.options.len() % 65536) as u16)),
            plain(e.options),
        ],
    )
}

/// The low 16 bits of a count.
pub open spec fn count16(n: int) -> u16 {
    (n % 65536) as u16
}

/// The number of records in the last section, the options of EDNS among them.
pub open spec fn additional_count(p: PacketView) -> int {
    p.resources.len() + if p.edns is Some {
        1int
    } else {
        0
    }
}

/// The parts that a message is written in.
#[verifier::opaque]
pub open spec fn packet_parts(p: PacketView) -> Seq<Emission> {
    seq![
        plain(be16(p.header.id)),
        plain(be16(p.header.flags() as u16)),
        plain(be16(count16(p.questions.len() as int))),
        plain(be16(count16(p.answers.len() as int))),
        plain(be16(count16(p.authorities.len() as int))),
        plain(be16(count16(additional_count(p)))),
    ] + p.questions.map_values(|q: QuestionView| question_emission(q)) + p.answers.map_values(
        |r: RecordView| record_emission(r),
    ) + p.authorities.map_values(|r: RecordView| record_emission(r)) + p.resources.map_values(
        |r: RecordView| record_emission(r),
    ) + match p.edns {
        Some(e) => seq![edns_emission(e)],
        None => Seq::empty(),
    }
}

/// Whether the parts from `k` on are those of these questions.
#[verifier::opaque]
pub open spec fn questions_at(parts: Seq<Emission>, k: int, qs: Seq<QuestionView>) -> bool {
    forall|i: int| 0 <= i < qs.len() ==> #[trigger] parts[k + i] == question_emission(qs[i])
}

/// Whether the parts from `k` on are those of these records.
#[verifier::opaque]
pub open spec fn records_at(parts: Seq<Emission>, k: int, recs: Seq<RecordView>) -> bool {
    forall|i: int| 0 <= i < recs.len() ==> #[trigger] parts[k + i] == record_emission(recs[i])
}

/// Where each part of a message stands among its parts.
pub(crate) proof fn packet_parts_are(p: PacketView)
    ensures
        ({
            let parts = packet_parts(p);
            let q = 6 + p.questions.len();
            let a = q + p.answers.len();
            let u = a + p.authorities.len();
            let r = u + p.resources.len();
            &&& parts.len() == 6 + p.questions.len() + p.answers.len() + p.authorities.len()
                + additional_count(p)
            &&& parts[0] == plain(be16(p.header.id))
            &&& parts[1] == plain(be16(p.header.flags() as u16))
            &&& parts[2] == plain(be16(count16(p.questions.len() as int)))
            &&& parts[3] == plain(be16(count16(p.answers.len() as int)))
            &&& parts[4] == plain(be16(count16(p.authorities.len() as int)))
            &&& parts[5] == plain(be16(count16(additional_count(p))))
            &&& questions_at(parts, 6, p.questions)
            &&& records_at(parts, q as int, p.answers)
            &&& records_at(parts, a as int, p.authorities)
            &&& records_at(parts, u as int, p.resources)
            &&& p.edns matches Some(e) ==> parts[r as int] == edns_emission(e)
        }),
{
    reveal(packet_parts);
    reveal(questions_at);
    reveal(records_at);
}

/// What writing a message comes to.
pub open spec fn packet_emission(p: PacketView) -> Emission {
    in_turn(packet_parts(p))
}

/// Writes a question.
fn write_question(q: &DnsQuestion, buffer: &mut BytePacketBuffer) -> (r: Result<(), WireError>)
    requires
        old(buffer).pos <= BUF_SIZE,
    ensures
        emitted(*old(buffer), *final(buffer), r, question_emission(q@)),
{
    let ghost start = *buffer;
    let ghost parts = seq![named(q.name@), plain(be16(q.qtype.num())), plain(be16(1))];
    proof {
        emitted_none(start, parts);
    }
    put_name(buffer, q.name.as_str(), Ghost(start), Ghost(parts), Ghost(0))?;
    put_u16(buffer, q.qtype.to_num(), Ghost(start), Ghost(parts), Ghost(1))?;
    put_u16(buffer, 1, Ghost(start), Ghost(parts), Ghost(2))
}

/// Writes the options of EDNS.
fn write_edns(e: &EdnsOpt, buffer: &mut BytePacketBuffer) -> (r: Result<(), WireError>)
    requires
        old(buffer).pos <= BUF_SIZE,
    ensures
        emitted(*old(buffer), *final(buffer), r, edns_emission(e@)),
{
    let ghost start = *buffer;
    let ghost parts = seq![
        plain(seq![0u8]),
        plain(be16(OPT)),
        plain(be16(e.udp_payload_size)),
        plain(be32(edns_flags(e@))),
        plain(be16((e.options@.len() % 65536) as u16)),
        plain(e.options@),
    ];
    proof {
        emitted_none(start, parts);
    }
    let flags: u32 = e.extended_rcode as u32 * 16777216 + e.version as u32 * 65536 + if e.do_bit {
        32768
    } else {
        0
    };
    let len: u16 = (e.options.len() % 65536) as u16;
    put_u8(buffer, 0, Ghost(start), Ghost(parts), Ghost(0))?;
    put_u16(buffer, OPT, Ghost(start), Ghost(parts), Ghost(1))?;
    put_u16(buffer, e.udp_payload_size, Ghost(start), Ghost(parts), Ghost(2))?;
    put_u32(buffer, flags, Ghost(start), Ghost(parts), Ghost(3))?;
    put_u16(buffer, len, Ghost(start), Ghost(parts), Ghost(4))?;
    put_bytes(buffer, e.options.as_slice(), Ghost(start), Ghost(parts), Ghost(5))
}

/// Writes the questions as the parts from 6 on of a row of parts.
fn write_questions(
    qs: &Vec<DnsQuestion>,
    buffer: &mut BytePacketBuffer,
    Ghost(start): Ghost<BytePacketBuffer>,
    Ghost(parts): Ghost<Seq<Emission>>,
) -> (r: Result<(), WireError>)
    requires
        6 + qs@.len() <= parts.len(),
        questions_at(parts, 6, questions(qs@)),
        emitted(start, *old(buffer), Ok(()), in_turn(parts.subrange(0, 6))),
    ensures
        r is Ok ==> emitted(
            start,
            *final(buffer),
            Ok(()),
            in_turn(parts.subrange(0, (6 + qs@.len()) as int)),
        ),
        r is Err ==> emitted(start, *final(buffer), r, in_turn(parts)),
{
    let mut i: usize = 0;
    while i < qs.len()
        invariant
            i <= qs.len(),
            6 + qs@.len() <= parts.len(),
            questions_at(parts, 6, questions(qs@)),
            emitted(start, *buffer, Ok(()), in_turn(parts.subrange(0, 6 + i))),
        decreases qs.len() - i,
    {
        let ghost before = *buffer;
        let r = write_question(&qs[i], buffer);
        proof {
            reveal(questions_at);
            assert(parts[6 + i] == question_emission(questions(qs@)[i as int]));
            emitted_next(start, before, *buffer, r, parts, 6 + i);
        }
        r?;
        i += 1;
    }
    Ok(())
}

/// Writes a section of records as the parts from `k` on of a row of parts.
fn write_section(
    recs: &Vec<DnsRecord>,
    buffer: &mut BytePacketBuffer,
    Ghost(start): Ghost<BytePacketBuffer>,
    Ghost(parts): Ghost<Seq<Emission>>,
    Ghost(k): Ghost<int>,
) -> (r: Result<(), WireError>)
    requires
        0 <= k,
        k + recs@.len() <= parts.len(),
        records_at(parts, k, records(recs@)),
        emitted(start, *old(buffer), Ok(()), in_turn(parts.subrange(0, k))),
    ensures
        r is Ok ==> emitted(
            start,
            *final(buffer),
            Ok(()),
            in_turn(parts.subrange(0, k + recs@.len())),
        ),
        r is Err ==> emitted(start, *final(buffer), r, in_turn(parts)),
{
    let mut i: usize = 0;
    while i < recs.len()
        invariant
            i <= recs.len(),
            0 <= k,
            k + recs@.len() <= parts.len(),
            records_at(parts, k, records(recs@)),
            emitted(start, *buffer, Ok(()), in_turn(parts.subrange(0, k + i))),
        decreases recs.len() - i,
    {
        let ghost before = *buffer;
        let r = recs[i].write(buffer);
        let ghost unit: Result<(), WireError> = match r {
            Ok(_) => Ok(()),
            Err(e) => Err(e),
        };
        proof {
            reveal(records_at);
            assert(parts[k + i] == record_emission(records(recs@)[i as int]));
            emitted_next(start, before, *buffer, unit, parts, k + i);
        }
        match r {
            Ok(_) => {},
            Err(e) => {
                return Err(e);
            },
        }
        i += 1;
    }
    Ok(())
}

impl DnsPacket {
    /// A message without anything in it.
    pub open spec fn blank() -> PacketView {
        PacketView {
            header: DnsHeader::blank(),
            questions: Seq::empty(),
            answers: Seq::empty(),
            authorities: Seq::empty(),
            resources: Seq::empty(),
            edns: None,
        }
    }

    /// A message without anything in it.
    pub fn new() -> (r: DnsPacket)
        ensures
            r@ == DnsPacket::blank(),
    {
        let r = DnsPacket {
            header: DnsHeader::new(),
            questions: Vec::new(),
            answers: Vec::new(),
            authorities: Vec::new(),
            resources: Vec::new(),
            edns: None,
        };
        proof {
            assert(questions(r.questions@) =~= Seq::<QuestionView>::empty());
            assert(records(r.answers@) =~= Seq::<RecordView>::empty());
            assert(records(r.authorities@) =~= Seq::<RecordView>::empty());
            assert(records(r.resources@) =~= Seq::<RecordView>::empty());
        }
        r
    }

    /// The query for a name and a type, with recursion desired.
    pub open spec fn query_view(id: u16, name: Seq<char>, qtype: QueryType) -> PacketView {
        PacketView {
            header: DnsHeader { id, recursion_desired: true, ..DnsHeader::blank() },
            questions: seq![QuestionView { name, qtype }],
            ..DnsPacket::blank()
        }
    }

    /// The query for a name and a type, with recursion desired.
    pub fn query(id: u16, name: &str, qtype: QueryType) -> (r: DnsPacket)
        ensures
            r@ == DnsPacket::query_view(id, name@, qtype),
    {
        let mut r = DnsPacket::new();
        r.header.id = id;
        r.header.recursion_desired = true;
        r.questions.push(DnsQuestion::new(name.to_owned(), qtype));
        assert(questions(r.questions@) =~= seq![QuestionView { name: name@, qtype }]);
        r
    }

    /// The response to a query that has an outcome and nothing else: the id,
    /// the questions and the wish for recursion are those of the query.
    pub open spec fn response_view(query: PacketView, rescode: ResultCode) -> PacketView {
        PacketView {
            header: DnsHeader {
                id: query.header.id,
                response: true,
                recursion_desired: query.header.recursion_desired,
                recursion_available: true,
                rescode,
                ..DnsHeader::blank()
            },
            questions: query.questions,
            ..DnsPacket::blank()
        }
    }

    /// The response to a query that has an outcome and nothing else.
    pub fn response_from(query: &DnsPacket, rescode: ResultCode) -> (r: DnsPacket)
        ensures
            r@ == DnsPacket::response_view(query@, rescode),
    {
        let mut r = DnsPacket::new();
        r.header.id = query.header.id;
        r.header.response = true;
        r.header.recursion_desired = query.header.recursion_desired;
        r.header.recursion_available = true;
        r.header.rescode = rescode;
        r.questions = copy_questions(&query.questions);
        r
    }

    /// Writes the header and the counts of the sections.
    fn write_head(&self, buffer: &mut BytePacketBuffer, Ghost(parts): Ghost<Seq<Emission>>) -> (r:
        Result<(), WireError>)
        requires
            old(buffer).pos <= BUF_SIZE,
            parts == packet_parts(self@),
        ensures
            r is Ok ==> emitted(
                *old(buffer),
                *final(buffer),
                Ok(()),
                in_turn(parts.subrange(0, 6)),
            ),
            r is Err ==> emitted(*old(buffer), *final(buffer), r, in_turn(parts)),
    {
        let ghost start = *buffer;
        let extra: usize = if self.edns.is_some() {
            1
        } else {
            0
        };
        let questions_count: u16 = (self.questions.len() % 65536) as u16;
        let answers_count: u16 = (self.answers.len() % 65536) as u16;
        let authorities_count: u16 = (self.authorities.len() % 65536) as u16;
        let resources_count: u16 = ((self.resources.len() % 65536 + extra) % 65536) as u16;
        proof {
            packet_parts_are(self@);
            emitted_none(start, parts);
            crate::header::flags_fit(self.header);
            assert(resources_count == count16(self.resources@.len() + extra));
        }
        put_u16(buffer, self.header.id, Ghost(start), Ghost(parts), Ghost(0))?;
        put_u16(buffer, self.header.to_flags(), Ghost(start), Ghost(parts), Ghost(1))?;
        put_u16(buffer, questions_count, Ghost(start), Ghost(parts), Ghost(2))?;
        put_u16(buffer, answers_count, Ghost(start), Ghost(parts), Ghost(3))?;
        put_u16(buffer, authorities_count, Ghost(start), Ghost(parts), Ghost(4))?;
        put_u16(buffer, resources_count, Ghost(start), Ghost(parts), Ghost(5))?;
        Ok(())
    }

    /// Writes a message.
    #[verifier::rlimit(30)]
    pub fn write(&self, buffer: &mut BytePacketBuffer) -> (r: Result<(), WireError>)
        ensures
            emitted(*old(buffer), *final(buffer), r, packet_emission(self@)),
    {
        let ghost start = *buffer;
        let ghost parts = packet_parts(self@);
        let ghost nq = self.questions@.len() as int;
        let ghost na = self.answers@.len() as int;
        let ghost nu = self.authorities@.len() as int;
        let ghost nr = self.resources@.len() as int;
        if buffer.pos() > BUF_SIZE {
            return buffer.write_u8(0);
        }
        proof {
            packet_parts_are(self@);
        }
        self.write_head(buffer, Ghost(parts))?;
        write_questions(&self.questions, buffer, Ghost(start), Ghost(parts))?;
        write_section(&self.answers, buffer, Ghost(start), Ghost(parts), Ghost(6 + nq))?;
        write_section(&self.authorities, buffer, Ghost(start), Ghost(parts), Ghost(6 + nq + na))?;
        write_section(
            &self.resources,
            buffer,
            Ghost(start),
            Ghost(parts),
            Ghost(6 + nq + na + nu),
        )?;
        let ghost k = 6 + nq + na + nu + nr;
        match &self.edns {
            Some(e) => {
                let ghost before = *buffer;
                let r = write_edns(e, buffer);
                proof {
                    assert(parts[k] == edns_emission(e@));
                    emitted_next(start, before, *buffer, r, parts, k);
                }
                r
            },
            None => {
                assert(parts.subrange(0, k) =~= parts);
                Ok(())
            },
        }
    }
}

/// The same questions again.
pub fn copy_questions(v: &Vec<DnsQuestion>) -> (r: Vec<DnsQuestion>)
    ensures
        questions(r@) == questions(v@),
{
    let mut r: Vec<DnsQuestion> = Vec::new();
    let mut i: usize = 0;
    assert(questions(r@) =~= questions(v@).subrange(0, 0));
    while i < v.len()
        invariant
            i <= v.len(),
            questions(r@) == questions(v@).subrange(0, i as int),
        decreases v.len() - i,
    {
        let ghost before = r@;
        let q = v[i].copy();
        assert(q@ == v@[i as int]@);
        r.push(q);
        assert(questions(r@) =~= questions(before).push(q@));
        assert(questions(v@).subrange(0, i + 1) =~= questions(v@).subrange(0, i as int).push(q@));
        i += 1;
    }
    assert(questions(v@).subrange(0, v@.len() as int) =~= questions(v@));
    r
}

// ---------------------------------------------------------------------------
// Reading
// ---------------------------------------------------------------------------

/// Reading a question.
pub open spec fn question_reading(buf: Seq<u8>, p: int) -> Reading<QuestionView> {
    match name_reading(buf, p) {
        Err(e) => Err(e),
        Ok((name, q)) => match fixed_reading(q, 4) {
            Err(e) => Err(e),
            Ok((_, r)) => Ok((QuestionView { name, qtype: type_of(at16(buf, q)) }, r)),
        },
    }
}

/// The type with a number.
pub open spec fn type_of(n: u16) -> QueryType {
    choose|t: QueryType| t.num() == n && (QueryType::unnamed(n) <==> t == QueryType::UNKNOWN(n))
}

/// Reading `n` questions.
pub open spec fn questions_reading(buf: Seq<u8>, p: int, n: int) -> Reading<Seq<QuestionView>>
    decreases n,
{
    if n <= 0 {
        Ok((Seq::empty(), p))
    } else {
        match questions_reading(buf, p, n - 1) {
            Err(e) => Err(e),
            Ok((qs, q)) => match question_reading(buf, q) {
                Err(e) => Err(e),
                Ok((one, r)) => Ok((qs.push(one), r)),
            },
        }
    }
}

/// Reading `n` records.
pub open spec fn section_reading(buf: Seq<u8>, p: int, n: int) -> Reading<Seq<RecordView>>
    decreases n,
{
    if n <= 0 {
        Ok((Seq::empty(), p))
    } else {
        match section_reading(buf, p, n - 1) {
            Err(e) => Err(e),
            Ok((recs, q)) => match record_reading(buf, q) {
                Err(e) => Err(e),
                Ok((one, r)) => Ok((recs.push(one), r)),
            },
        }
    }
}

/// Whether what stands at `p` is the options of EDNS.
pub open spec fn is_edns_at(buf: Seq<u8>, p: int) -> bool {
    name_reading(buf, p) matches Ok((_, q)) && q + 2 <= BUF_SIZE && at16(buf, q) == OPT
}

/// Reading the options of EDNS.
pub open spec fn edns_reading(buf: Seq<u8>, p: int) -> Reading<EdnsView> {
    match name_reading(buf, p) {
        Err(e) => Err(e),
        Ok((_, q)) => match fixed_reading(q, 10) {
            Err(e) => Err(e),
            Ok((_, r)) => match tail_reading(
                buf,
                r,
                r + at16(buf, q + 8),
                WireError::EndOfBuffer,
            ) {
                Err(e) => Err(e),
                Ok((options, s)) => Ok(
                    (
                        EdnsView {
                            udp_payload_size: at16(buf, q + 2),
                            extended_rcode: (at32(buf, q + 4) / 16777216) as u8,
                            version: (at32(buf, q + 4) / 65536 % 256) as u8,
                            do_bit: at32(buf, q + 4) / 32768 % 2 == 1,
                            options,
                        },
                        s,
                    ),
                ),
            },
        },
    }
}

/// Reading `n` records of the last section, the options of EDNS among them.
/// Of several, the last options count.
pub open spec fn additional_reading(buf: Seq<u8>, p: int, n: int) -> Reading<
    (Seq<RecordView>, Option<EdnsView>),
>
    decreases n,
{
    if n <= 0 {
        Ok(((Seq::empty(), None), p))
    } else {
        match additional_reading(buf, p, n - 1) {
            Err(e) => Err(e),
            Ok(((recs, edns), q)) => if is_edns_at(buf, q) {
                match edns_reading(buf, q) {
                    Err(e) => Err(e),
                    Ok((opt, r)) => Ok(((recs, Some(opt)), r)),
                }
            } else {
                match record_reading(buf, q) {
                    Err(e) => Err(e),
                    Ok((one, r)) => Ok(((recs.push(one), edns), r)),
                }
            },
        }
    }
}

/// Reading a message.
pub open spec fn packet_reading(buf: Seq<u8>, p: int) -> Reading<PacketView> {
    match fixed_reading(p, 12) {
        Err(e) => Err(e),
        Ok((_, q)) => match questions_reading(buf, q, at16(buf, p + 4) as int) {
            Err(e) => Err(e),
            Ok((questions, r)) => match section_reading(buf, r, at16(buf, p + 6) as int) {
                Err(e) => Err(e),
                Ok((answers, s)) => match section_reading(buf, s, at16(buf, p + 8) as int) {
                    Err(e) => Err(e),
                    Ok((authorities, t)) => match additional_reading(
                        buf,
                        t,
                        at16(buf, p + 10) as int,
                    ) {
                        Err(e) => Err(e),
                        Ok(((resources, edns), u)) => Ok(
                            (
                                PacketView {
                                    header: DnsHeader::of_flags(at16(buf, p), at16(buf, p + 2)),
                                    questions,
                                    answers,
                                    authorities,
                                    resources,
                                    edns,
                                },
                                u,
                            ),
                        ),
                    },
                },
            },
        },
    }
}

/// A number determines its type.
pub(crate) proof fn type_of_is(t: QueryType)
    requires
        t matches QueryType::UNKNOWN(n) ==> QueryType::unnamed(n),
    ensures
        type_of(t.num()) == t,
{
    let n = t.num();
    assert(QueryType::unnamed(n) <==> t == QueryType::UNKNOWN(n));
    let u = type_of(n);
    crate::question::type_is_its_number(t, u);
}

/// Reads a question.
fn read_question(buffer: &mut BytePacketBuffer) -> (r: Result<DnsQuestion, WireError>)
    ensures
        old(buffer).same_but_pos(final(buffer)),
        match question_reading(old(buffer).buf@, old(buffer).pos as int) {
            Ok((q, end)) => r is Ok && r->Ok_0@ == q && final(buffer).pos == end,
            Err((e, end)) => r == Err::<DnsQuestion, WireError>(e) && final(buffer).pos == end,
        },
{
    let name = read_name(buffer)?;
    let n = buffer.read_u16()?;
    let _class = buffer.read_u16()?;
    let qtype = QueryType::from_num(n);
    proof {
        type_of_is(qtype);
    }
    Ok(DnsQuestion { name, qtype })
}

/// Reads questions.
fn read_questions(buffer: &mut BytePacketBuffer, n: u16) -> (r: Result<
    Vec<DnsQuestion>,
    WireError,
>)
    ensures
        old(buffer).same_but_pos(final(buffer)),
        match questions_reading(old(buffer).buf@, old(buffer).pos as int, n as int) {
            Ok((qs, end)) => r is Ok && questions(r->Ok_0@) == qs && final(buffer).pos == end,
            Err((e, end)) => r == Err::<Vec<DnsQuestion>, WireError>(e) && final(buffer).pos == end,
        },
{
    let mut v: Vec<DnsQuestion> = Vec::new();
    let ghost buf = buffer.buf@;
    let ghost p = buffer.pos as int;
    let mut i: u16 = 0;
    assert(questions(v@) =~= Seq::<QuestionView>::empty());
    while i < n
        invariant
            i <= n,
            buf == old(buffer).buf@,
            p == old(buffer).pos,
            old(buffer).same_but_pos(buffer),
            questions_reading(buf, p, i as int) == Ok::<
                (Seq<QuestionView>, int),
                (WireError, int),
            >((questions(v@), buffer.pos as int)),
        decreases n - i,
    {
        proof {
            questions_reading_fails(buf, p, i + 1, n as int);
        }
        let q = read_question(buffer)?;
        let ghost before = v@;
        let ghost view = q@;
        v.push(q);
        assert(questions(v@) =~= questions(before).push(view));
        i += 1;
    }
    Ok(v)
}

proof fn questions_reading_fails(buf: Seq<u8>, p: int, i: int, n: int)
    requires
        0 <= i <= n,
    ensures
        questions_reading(buf, p, i) is Err ==> questions_reading(buf, p, n)
            == questions_reading(buf, p, i),
    decreases n - i,
{
    if i < n {
        questions_reading_fails(buf, p, i + 1, n);
    }
}

proof fn section_reading_fails(buf: Seq<u8>, p: int, i: int, n: int)
    requires
        0 <= i <= n,
    ensures
        section_reading(buf, p, i) is Err ==> section_reading(buf, p, n) == section_reading(
            buf,
            p,
            i,
        ),
    decreases n - i,
{
    if i < n {
        section_reading_fails(buf, p, i + 1, n);
    }
}

proof fn additional_reading_fails(buf: Seq<u8>, p: int, i: int, n: int)
    requires
        0 <= i <= n,
    ensures
        additional_reading(buf, p, i) is Err ==> additional_reading(buf, p, n)
            == additional_reading(buf, p, i),
    decreases n - i,
{
    if i < n {
        additional_reading_fails(buf, p, i + 1, n);
    }
}

/// Reads records.
fn read_section(buffer: &mut BytePacketBuffer, n: u16) -> (r: Result<Vec<DnsRecord>, WireError>)
    ensures
        old(buffer).same_but_pos(final(buffer)),
        match section_reading(old(buffer).buf@, old(buffer).pos as int, n as int) {
            Ok((recs, end)) => r is Ok && records(r->Ok_0@) == recs && final(buffer).pos == end,
            Err((e, end)) => r == Err::<Vec<DnsRecord>, WireError>(e) && final(buffer).pos == end,
        },
{
    let mut v: Vec<DnsRecord> = Vec::new();
    let ghost buf = buffer.buf@;
    let ghost p = buffer.pos as int;
    let mut i: u16 = 0;
    assert(records(v@) =~= Seq::<RecordView>::empty());
    while i < n
        invariant
            i <= n,
            buf == old(buffer).buf@,
            p == old(buffer).pos,
            old(buffer).same_but_pos(buffer),
            section_reading(buf, p, i as int) == Ok::<(Seq<RecordView>, int), (WireError, int)>(
                (records(v@), buffer.pos as int),
            ),
        decreases n - i,
    {
        proof {
            section_reading_fails(buf, p, i + 1, n as int);
        }
        let rec = DnsRecord::read(buffer)?;
        let ghost before = v@;
        let ghost view = rec@;
        v.push(rec);
        assert(records(v@) =~= records(before).push(view));
        i += 1;
    }
    Ok(v)
}

/// Reads the options of EDNS.
fn read_edns(buffer: &mut BytePacketBuffer) -> (r: Result<EdnsOpt, WireError>)
    requires
        is_edns_at(old(buffer).buf@, old(buffer).pos as int),
    ensures
        old(buffer).same_but_pos(final(buffer)),
        match edns_reading(old(buffer).buf@, old(buffer).pos as int) {
            Ok((e, end)) => r is Ok && r->Ok_0@ == e && final(buffer).pos == end,
            Err((e, end)) => r == Err::<EdnsOpt, WireError>(e) && final(buffer).pos == end,
        },
{
    let _name = read_name(buffer)?;
    let _opt = buffer.read_u16()?;
    let udp_payload_size = buffer.read_u16()?;
    let flags = buffer.read_u32()?;
    let len = buffer.read_u16()?;
    let end: usize = buffer.pos() + len as usize;
    let options = read_tail(buffer, end, WireError::EndOfBuffer)?;
    Ok(
        EdnsOpt {
            udp_payload_size,
            extended_rcode: (flags / 16777216) as u8,
            version: (flags / 65536 % 256) as u8,
            do_bit: flags / 32768 % 2 == 1,
            options,
        },
    )
}

/// Whether what stands at the position is the options of EDNS. The position stays.
fn at_edns(buffer: &mut BytePacketBuffer) -> (b: bool)
    ensures
        b == is_edns_at(old(buffer).buf@, old(buffer).pos as int),
        old(buffer).same_but_pos(final(buffer)),
        final(buffer).pos == old(buffer).pos,
{
    let start: usize = buffer.pos();
    let found = match read_name(buffer) {
        Err(_) => false,
        Ok(_) => match buffer.read_u16() {
            Err(_) => false,
            Ok(n) => n == OPT,
        },
    };
    buffer.pos = start;
    found
}

/// Reads records of the last section, the options of EDNS among them.
fn read_additional(buffer: &mut BytePacketBuffer, n: u16) -> (r: Result<
    (Vec<DnsRecord>, Option<EdnsOpt>),
    WireError,
>)
    ensures
        old(buffer).same_but_pos(final(buffer)),
        match additional_reading(old(buffer).buf@, old(buffer).pos as int, n as int) {
            Ok(((recs, edns), end)) => r is Ok && records(r->Ok_0.0@) == recs && edns_view(
                r->Ok_0.1,
            ) == edns && final(buffer).pos == end,
            Err((e, end)) => r is Err && r->Err_0 == e && final(buffer).pos == end,
        },
{
    let mut v: Vec<DnsRecord> = Vec::new();
    let mut edns: Option<EdnsOpt> = None;
    let ghost buf = buffer.buf@;
    let ghost p = buffer.pos as int;
    let mut i: u16 = 0;
    assert(records(v@) =~= Seq::<RecordView>::empty());
    while i < n
        invariant
            i <= n,
            buf == old(buffer).buf@,
            p == old(buffer).pos,
            old(buffer).same_but_pos(buffer),
            additional_reading(buf, p, i as int) == Ok::<
                ((Seq<RecordView>, Option<EdnsView>), int),
                (WireError, int),
            >(((records(v@), edns_view(edns)), buffer.pos as int)),
        decreases n - i,
    {
        proof {
            additional_reading_fails(buf, p, i + 1, n as int);
        }
        if at_edns(buffer) {
            edns = Some(read_edns(buffer)?);
        } else {
            let rec = DnsRecord::read(buffer)?;
            let ghost before = v@;
            let ghost view = rec@;
            v.push(rec);
            assert(records(v@) =~= records(before).push(view));
        }
        i += 1;
    }
    Ok((v, edns))
}

impl DnsPacket {
    /// Reads a message.
    pub fn from_buffer(buffer: &mut BytePacketBuffer) -> (r: Result<DnsPacket, WireError>)
        ensures
            old(buffer).same_but_pos(final(buffer)),
            match packet_reading(old(buffer).buf@, old(buffer).pos as int) {
                Ok((p, end)) => r is Ok && r->Ok_0@ == p && final(buffer).pos == end,
                Err((e, end)) => r == Err::<DnsPacket, WireError>(e) && final(buffer).pos == end,
            },
    {
        let id = buffer.read_u16()?;
        let flags = buffer.read_u16()?;
        let questions_count = buffer.read_u16()?;
        let answers_count = buffer.read_u16()?;
        let authorities_count = buffer.read_u16()?;
        let resources_count = buffer.read_u16()?;
        let questions = read_questions(buffer, questions_count)?;
        let answers = read_section(buffer, answers_count)?;
        let authorities = read_section(buffer, authorities_count)?;
        let (resources, edns) = read_additional(buffer, resources_count)?;
        Ok(
            DnsPacket {
                header: DnsHeader::from_flags(id, flags),
                questions,
                answers,
                authorities,
                resources,
                edns,
            },
        )
    }
}

} // verus!
