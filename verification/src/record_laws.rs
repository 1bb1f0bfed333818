//! A record that was written is read back as it was.
use vstd::arithmetic::div_mod::{lemma_div_denominator, lemma_fundamental_div_mod};
use vstd::prelude::*;

use crate::buffer::{at16, at32, be16, be32, WireError, BUF_SIZE};
use crate::emit::{in_turn, named, Emission};
use crate::name::{canonical, canonical_reads_back};
use crate::record::{
    at128, be128, counted, head_parts, name_reading, rdata_parts, rdata_reading, record_emission,
    record_reading, tail_reading, RdataView, RecordView,
};

verus! {

/// Whether the part of `buf` at `p` holds these bytes.
pub open spec fn holds(buf: Seq<u8>, p: int, bytes: Seq<u8>) -> bool {
    0 <= p && p + bytes.len() <= buf.len() && buf.subrange(p, p + bytes.len()) == bytes
}

/// Where part `k` of a row of parts begins.
pub open spec fn offset(parts: Seq<Emission>, k: int) -> int {
    in_turn(parts.subrange(0, k)).bytes.len() as int
}

pub(crate) proof fn offset_next(parts: Seq<Emission>, k: int)
    requires
        0 <= k < parts.len(),
        forall|i: int| 0 <= i < parts.len() ==> (#[trigger] parts[i]).error is None,
    ensures
        in_turn(parts.subrange(0, k)).error is None,
        in_turn(parts.subrange(0, k + 1)).error is None,
        in_turn(parts.subrange(0, k + 1)).bytes == in_turn(parts.subrange(0, k)).bytes
            + parts[k].bytes,
        offset(parts, k + 1) == offset(parts, k) + parts[k].bytes.len(),
    decreases k,
{
    if k > 0 {
        offset_next(parts, k - 1);
    }
    assert(parts.subrange(0, k + 1).drop_last() =~= parts.subrange(0, k));
}

/// Each part of a row stands where the parts before it end.
pub(crate) proof fn part_in_row(parts: Seq<Emission>, k: int, buf: Seq<u8>, p: int)
    requires
        0 <= k < parts.len(),
        forall|i: int| 0 <= i < parts.len() ==> (#[trigger] parts[i]).error is None,
        holds(buf, p, in_turn(parts).bytes),
    ensures
        in_turn(parts).error is None,
        offset(parts, k + 1) == offset(parts, k) + parts[k].bytes.len(),
        offset(parts, k + 1) <= in_turn(parts).bytes.len(),
        k == 0 ==> offset(parts, k) == 0,
        k + 1 == parts.len() ==> offset(parts, k + 1) == in_turn(parts).bytes.len(),
        holds(buf, p + offset(parts, k), parts[k].bytes),
{
    offset_next(parts, k);
    row_prefix(parts, k + 1);
    let upto = in_turn(parts.subrange(0, k + 1)).bytes;
    let whole = in_turn(parts).bytes;
    let part = parts[k].bytes;
    let at = offset(parts, k);
    assert(parts.subrange(0, 0) =~= Seq::<Emission>::empty());
    assert forall|i: int| 0 <= i < part.len() implies buf[p + at + i] == part[i] by {
        assert(buf.subrange(p, p + whole.len())[at + i] == whole[at + i]);
        assert(whole.subrange(0, upto.len() as int)[at + i] == upto[at + i]);
    }
    assert(buf.subrange(p + at, p + at + part.len()) =~= part);
}

pub(crate) proof fn row_prefix(parts: Seq<Emission>, k: int)
    requires
        0 <= k <= parts.len(),
        forall|i: int| 0 <= i < parts.len() ==> (#[trigger] parts[i]).error is None,
    ensures
        in_turn(parts).error is None,
        in_turn(parts.subrange(0, k)).bytes.len() <= in_turn(parts).bytes.len(),
        in_turn(parts).bytes.subrange(0, in_turn(parts.subrange(0, k)).bytes.len() as int)
            == in_turn(parts.subrange(0, k)).bytes,
        k == parts.len() ==> in_turn(parts.subrange(0, k)) == in_turn(parts),
    decreases parts.len() - k,
{
    let part = in_turn(parts.subrange(0, k)).bytes;
    let whole = in_turn(parts).bytes;
    if k < parts.len() {
        offset_next(parts, k);
        row_prefix(parts, k + 1);
        let more = in_turn(parts.subrange(0, k + 1)).bytes;
        assert(more.subrange(0, part.len() as int) =~= part);
        assert(whole.subrange(0, part.len() as int) =~= whole.subrange(
            0,
            more.len() as int,
        ).subrange(0, part.len() as int));
    } else {
        assert(parts.subrange(0, k) =~= parts);
        if k > 0 {
            offset_next(parts, k - 1);
        }
        assert(whole.subrange(0, whole.len() as int) =~= whole);
    }
}

pub(crate) proof fn holds16(buf: Seq<u8>, p: int, v: u16)
    requires
        holds(buf, p, be16(v)),
    ensures
        at16(buf, p) == v,
{
    assert(buf.subrange(p, p + 2)[0] == be16(v)[0]);
    assert(buf.subrange(p, p + 2)[1] == be16(v)[1]);
}

pub(crate) proof fn holds32(buf: Seq<u8>, p: int, v: u32)
    requires
        holds(buf, p, be32(v)),
    ensures
        at32(buf, p) == v,
{
    assert(buf.subrange(p, p + 4)[0] == be32(v)[0]);
    assert(buf.subrange(p, p + 4)[1] == be32(v)[1]);
    assert(buf.subrange(p, p + 4)[2] == be32(v)[2]);
    assert(buf.subrange(p, p + 4)[3] == be32(v)[3]);
}

proof fn holds8(buf: Seq<u8>, p: int, v: u8)
    requires
        holds(buf, p, seq![v]),
    ensures
        buf[p] == v,
{
    assert(buf.subrange(p, p + 1)[0] == seq![v][0]);
}

pub(crate) proof fn holds_part(buf: Seq<u8>, p: int, a: Seq<u8>, b: Seq<u8>)
    requires
        holds(buf, p, a + b),
    ensures
        holds(buf, p, a),
        holds(buf, p + a.len(), b),
{
    let n = (a + b).len();
    assert forall|i: int| 0 <= i < n implies buf[p + i] == (a + b)[i] by {
        assert(buf.subrange(p, p + n)[i] == (a + b)[i]);
    }
    assert(buf.subrange(p, p + a.len()) =~= a);
    assert forall|i: int| 0 <= i < b.len() implies buf[p + a.len() + i] == b[i] by {
        assert(buf[p + (a.len() + i)] == (a + b)[a.len() + i]);
    }
    assert(buf.subrange(p + a.len(), p + a.len() + b.len()) =~= b);
}

proof fn words_of(v: int)
    requires
        0 <= v,
    ensures
        ({
            let m = 0x1_0000_0000int;
            let a = v / 0x1_0000_0000_0000_0000_0000_0000;
            let b = v / 0x1_0000_0000_0000_0000 % m;
            let c = v / m % m;
            let d = v % m;
            ((a * m + b) * m + c) * m + d == v
        }),
{
    let m = 0x1_0000_0000int;
    lemma_div_denominator(v, m, m);
    lemma_div_denominator(v, m * m, m);
    lemma_fundamental_div_mod(v, m);
    lemma_fundamental_div_mod(v / m, m);
    lemma_fundamental_div_mod(v / (m * m), m);
}

proof fn holds128(buf: Seq<u8>, p: int, v: u128)
    requires
        holds(buf, p, be128(v)),
    ensures
        at128(buf, p) == v,
{
    let a = (v / 0x1_0000_0000_0000_0000_0000_0000) as u32;
    let b = (v / 0x1_0000_0000_0000_0000 % 0x1_0000_0000) as u32;
    let c = (v / 0x1_0000_0000 % 0x1_0000_0000) as u32;
    let d = (v % 0x1_0000_0000) as u32;
    holds_part(buf, p, be32(a) + be32(b) + be32(c), be32(d));
    holds_part(buf, p, be32(a) + be32(b), be32(c));
    holds_part(buf, p, be32(a), be32(b));
    holds32(buf, p, a);
    holds32(buf, p + 4, b);
    holds32(buf, p + 8, c);
    holds32(buf, p + 12, d);
    assert(at128(buf, p) == (((a * 0x1_0000_0000 + b) * 0x1_0000_0000 + c) * 0x1_0000_0000
        + d) as u128);
    words_of(v as int);
}

/// Whether a record can be told from its wire form: its names are as they
/// would be read, lengths that take one byte fit it, and data of an unknown
/// type is not of a type that is read otherwise.
pub open spec fn readable(rec: RecordView) -> bool {
    &&& canonical(rec.domain)
    &&& match rec.data {
        RdataView::Unknown { qtype, .. } => !(qtype == 1 || qtype == 28 || qtype == 2 || qtype == 5
            || qtype == 12 || qtype == 15 || qtype == 6 || qtype == 48 || qtype == 43 || qtype == 46
            || qtype == 47 || qtype == 50),
        RdataView::A { .. } => true,
        RdataView::Ns { host } => canonical(host),
        RdataView::Soa { mname, rname, .. } => canonical(mname) && canonical(rname),
        RdataView::Cname { host } => canonical(host),
        RdataView::Ptr { host } => canonical(host),
        RdataView::Mx { host, .. } => canonical(host),
        RdataView::Aaaa { .. } => true,
        RdataView::Dnskey { .. } => true,
        RdataView::Ds { .. } => true,
        RdataView::Rrsig { signer_name, .. } => canonical(signer_name),
        RdataView::Nsec { next_domain, .. } => canonical(next_domain),
        RdataView::Nsec3 { salt, next_hashed_owner, .. } => salt.len() <= 255
            && next_hashed_owner.len() <= 255,
    }
}

pub(crate) proof fn named_reads_back(text: Seq<char>, buf: Seq<u8>, p: int)
    requires
        canonical(text),
        buf.len() == BUF_SIZE,
        holds(buf, p, named(text).bytes),
    ensures
        named(text).error is None,
        name_reading(buf, p) == Ok::<(Seq<char>, int), (WireError, int)>(
            (text, p + named(text).bytes.len()),
        ),
{
    canonical_reads_back(text, buf, p);
}

/// Whether the data of a record stands in `buf` at `p`.
spec fn data_stands(rec: RecordView, buf: Seq<u8>, p: int) -> bool {
    &&& readable(rec)
    &&& buf.len() == BUF_SIZE
    &&& holds(buf, p, in_turn(rdata_parts(rec.data)).bytes)
    &&& in_turn(rdata_parts(rec.data)).error is None
}

/// Whether the data of a record is read back from `buf` at `p`.
spec fn data_read_back(rec: RecordView, buf: Seq<u8>, p: int) -> bool {
    let e = in_turn(rdata_parts(rec.data));
    rdata_reading(buf, p, rec.data.qtype().num(), e.bytes.len() as u16) == Ok::<
        (RdataView, int),
        (WireError, int),
    >((rec.data, p + e.bytes.len()))
}

proof fn unknown_reads_back(rec: RecordView, buf: Seq<u8>, p: int)
    requires
        data_stands(rec, buf, p),
        rec.data is Unknown,
    ensures
        data_read_back(rec, buf, p),
{
    reveal(rdata_parts);
    reveal(rdata_reading);
    let parts = rdata_parts(rec.data);
    row_clean(parts);
    part_in_row(parts, 0, buf, p);
}

proof fn a_reads_back(rec: RecordView, buf: Seq<u8>, p: int)
    requires
        data_stands(rec, buf, p),
        rec.data is A,
    ensures
        data_read_back(rec, buf, p),
{
    reveal(rdata_parts);
    reveal(rdata_reading);
    let parts = rdata_parts(rec.data);
    row_clean(parts);
    part_in_row(parts, 0, buf, p);
    if let RdataView::A { addr } = rec.data {
        holds32(buf, p, addr.bits);
    }
}

proof fn aaaa_reads_back(rec: RecordView, buf: Seq<u8>, p: int)
    requires
        data_stands(rec, buf, p),
        rec.data is Aaaa,
    ensures
        data_read_back(rec, buf, p),
{
    reveal(rdata_parts);
    reveal(rdata_reading);
    let parts = rdata_parts(rec.data);
    row_clean(parts);
    part_in_row(parts, 0, buf, p);
    if let RdataView::Aaaa { addr } = rec.data {
        holds128(buf, p, addr.bits);
    }
}

proof fn ns_reads_back(rec: RecordView, buf: Seq<u8>, p: int)
    requires
        data_stands(rec, buf, p),
        rec.data is Ns,
    ensures
        data_read_back(rec, buf, p),
{
    reveal(rdata_parts);
    reveal(rdata_reading);
    let parts = rdata_parts(rec.data);
    row_clean(parts);
    part_in_row(parts, 0, buf, p);
    if let RdataView::Ns { host } = rec.data {
        named_reads_back(host, buf, p);
    }
}

proof fn cname_reads_back(rec: RecordView, buf: Seq<u8>, p: int)
    requires
        data_stands(rec, buf, p),
        rec.data is Cname,
    ensures
        data_read_back(rec, buf, p),
{
    reveal(rdata_parts);
    reveal(rdata_reading);
    let parts = rdata_parts(rec.data);
    row_clean(parts);
    part_in_row(parts, 0, buf, p);
    if let RdataView::Cname { host } = rec.data {
        named_reads_back(host, buf, p);
    }
}

proof fn ptr_reads_back(rec: RecordView, buf: Seq<u8>, p: int)
    requires
        data_stands(rec, buf, p),
        rec.data is Ptr,
    ensures
        data_read_back(rec, buf, p),
{
    reveal(rdata_parts);
    reveal(rdata_reading);
    let parts = rdata_parts(rec.data);
    row_clean(parts);
    part_in_row(parts, 0, buf, p);
    if let RdataView::Ptr { host } = rec.data {
        named_reads_back(host, buf, p);
    }
}

proof fn mx_reads_back(rec: RecordView, buf: Seq<u8>, p: int)
    requires
        data_stands(rec, buf, p),
        rec.data is Mx,
    ensures
        data_read_back(rec, buf, p),
{
    reveal(rdata_parts);
    reveal(rdata_reading);
    let parts = rdata_parts(rec.data);
    row_clean(parts);
    part_in_row(parts, 0, buf, p);
    if let RdataView::Mx { priority, host } = rec.data {
        part_in_row(parts, 1, buf, p);
        holds16(buf, p, priority);
        named_reads_back(host, buf, p + 2);
    }
}

proof fn soa_reads_back(rec: RecordView, buf: Seq<u8>, p: int)
    requires
        data_stands(rec, buf, p),
        rec.data is Soa,
    ensures
        data_read_back(rec, buf, p),
{
    reveal(rdata_parts);
    reveal(rdata_reading);
    let parts = rdata_parts(rec.data);
    row_clean(parts);
    part_in_row(parts, 0, buf, p);
    if let RdataView::Soa { mname, rname, serial, refresh, retry, expire, minimum } = rec.data {
        part_in_row(parts, 1, buf, p);
        part_in_row(parts, 2, buf, p);
        part_in_row(parts, 3, buf, p);
        part_in_row(parts, 4, buf, p);
        part_in_row(parts, 5, buf, p);
        part_in_row(parts, 6, buf, p);
        let q = p + named(mname).bytes.len();
        let r = q + named(rname).bytes.len();
        named_reads_back(mname, buf, p);
        named_reads_back(rname, buf, q);
        holds32(buf, r, serial);
        holds32(buf, r + 4, refresh);
        holds32(buf, r + 8, retry);
        holds32(buf, r + 12, expire);
        holds32(buf, r + 16, minimum);
    }
}

proof fn dnskey_reads_back(rec: RecordView, buf: Seq<u8>, p: int)
    requires
        data_stands(rec, buf, p),
        rec.data is Dnskey,
    ensures
        data_read_back(rec, buf, p),
{
    reveal(rdata_parts);
    reveal(rdata_reading);
    let parts = rdata_parts(rec.data);
    row_clean(parts);
    part_in_row(parts, 0, buf, p);
    if let RdataView::Dnskey { flags, protocol, algorithm, public_key } = rec.data {
        part_in_row(parts, 1, buf, p);
        part_in_row(parts, 2, buf, p);
        part_in_row(parts, 3, buf, p);
        holds16(buf, p, flags);
        holds8(buf, p + 2, protocol);
        holds8(buf, p + 3, algorithm);
    }
}

proof fn ds_reads_back(rec: RecordView, buf: Seq<u8>, p: int)
    requires
        data_stands(rec, buf, p),
        rec.data is Ds,
    ensures
        data_read_back(rec, buf, p),
{
    reveal(rdata_parts);
    reveal(rdata_reading);
    let parts = rdata_parts(rec.data);
    row_clean(parts);
    part_in_row(parts, 0, buf, p);
    if let RdataView::Ds { key_tag, algorithm, digest_type, digest } = rec.data {
        part_in_row(parts, 1, buf, p);
        part_in_row(parts, 2, buf, p);
        part_in_row(parts, 3, buf, p);
        holds16(buf, p, key_tag);
        holds8(buf, p + 2, algorithm);
        holds8(buf, p + 3, digest_type);
    }
}

proof fn rrsig_reads_back(rec: RecordView, buf: Seq<u8>, p: int)
    requires
        data_stands(rec, buf, p),
        rec.data is Rrsig,
    ensures
        data_read_back(rec, buf, p),
{
    reveal(rdata_parts);
    reveal(rdata_reading);
    let parts = rdata_parts(rec.data);
    row_clean(parts);
    part_in_row(parts, 0, buf, p);
    if let RdataView::Rrsig { type_covered, algorithm, labels, original_ttl, expiration, inception, key_tag, signer_name, signature } = rec.data {
        part_in_row(parts, 1, buf, p);
        part_in_row(parts, 2, buf, p);
        part_in_row(parts, 3, buf, p);
        part_in_row(parts, 4, buf, p);
        part_in_row(parts, 5, buf, p);
        part_in_row(parts, 6, buf, p);
        part_in_row(parts, 7, buf, p);
        part_in_row(parts, 8, buf, p);
        holds16(buf, p, type_covered);
        holds8(buf, p + 2, algorithm);
        holds8(buf, p + 3, labels);
        holds32(buf, p + 4, original_ttl);
        holds32(buf, p + 8, expiration);
        holds32(buf, p + 12, inception);
        holds16(buf, p + 16, key_tag);
        named_reads_back(signer_name, buf, p + 18);
    }
}

proof fn nsec_reads_back(rec: RecordView, buf: Seq<u8>, p: int)
    requires
        data_stands(rec, buf, p),
        rec.data is Nsec,
    ensures
        data_read_back(rec, buf, p),
{
    reveal(rdata_parts);
    reveal(rdata_reading);
    let parts = rdata_parts(rec.data);
    row_clean(parts);
    part_in_row(parts, 0, buf, p);
    if let RdataView::Nsec { next_domain, type_bitmap } = rec.data {
        part_in_row(parts, 1, buf, p);
        named_reads_back(next_domain, buf, p);
    }
}

#[verifier::spinoff_prover]
#[verifier::rlimit(40)]
proof fn nsec3_reads_back(rec: RecordView, buf: Seq<u8>, p: int)
    requires
        data_stands(rec, buf, p),
        rec.data is Nsec3,
    ensures
        data_read_back(rec, buf, p),
{
    reveal(rdata_parts);
    reveal(rdata_reading);
    let parts = rdata_parts(rec.data);
    row_clean(parts);
    part_in_row(parts, 0, buf, p);
    if let RdataView::Nsec3 { hash_algorithm, flags, iterations, salt, next_hashed_owner, type_bitmap } = rec.data {
        part_in_row(parts, 1, buf, p);
        part_in_row(parts, 2, buf, p);
        part_in_row(parts, 3, buf, p);
        part_in_row(parts, 4, buf, p);
        part_in_row(parts, 5, buf, p);
        part_in_row(parts, 6, buf, p);
        part_in_row(parts, 7, buf, p);
        holds8(buf, p, hash_algorithm);
        holds8(buf, p + 1, flags);
        holds16(buf, p + 2, iterations);
        holds8(buf, p + 4, salt.len() as u8);
        holds8(buf, p + 5 + salt.len(), next_hashed_owner.len() as u8);
        let r = p + 5 + salt.len();
        let t = r + 1 + next_hashed_owner.len();
        let end = p + in_turn(parts).bytes.len();
        assert(end == t + type_bitmap.len());
        assert(tail_reading(buf, p + 5, r, WireError::EndOfBuffer) == Ok::<
            (Seq<u8>, int),
            (WireError, int),
        >((salt, r)));
        assert(tail_reading(buf, r + 1, t, WireError::EndOfBuffer) == Ok::<
            (Seq<u8>, int),
            (WireError, int),
        >((next_hashed_owner, t)));
        assert(tail_reading(buf, t, end, WireError::Nsec3TooShort) == Ok::<
            (Seq<u8>, int),
            (WireError, int),
        >((type_bitmap, end)));
    }
}

/// The data of a record is read back as it was written.
proof fn rdata_reads_back(rec: RecordView, buf: Seq<u8>, p: int)
    requires
        data_stands(rec, buf, p),
    ensures
        data_read_back(rec, buf, p),
{
    match rec.data {
        RdataView::Unknown { .. } => unknown_reads_back(rec, buf, p),
        RdataView::A { .. } => a_reads_back(rec, buf, p),
        RdataView::Aaaa { .. } => aaaa_reads_back(rec, buf, p),
        RdataView::Ns { .. } => ns_reads_back(rec, buf, p),
        RdataView::Cname { .. } => cname_reads_back(rec, buf, p),
        RdataView::Ptr { .. } => ptr_reads_back(rec, buf, p),
        RdataView::Mx { .. } => mx_reads_back(rec, buf, p),
        RdataView::Soa { .. } => soa_reads_back(rec, buf, p),
        RdataView::Dnskey { .. } => dnskey_reads_back(rec, buf, p),
        RdataView::Ds { .. } => ds_reads_back(rec, buf, p),
        RdataView::Rrsig { .. } => rrsig_reads_back(rec, buf, p),
        RdataView::Nsec { .. } => nsec_reads_back(rec, buf, p),
        RdataView::Nsec3 { .. } => nsec3_reads_back(rec, buf, p),
    }
}

/// A row without an error is made of parts without an error.
pub(crate) proof fn row_clean(parts: Seq<Emission>)
    requires
        in_turn(parts).error is None,
    ensures
        forall|i: int| 0 <= i < parts.len() ==> (#[trigger] parts[i]).error is None,
    decreases parts.len(),
{
    if parts.len() > 0 {
        row_clean(parts.drop_last());
        assert forall|i: int| 0 <= i < parts.len() implies (#[trigger] parts[i]).error is None by {
            if i < parts.len() - 1 {
                assert(parts[i] == parts.drop_last()[i]);
            }
        }
    }
}

/// A record that was written whole is read back as it was, to the last byte
/// that was written and no further.
pub proof fn written_record_reads_back(rec: RecordView, buf: Seq<u8>, p: int)
    requires
        readable(rec),
        buf.len() == BUF_SIZE,
        record_emission(rec).error is None,
        holds(buf, p, record_emission(rec).bytes),
    ensures
        record_reading(buf, p) == Ok::<(RecordView, int), (WireError, int)>(
            (rec, p + record_emission(rec).bytes.len()),
        ),
{
    let parts = head_parts(rec.domain, rec.data.qtype().num(), rec.ttl);
    let head = in_turn(parts);
    let data = in_turn(rdata_parts(rec.data));
    assert(head.error is None && data.error is None);
    holds_part(buf, p, head.bytes, counted(data).bytes);
    let r = p + head.bytes.len();
    holds_part(buf, r, be16((data.bytes.len() % 65536) as u16), data.bytes);
    holds16(buf, r, data.bytes.len() as u16);
    rdata_reads_back(rec, buf, r + 2);
    row_clean(parts);
    part_in_row(parts, 0, buf, p);
    part_in_row(parts, 1, buf, p);
    part_in_row(parts, 2, buf, p);
    part_in_row(parts, 3, buf, p);
    let q = p + named(rec.domain).bytes.len();
    named_reads_back(rec.domain, buf, p);
    holds16(buf, q, rec.data.qtype().num());
    holds32(buf, q + 4, rec.ttl);
    assert(r == q + 8);
}

/// The name and the type of a record that was written stand where it begins.
pub(crate) proof fn written_head_reads_back(rec: RecordView, buf: Seq<u8>, p: int)
    requires
        readable(rec),
        buf.len() == BUF_SIZE,
        record_emission(rec).error is None,
        holds(buf, p, record_emission(rec).bytes),
    ensures
        name_reading(buf, p) matches Ok((name, q)) && name == rec.domain && q + 2 <= BUF_SIZE
            && at16(buf, q) == rec.data.qtype().num(),
{
    let parts = head_parts(rec.domain, rec.data.qtype().num(), rec.ttl);
    let data = in_turn(rdata_parts(rec.data));
    holds_part(buf, p, in_turn(parts).bytes, counted(data).bytes);
    row_clean(parts);
    part_in_row(parts, 0, buf, p);
    part_in_row(parts, 1, buf, p);
    let q = p + named(rec.domain).bytes.len();
    named_reads_back(rec.domain, buf, p);
    holds16(buf, q, rec.data.qtype().num());
}

} // verus!
