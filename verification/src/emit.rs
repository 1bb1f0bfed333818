//! Writing one part after another into a message buffer.
use vstd::prelude::*;
use vstd::utf8::encode_utf8;

use crate::buffer::{be16, be32, splice, BytePacketBuffer, WireError, BUF_SIZE};
use crate::name::name_wire;

verus! {

/// What writing something comes to: the bytes up to where it ends or breaks
/// off, and the error that it breaks off with.
pub struct Emission {
    pub bytes: Seq<u8>,
    pub error: Option<WireError>,
}

/// Bytes that are written as they are.
pub open spec fn plain(bytes: Seq<u8>) -> Emission {
    Emission { bytes, error: None }
}

/// A name that is written from its text.
pub open spec fn named(text: Seq<char>) -> Emission {
    let (bytes, error) = name_wire(encode_utf8(text));
    Emission { bytes, error }
}

/// One thing written after another, unless the first breaks off.
pub open spec fn after(first: Emission, second: Emission) -> Emission {
    if first.error is Some {
        first
    } else {
        Emission { bytes: first.bytes + second.bytes, error: second.error }
    }
}

/// Things written one after another, up to the first that breaks off.
pub open spec fn in_turn(parts: Seq<Emission>) -> Emission
    decreases parts.len(),
{
    if parts.len() == 0 {
        plain(Seq::empty())
    } else {
        after(in_turn(parts.drop_last()), parts.last())
    }
}

/// Whether a write that turned `old` into `new` and returned `r` was the
/// writing of `e`. Where the bytes fit, they stand in the buffer, and the
/// result is their error. Where they do not, the buffer has overflowed, and
/// what stood before the position still stands.
pub open spec fn emitted(
    old: BytePacketBuffer,
    new: BytePacketBuffer,
    r: Result<(), WireError>,
    e: Emission,
) -> bool {
    if old.pos + e.bytes.len() <= BUF_SIZE {
        &&& r is Ok <==> e.error is None
        &&& r matches Err(x) ==> e.error == Some(x)
        &&& old.wrote(&new, e.bytes)
    } else {
        &&& r == Err::<(), WireError>(WireError::EndOfBuffer)
        &&& old.ran_out(&new)
    }
}

/// What was written, written after what was written before.
pub proof fn emitted_after(
    a: BytePacketBuffer,
    b: BytePacketBuffer,
    c: BytePacketBuffer,
    r: Result<(), WireError>,
    first: Emission,
    second: Emission,
)
    requires
        emitted(a, b, Ok(()), first),
        emitted(b, c, r, second),
    ensures
        emitted(a, c, r, after(first, second)),
{
    let both = after(first, second);
    assert(first.error is None);
    if a.pos + both.bytes.len() <= BUF_SIZE {
        assert(c.buf@ =~= splice(a.buf@, a.pos as int, both.bytes));
    }
}

/// A part that could not be written ends the whole.
pub proof fn emitted_whole(
    a: BytePacketBuffer,
    b: BytePacketBuffer,
    x: WireError,
    parts: Seq<Emission>,
    k: int,
)
    requires
        0 <= k <= parts.len(),
        emitted(a, b, Err(x), in_turn(parts.subrange(0, k))),
    ensures
        emitted(a, b, Err(x), in_turn(parts)),
    decreases parts.len() - k,
{
    if k < parts.len() {
        let some = parts.subrange(0, k);
        let more = parts.subrange(0, k + 1);
        assert(more.drop_last() =~= some);
        emitted_whole(a, b, x, parts, k + 1);
    } else {
        assert(parts.subrange(0, k) =~= parts);
    }
}

/// Nothing written is the empty row of parts.
pub proof fn emitted_none(a: BytePacketBuffer, parts: Seq<Emission>)
    requires
        a.pos <= BUF_SIZE,
    ensures
        emitted(a, a, Ok(()), in_turn(parts.subrange(0, 0))),
{
    assert(splice(a.buf@, a.pos as int, Seq::empty()) =~= a.buf@);
    assert(parts.subrange(0, 0).len() == 0);
}

/// The next part written, in a row of parts of which `k` were written before.
pub proof fn emitted_next(
    a: BytePacketBuffer,
    b: BytePacketBuffer,
    c: BytePacketBuffer,
    r: Result<(), WireError>,
    parts: Seq<Emission>,
    k: int,
)
    requires
        0 <= k < parts.len(),
        emitted(a, b, Ok(()), in_turn(parts.subrange(0, k))),
        emitted(b, c, r, parts[k]),
    ensures
        emitted(a, c, r, in_turn(parts.subrange(0, k + 1))),
        r is Err ==> emitted(a, c, r, in_turn(parts)),
        k + 1 == parts.len() ==> emitted(a, c, r, in_turn(parts)),
{
    let more = parts.subrange(0, k + 1);
    assert(more.drop_last() =~= parts.subrange(0, k));
    emitted_after(a, b, c, r, in_turn(parts.subrange(0, k)), parts[k]);
    if let Err(x) = r {
        emitted_whole(a, c, x, parts, k + 1);
    }
    if k + 1 == parts.len() {
        assert(more =~= parts);
    }
}

/// Writes a byte as part `k` of a row of parts.
pub(crate) fn put_u8(
    buffer: &mut BytePacketBuffer,
    v: u8,
    Ghost(start): Ghost<BytePacketBuffer>,
    Ghost(parts): Ghost<Seq<Emission>>,
    Ghost(k): Ghost<int>,
) -> (r: Result<(), WireError>)
    requires
        0 <= k < parts.len(),
        parts[k] == plain(seq![v]),
        emitted(start, *old(buffer), Ok(()), in_turn(parts.subrange(0, k))),
    ensures
        emitted(start, *final(buffer), r, in_turn(parts.subrange(0, k + 1))),
        r is Err || k + 1 == parts.len() ==> emitted(start, *final(buffer), r, in_turn(parts)),
{
    let r = buffer.write_u8(v);
    proof {
        emitted_next(start, *old(buffer), *buffer, r, parts, k);
    }
    r
}

/// Writes a number in two bytes as part `k` of a row of parts.
pub(crate) fn put_u16(
    buffer: &mut BytePacketBuffer,
    v: u16,
    Ghost(start): Ghost<BytePacketBuffer>,
    Ghost(parts): Ghost<Seq<Emission>>,
    Ghost(k): Ghost<int>,
) -> (r: Result<(), WireError>)
    requires
        0 <= k < parts.len(),
        parts[k] == plain(be16(v)),
        emitted(start, *old(buffer), Ok(()), in_turn(parts.subrange(0, k))),
    ensures
        emitted(start, *final(buffer), r, in_turn(parts.subrange(0, k + 1))),
        r is Err || k + 1 == parts.len() ==> emitted(start, *final(buffer), r, in_turn(parts)),
{
    let r = buffer.write_u16(v);
    proof {
        emitted_next(start, *old(buffer), *buffer, r, parts, k);
    }
    r
}

/// Writes a number in four bytes as part `k` of a row of parts.
pub(crate) fn put_u32(
    buffer: &mut BytePacketBuffer,
    v: u32,
    Ghost(start): Ghost<BytePacketBuffer>,
    Ghost(parts): Ghost<Seq<Emission>>,
    Ghost(k): Ghost<int>,
) -> (r: Result<(), WireError>)
    requires
        0 <= k < parts.len(),
        parts[k] == plain(be32(v)),
        emitted(start, *old(buffer), Ok(()), in_turn(parts.subrange(0, k))),
    ensures
        emitted(start, *final(buffer), r, in_turn(parts.subrange(0, k + 1))),
        r is Err || k + 1 == parts.len() ==> emitted(start, *final(buffer), r, in_turn(parts)),
{
    let r = buffer.write_u32(v);
    proof {
        emitted_next(start, *old(buffer), *buffer, r, parts, k);
    }
    r
}

/// Writes bytes as part `k` of a row of parts.
pub(crate) fn put_bytes(
    buffer: &mut BytePacketBuffer,
    v: &[u8],
    Ghost(start): Ghost<BytePacketBuffer>,
    Ghost(parts): Ghost<Seq<Emission>>,
    Ghost(k): Ghost<int>,
) -> (r: Result<(), WireError>)
    requires
        0 <= k < parts.len(),
        parts[k] == plain(v@),
        emitted(start, *old(buffer), Ok(()), in_turn(parts.subrange(0, k))),
    ensures
        emitted(start, *final(buffer), r, in_turn(parts.subrange(0, k + 1))),
        r is Err || k + 1 == parts.len() ==> emitted(start, *final(buffer), r, in_turn(parts)),
{
    let r = buffer.write_bytes(v);
    proof {
        emitted_next(start, *old(buffer), *buffer, r, parts, k);
    }
    r
}

/// Writes a name as part `k` of a row of parts.
pub(crate) fn put_name(
    buffer: &mut BytePacketBuffer,
    v: &str,
    Ghost(start): Ghost<BytePacketBuffer>,
    Ghost(parts): Ghost<Seq<Emission>>,
    Ghost(k): Ghost<int>,
) -> (r: Result<(), WireError>)
    requires
        0 <= k < parts.len(),
        parts[k] == named(v@),
        emitted(start, *old(buffer), Ok(()), in_turn(parts.subrange(0, k))),
    ensures
        emitted(start, *final(buffer), r, in_turn(parts.subrange(0, k + 1))),
        r is Err || k + 1 == parts.len() ==> emitted(start, *final(buffer), r, in_turn(parts)),
{
    let r = buffer.write_qname(v);
    proof {
        emitted_next(start, *old(buffer), *buffer, r, parts, k);
    }
    r
}

} // verus!
