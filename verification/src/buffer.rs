//! The buffer that DNS messages are read from and written to.
use vstd::prelude::*;
use vstd::slice::slice_subrange;

use vstd::utf8::encode_utf8;

use crate::name::{
    escaped, label_at, label_at_advances, label_text, labels_from, labels_from_nonempty, name_at,
    name_end, name_wire, unescaped, MAX_JUMPS, MAX_LABEL,
};

verus! {

/// Size of a message buffer in bytes.
pub const BUF_SIZE: usize = 4096;

/// What can go wrong between a message and its wire form.
#[derive(Debug, Clone, Copy, PartialEq, Eq, Structural)]
pub enum WireError {
    /// A read or write past the end of the buffer.
    EndOfBuffer,
    /// A name that follows more pointers than it may.
    JumpLimit,
    /// A label length with the reserved high bits 01 or 10.
    ReservedLabel(u8),
    /// A name's text that ends in a backslash.
    TrailingBackslash,
    /// A decimal escape without its three digits.
    ShortEscape,
    /// A decimal escape above 255.
    EscapeRange(u16),
    /// A label of more than 63 bytes.
    LabelTooLong,
    /// DNSKEY data shorter than its fixed fields.
    DnskeyTooShort,
    /// DS data shorter than its fixed fields.
    DsTooShort,
    /// RRSIG data shorter than its fixed fields and signer name.
    RrsigTooShort,
    /// NSEC data too short for its type bitmap.
    NsecTooShort,
    /// NSEC3 data too short for its type bitmap.
    Nsec3TooShort,
}

/// The two bytes of a number, high byte first.
pub open spec fn be16(v: u16) -> Seq<u8> {
    seq![(v / 256) as u8, (v % 256) as u8]
}

/// The four bytes of a number, high byte first.
pub open spec fn be32(v: u32) -> Seq<u8> {
    seq![(v / 16777216) as u8, (v / 65536 % 256) as u8, (v / 256 % 256) as u8, (v % 256) as u8]
}

/// The number in the two bytes at `p`.
pub open spec fn at16(s: Seq<u8>, p: int) -> u16 {
    (s[p] * 256 + s[p + 1]) as u16
}

/// The number in the four bytes at `p`.
pub open spec fn at32(s: Seq<u8>, p: int) -> u32 {
    (s[p] * 16777216 + s[p + 1] * 65536 + s[p + 2] * 256 + s[p + 3]) as u32
}

/// The bytes `s` with those from `at` on replaced by `part`.
pub open spec fn splice(s: Seq<u8>, at: int, part: Seq<u8>) -> Seq<u8> {
    s.subrange(0, at) + part + s.subrange(at + part.len(), s.len() as int)
}

/// A message buffer: its bytes, the position of the next read or write, and
/// whether a write has failed because the buffer was full.
pub struct BytePacketBuffer {
    pub buf: [u8; 4096],
    pub pos: usize,
    pub overflow: bool,
}

impl BytePacketBuffer {
    /// Whether `other` differs in its position alone.
    pub open spec fn same_but_pos(&self, other: &Self) -> bool {
        other.buf@ == self.buf@ && other.overflow == self.overflow
    }

    /// Whether `other` is this buffer after `part` was written at its position.
    pub open spec fn wrote(&self, other: &Self, part: Seq<u8>) -> bool {
        &&& self.pos + part.len() <= BUF_SIZE
        &&& other.pos == self.pos + part.len()
        &&& other.buf@ == splice(self.buf@, self.pos as int, part)
        &&& other.overflow == self.overflow
    }

    /// Whether `other` is this buffer after a write that did not fit: what
    /// stood before the position still stands.
    pub open spec fn ran_out(&self, other: &Self) -> bool {
        &&& other.overflow
        &&& self.pos <= other.pos
        &&& other.pos <= BUF_SIZE || other.pos == self.pos
        &&& forall|i: int| 0 <= i < self.pos && i < BUF_SIZE ==> other.buf@[i] == self.buf@[i]
    }

    /// An empty buffer.
    pub fn new() -> (r: BytePacketBuffer)
        ensures
            r.buf@ == Seq::new(BUF_SIZE as nat, |i: int| 0u8),
            r.pos == 0,
            !r.overflow,
    {
        let r = BytePacketBuffer { buf: [0; 4096], pos: 0, overflow: false };
        assert(r.buf@ =~= Seq::new(BUF_SIZE as nat, |i: int| 0u8));
        r
    }

    /// A buffer that begins with the given bytes, as far as they fit.
    pub fn from_bytes(data: &[u8]) -> (r: Self)
        ensures
            r.buf@ == Seq::new(
                BUF_SIZE as nat,
                |i: int|
                    if i < data@.len() {
                        data@[i]
                    } else {
                        0u8
                    },
            ),
            r.pos == 0,
            !r.overflow,
    {
        let mut r = Self::new();
        let len: usize = if data.len() < BUF_SIZE {
            data.len()
        } else {
            BUF_SIZE
        };
        let mut i: usize = 0;
        while i < len
            invariant
                i <= len <= BUF_SIZE,
                len <= data@.len(),
                r.pos == 0,
                !r.overflow,
                r.buf@.len() == BUF_SIZE,
                forall|j: int| 0 <= j < i ==> r.buf@[j] == data@[j],
                forall|j: int| i <= j < BUF_SIZE ==> r.buf@[j] == 0u8,
            decreases len - i,
        {
            r.buf[i] = data[i];
            i += 1;
        }
        assert(r.buf@ =~= Seq::new(
            BUF_SIZE as nat,
            |i: int|
                if i < data@.len() {
                    data@[i]
                } else {
                    0u8
                },
        ));
        r
    }

    /// The position of the next read or write.
    pub fn pos(&self) -> (p: usize)
        ensures
            p == self.pos,
    {
        self.pos
    }

    /// The bytes before the position.
    pub fn filled(&self) -> (r: &[u8])
        requires
            self.pos <= BUF_SIZE,
        ensures
            r@ == self.buf@.subrange(0, self.pos as int),
    {
        slice_subrange(self.buf.as_slice(), 0, self.pos)
    }

    /// Whether a write has failed because the buffer was full.
    pub fn overflowed(&self) -> (b: bool)
        ensures
            b == self.overflow,
    {
        self.overflow
    }

    /// Moves the position forward.
    pub fn step(&mut self, steps: usize) -> (r: Result<(), WireError>)
        requires
            old(self).pos + steps <= usize::MAX,
        ensures
            r is Ok,
            final(self).pos == old(self).pos + steps,
            old(self).same_but_pos(final(self)),
    {
        self.pos = self.pos + steps;
        Ok(())
    }

    /// Sets the position.
    pub fn seek(&mut self, pos: usize) -> (r: Result<(), WireError>)
        ensures
            r is Ok,
            final(self).pos == pos,
            old(self).same_but_pos(final(self)),
    {
        self.pos = pos;
        Ok(())
    }

    /// Reads a byte.
    pub fn read(&mut self) -> (r: Result<u8, WireError>)
        ensures
            old(self).same_but_pos(final(self)),
            old(self).pos < BUF_SIZE ==> r == Ok::<u8, WireError>(
                old(self).buf@[old(self).pos as int],
            ) && final(self).pos == old(self).pos + 1,
            old(self).pos >= BUF_SIZE ==> r == Err::<u8, WireError>(WireError::EndOfBuffer)
                && final(self).pos == old(self).pos,
    {
        if self.pos >= BUF_SIZE {
            return Err(WireError::EndOfBuffer);
        }
        let res = self.buf[self.pos];
        self.pos = self.pos + 1;
        Ok(res)
    }

    /// The byte at a position.
    pub fn get(&self, pos: usize) -> (r: Result<u8, WireError>)
        ensures
            pos < BUF_SIZE ==> r == Ok::<u8, WireError>(self.buf@[pos as int]),
            pos >= BUF_SIZE ==> r == Err::<u8, WireError>(WireError::EndOfBuffer),
    {
        if pos >= BUF_SIZE {
            return Err(WireError::EndOfBuffer);
        }
        Ok(self.buf[pos])
    }

    /// The `len` bytes from a position on.
    pub fn get_range(&self, start: usize, len: usize) -> (r: Result<&[u8], WireError>)
        ensures
            match r {
                Ok(s) => start + len <= BUF_SIZE && s@ == self.buf@.subrange(
                    start as int,
                    start + len,
                ),
                Err(e) => start + len > BUF_SIZE && e == WireError::EndOfBuffer,
            },
    {
        if start > BUF_SIZE || len > BUF_SIZE - start {
            return Err(WireError::EndOfBuffer);
        }
        Ok(slice_subrange(self.buf.as_slice(), start, start + len))
    }

    /// Reads a number of two bytes.
    pub fn read_u16(&mut self) -> (r: Result<u16, WireError>)
        ensures
            old(self).same_but_pos(final(self)),
            old(self).pos + 2 <= BUF_SIZE ==> r == Ok::<u16, WireError>(
                at16(old(self).buf@, old(self).pos as int),
            ) && final(self).pos == old(self).pos + 2,
            old(self).pos + 2 > BUF_SIZE ==> r == Err::<u16, WireError>(WireError::EndOfBuffer)
                && final(self).pos == stop_pos(old(self).pos as int),
    {
        let hi = self.read()?;
        let lo = self.read()?;
        Ok(hi as u16 * 256 + lo as u16)
    }

    /// Reads a number of four bytes.
    pub fn read_u32(&mut self) -> (r: Result<u32, WireError>)
        ensures
            old(self).same_but_pos(final(self)),
            old(self).pos + 4 <= BUF_SIZE ==> r == Ok::<u32, WireError>(
                at32(old(self).buf@, old(self).pos as int),
            ) && final(self).pos == old(self).pos + 4,
            old(self).pos + 4 > BUF_SIZE ==> r == Err::<u32, WireError>(WireError::EndOfBuffer)
                && final(self).pos == stop_pos(old(self).pos as int),
    {
        let a = self.read()?;
        let b = self.read()?;
        let c = self.read()?;
        let d = self.read()?;
        Ok(a as u32 * 16777216 + b as u32 * 65536 + c as u32 * 256 + d as u32)
    }

    /// Reads a name, following its pointers, and appends its text. The
    /// position moves behind the name, or behind the first pointer in it.
    pub fn read_qname(&mut self, outstr: &mut String) -> (r: Result<(), WireError>)
        ensures
            ({
                let (text, err) = name_at(old(self).buf@, old(self).pos as int, 0, true);
                &&& final(outstr)@ == old(outstr)@ + text
                &&& r is Ok <==> err is None
                &&& r matches Err(e) ==> err == Some(e)
                &&& old(self).same_but_pos(final(self))
                &&& final(self).pos == match name_end(old(self).buf@, old(self).pos as int) {
                    Some(end) => end,
                    None => old(self).pos as int,
                }
            }),
    {
        let start: usize = self.pos;
        let ghost buf = self.buf@;
        let ghost whole = name_at(buf, start as int, 0, true);
        let ghost before = outstr@;
        let mut pos: usize = start;
        let mut jumped = false;
        let mut jumps: usize = 0;
        let mut first = true;
        proof {
            assert(before + Seq::<char>::empty() =~= before);
            assert(before + whole.0 =~= before + whole.0);
        }
        loop
            invariant
                buf.len() == BUF_SIZE,
                buf == old(self).buf@,
                start == old(self).pos,
                before == old(outstr)@,
                whole == name_at(buf, start as int, 0, true),
                old(self).same_but_pos(self),
                pos <= 0xffff || (pos == start && !jumped),
                jumps <= MAX_JUMPS + 1,
                jumped <==> jumps > 0,
                !jumped ==> self.pos == start && name_end(buf, start as int) == name_end(
                    buf,
                    pos as int,
                ),
                jumped ==> name_end(buf, start as int) == Some(self.pos as int),
                ({
                    let (rest, err) = name_at(buf, pos as int, jumps as int, first);
                    whole.1 == err && before + whole.0 == outstr@ + rest
                }),
            decreases MAX_JUMPS + 1 - jumps, BUF_SIZE - pos,
        {
            let ghost now = outstr@;
            if jumps > MAX_JUMPS {
                assert(now + Seq::<char>::empty() =~= now);
                return Err(WireError::JumpLimit);
            }
            let len = match self.get(pos) {
                Ok(b) => b,
                Err(e) => {
                    assert(now + Seq::<char>::empty() =~= now);
                    return Err(e);
                },
            };
            if len >= 0xc0 {
                if !jumped {
                    self.pos = pos + 2;
                }
                let b2 = match self.get(pos + 1) {
                    Ok(b) => b,
                    Err(e) => {
                        assert(now + Seq::<char>::empty() =~= now);
                        return Err(e);
                    },
                };
                pos = (len as usize - 0xc0) * 256 + b2 as usize;
                jumped = true;
                jumps = jumps + 1;
            } else if len >= 0x40 {
                assert(now + Seq::<char>::empty() =~= now);
                return Err(WireError::ReservedLabel(len));
            } else if len == 0 {
                assert(now + Seq::<char>::empty() =~= now);
                if !jumped {
                    self.pos = pos + 1;
                }
                return Ok(());
            } else {
                if !first {
                    outstr.push('.');
                }
                let ghost dot = if first {
                    Seq::<char>::empty()
                } else {
                    seq!['.']
                };
                assert(outstr@ =~= now + dot);
                let label = match self.get_range(pos + 1, len as usize) {
                    Ok(l) => l,
                    Err(e) => {
                        return Err(e);
                    },
                };
                push_label(label, outstr);
                proof {
                    let part = label_text(label@);
                    let (rest, err) = name_at(buf, pos + 1 + len, jumps as int, false);
                    assert(now + (dot + part + rest) =~= now + dot + part + rest);
                }
                first = false;
                pos = pos + 1 + len as usize;
            }
        }
    }

    /// Writes a byte.
    pub fn write(&mut self, val: u8) -> (r: Result<(), WireError>)
        ensures
            r is Ok <==> old(self).pos < BUF_SIZE,
            r is Ok ==> old(self).wrote(final(self), seq![val]),
            r matches Err(e) ==> e == WireError::EndOfBuffer && old(self).ran_out(final(self))
                && final(self).buf@ == old(self).buf@ && final(self).pos == old(self).pos,
    {
        if self.pos >= BUF_SIZE {
            self.overflow = true;
            return Err(WireError::EndOfBuffer);
        }
        let at: usize = self.pos;
        self.buf[at] = val;
        self.pos = at + 1;
        assert(self.buf@ =~= splice(old(self).buf@, at as int, seq![val]));
        Ok(())
    }

    /// Writes a byte.
    pub fn write_u8(&mut self, val: u8) -> (r: Result<(), WireError>)
        ensures
            r is Ok <==> old(self).pos < BUF_SIZE,
            r is Ok ==> old(self).wrote(final(self), seq![val]),
            r matches Err(e) ==> e == WireError::EndOfBuffer && old(self).ran_out(final(self))
                && final(self).buf@ == old(self).buf@ && final(self).pos == old(self).pos,
    {
        self.write(val)
    }

    /// Writes a number in two bytes.
    pub fn write_u16(&mut self, val: u16) -> (r: Result<(), WireError>)
        ensures
            r is Ok <==> old(self).pos + 2 <= BUF_SIZE,
            r is Ok ==> old(self).wrote(final(self), be16(val)),
            r matches Err(e) ==> e == WireError::EndOfBuffer && old(self).ran_out(final(self))
                && final(self).pos == stop_pos(old(self).pos as int),
    {
        self.write((val / 256) as u8)?;
        self.write((val % 256) as u8)?;
        assert(self.buf@ =~= splice(old(self).buf@, old(self).pos as int, be16(val)));
        Ok(())
    }

    /// Writes a number in four bytes.
    pub fn write_u32(&mut self, val: u32) -> (r: Result<(), WireError>)
        ensures
            r is Ok <==> old(self).pos + 4 <= BUF_SIZE,
            r is Ok ==> old(self).wrote(final(self), be32(val)),
            r matches Err(e) ==> e == WireError::EndOfBuffer && old(self).ran_out(final(self))
                && final(self).pos == stop_pos(old(self).pos as int),
    {
        self.write((val / 16777216) as u8)?;
        self.write((val / 65536 % 256) as u8)?;
        self.write((val / 256 % 256) as u8)?;
        self.write((val % 256) as u8)?;
        assert(self.buf@ =~= splice(old(self).buf@, old(self).pos as int, be32(val)));
        Ok(())
    }

    /// Writes a name from its text. Where the text breaks off in an error and
    /// the bytes up to there fit, those are written.
    pub fn write_qname(&mut self, qname: &str) -> (r: Result<(), WireError>)
        ensures
            ({
                let (wire, err) = name_wire(encode_utf8(qname@));
                if old(self).pos + wire.len() <= BUF_SIZE {
                    &&& r is Ok <==> err is None
                    &&& r matches Err(e) ==> err == Some(e)
                    &&& old(self).wrote(final(self), wire)
                } else {
                    &&& r == Err::<(), WireError>(WireError::EndOfBuffer)
                    &&& old(self).ran_out(final(self))
                }
            }),
    {
        let bytes = qname.as_bytes();
        let ghost s = bytes@;
        let ghost whole = name_wire(s);
        let ghost mut done = Seq::<u8>::empty();
        let ghost start_pos = self.pos as int;
        let mut i: usize = 0;
        proof {
            labels_from_nonempty(s, 0);
            assert(done + whole.0 =~= whole.0);
        }
        if self.pos >= BUF_SIZE {
            self.overflow = true;
            return Err(WireError::EndOfBuffer);
        }
        assert(splice(self.buf@, self.pos as int, done) =~= self.buf@);
        while i < bytes.len()
            invariant
                s == bytes@,
                s == encode_utf8(qname@),
                whole == name_wire(s),
                i <= s.len(),
                start_pos == old(self).pos,
                old(self).wrote(self, done),
                whole.0 == done + labels_from(s, i as int).0,
                whole.1 == labels_from(s, i as int).1,
            decreases s.len() - i,
        {
            if bytes[i] == 46 {
                i += 1;
            } else {
                let ghost (label, next, err) = label_at(s, i as int, Seq::empty());
                let ghost rest = labels_from(s, next);
                let ghost at = i as int;
                proof {
                    label_at_advances(s, at, Seq::empty());
                    assert(labels_from(s, at) == if err is Some {
                        (seq![0u8] + label, err)
                    } else {
                        (seq![label.len() as u8] + label + rest.0, rest.1)
                    });
                }
                let len_pos: usize = self.pos;
                let ghost mut body = Seq::<u8>::empty();
                self.write_u8(0)?;
                proof {
                    assert(done + (seq![0u8] + body) =~= done.push(0u8));
                    assert(self.buf@ =~= splice(old(self).buf@, start_pos, done.push(0u8)));
                }
                while i < bytes.len() && bytes[i] != 46
                    invariant
                        s == bytes@,
                        s == encode_utf8(qname@),
                        whole == name_wire(s),
                        at <= i <= s.len(),
                        start_pos == old(self).pos,
                        body.len() <= MAX_LABEL,
                        label_at(s, i as int, body) == (label, next, err),
                        old(self).wrote(self, done + (seq![0u8] + body)),
                        len_pos == start_pos + done.len(),
                        whole.0 == done + labels_from(s, at).0,
                        whole.1 == labels_from(s, at).1,
                        labels_from(s, at) == if err is Some {
                            (seq![0u8] + label, err)
                        } else {
                            (seq![label.len() as u8] + label + rest.0, rest.1)
                        },
                    decreases s.len() - i,
                {
                    proof {
                        label_at_advances(s, i as int, body);
                    }
                    let ghost unit = unescaped(s, i as int);
                    let val: u8;
                    let step: usize;
                    if bytes[i] == 92 {
                        if i + 1 >= bytes.len() {
                            return Err(WireError::TrailingBackslash);
                        }
                        let c1 = bytes[i + 1];
                        if 48 <= c1 && c1 <= 57 {
                            if bytes.len() - i <= 3 {
                                return Err(WireError::ShortEscape);
                            }
                            let c2 = bytes[i + 2];
                            let c3 = bytes[i + 3];
                            if c2 < 48 || c2 > 57 || c3 < 48 || c3 > 57 {
                                return Err(WireError::ShortEscape);
                            }
                            let v: u16 = (c1 - 48) as u16 * 100 + (c2 - 48) as u16 * 10 + (c3
                                - 48) as u16;
                            if v > 255 {
                                return Err(WireError::EscapeRange(v));
                            }
                            val = v as u8;
                            step = 4;
                        } else {
                            val = c1;
                            step = 2;
                        }
                    } else {
                        val = bytes[i];
                        step = 1;
                    }
                    assert(unit == Ok::<(u8, int), WireError>((val, i + step)));
                    let ghost longer = body.push(val);
                    proof {
                        if longer.len() <= MAX_LABEL {
                            label_at_advances(s, i + step, longer);
                        }
                    }
                    let ghost before = self.buf@;
                    self.write_u8(val)?;
                    proof {
                        assert(done + (seq![0u8] + longer) =~= (done + (seq![0u8] + body)).push(
                            val,
                        ));
                        assert(self.buf@ =~= splice(
                            old(self).buf@,
                            start_pos,
                            done + (seq![0u8] + longer),
                        ));
                        body = longer;
                    }
                    i = i + step;
                    if self.pos - len_pos > MAX_LABEL + 1 {
                        return Err(WireError::LabelTooLong);
                    }
                }
                assert(body == label && err is None);
                let label_len: usize = self.pos - len_pos - 1;
                self.buf[len_pos] = label_len as u8;
                proof {
                    let part = seq![label.len() as u8] + label;
                    assert(self.buf@ =~= splice(old(self).buf@, start_pos, done + part));
                    assert(done + (part + rest.0) =~= (done + part) + rest.0);
                    done = done + part;
                }
            }
        }
        proof {
            assert(whole.0 =~= done.push(0u8));
        }
        self.write_u8(0)?;
        assert(self.buf@ =~= splice(old(self).buf@, start_pos, whole.0));
        Ok(())
    }

    /// Writes bytes, all or none.
    pub fn write_bytes(&mut self, data: &[u8]) -> (r: Result<(), WireError>)
        ensures
            r is Ok <==> old(self).pos + data@.len() <= BUF_SIZE,
            r is Ok ==> old(self).wrote(final(self), data@),
            r matches Err(e) ==> e == WireError::EndOfBuffer && old(self).ran_out(final(self))
                && final(self).buf@ == old(self).buf@ && final(self).pos == old(self).pos,
    {
        if self.pos > BUF_SIZE || data.len() > BUF_SIZE - self.pos {
            self.overflow = true;
            return Err(WireError::EndOfBuffer);
        }
        let start: usize = self.pos;
        let mut i: usize = 0;
        while i < data.len()
            invariant
                i <= data@.len(),
                start == old(self).pos,
                start + data@.len() <= BUF_SIZE,
                self.overflow == old(self).overflow,
                self.buf@.len() == BUF_SIZE,
                old(self).buf@.len() == BUF_SIZE,
                forall|j: int|
                    0 <= j < BUF_SIZE ==> self.buf@[j] == if start <= j < start + i {
                        data@[j - start]
                    } else {
                        old(self).buf@[j]
                    },
            decreases data@.len() - i,
        {
            self.buf[start + i] = data[i];
            i += 1;
        }
        self.pos = start + data.len();
        assert(self.buf@ =~= splice(old(self).buf@, start as int, data@));
        Ok(())
    }

    /// Overwrites the byte at a position.
    pub fn set(&mut self, pos: usize, val: u8) -> (r: Result<(), WireError>)
        ensures
            r is Ok <==> pos < BUF_SIZE,
            r matches Err(e) ==> e == WireError::EndOfBuffer && final(self).buf@ == old(self).buf@,
            r is Ok ==> final(self).buf@ == old(self).buf@.update(pos as int, val),
            final(self).pos == old(self).pos,
            final(self).overflow == old(self).overflow,
    {
        if pos >= BUF_SIZE {
            return Err(WireError::EndOfBuffer);
        }
        self.buf[pos] = val;
        Ok(())
    }

    /// Overwrites the two bytes at a position. The first is overwritten even
    /// where the second does not fit.
    pub fn set_u16(&mut self, pos: usize, val: u16) -> (r: Result<(), WireError>)
        ensures
            r is Ok <==> pos + 2 <= BUF_SIZE,
            r is Ok ==> final(self).buf@ == splice(old(self).buf@, pos as int, be16(val)),
            r matches Err(e) ==> e == WireError::EndOfBuffer && final(self).buf@ == (if pos
                < BUF_SIZE {
                old(self).buf@.update(pos as int, (val / 256) as u8)
            } else {
                old(self).buf@
            }),
            final(self).pos == old(self).pos,
            final(self).overflow == old(self).overflow,
    {
        self.set(pos, (val / 256) as u8)?;
        self.set(pos + 1, (val % 256) as u8)?;
        assert(self.buf@ =~= splice(old(self).buf@, pos as int, be16(val)));
        Ok(())
    }
}

/// Where a run of byte reads or writes from `pos` on stops that finds no room.
pub open spec fn stop_pos(pos: int) -> int {
    if pos < BUF_SIZE {
        BUF_SIZE as int
    } else {
        pos
    }
}

impl Default for BytePacketBuffer {
    fn default() -> (r: Self)
        ensures
            r.buf@ == Seq::new(BUF_SIZE as nat, |i: int| 0u8),
            r.pos == 0,
            !r.overflow,
    {
        Self::new()
    }
}

/// Appends the text that stands for a label.
fn push_label(label: &[u8], out: &mut String)
    ensures
        final(out)@ == old(out)@ + label_text(label@),
{
    let mut i: usize = 0;
    assert(label@.subrange(0, 0) =~= Seq::<u8>::empty());
    assert(out@ =~= old(out)@ + label_text(label@.subrange(0, 0)));
    while i < label.len()
        invariant
            i <= label.len(),
            out@ == old(out)@ + label_text(label@.subrange(0, i as int)),
        decreases label.len() - i,
    {
        let ghost now = out@;
        let b = label[i];
        let c: u8 = if 65 <= b && b <= 90 {
            b + 32
        } else {
            b
        };
        if c == 46 {
            out.push('\\');
            out.push('.');
        } else if c == 92 {
            out.push('\\');
            out.push('\\');
        } else if 0x21 <= c && c <= 0x7e {
            out.push(c as char);
        } else {
            out.push('\\');
            out.push((48 + c / 100) as char);
            out.push((48 + c / 10 % 10) as char);
            out.push((48 + c % 10) as char);
        }
        proof {
            let done = label@.subrange(0, i + 1);
            assert(done.drop_last() =~= label@.subrange(0, i as int));
            assert(done.last() == b);
            assert(out@ =~= now + escaped(b));
            assert(old(out)@ + (label_text(done.drop_last()) + escaped(b)) =~= old(out)@
                + label_text(done.drop_last()) + escaped(b));
        }
        i += 1;
    }
    assert(label@.subrange(0, label@.len() as int) =~= label@);
}

} // verus!
