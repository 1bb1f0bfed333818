//! Domain names: the wire form of RFC 1035 section 4.1.4 and the text form
//! with the escapes of section 5.1, and what each becomes in the other.
use vstd::prelude::*;
use vstd::utf8::{encode_utf8, is_ascii_chars, is_ascii_chars_encode_utf8};

use crate::buffer::WireError;
use crate::buffer::BUF_SIZE;

verus! {

/// Pointers that a name may follow; the one after these is an error.
pub const MAX_JUMPS: usize = 5;

/// The most bytes that one label may hold.
pub const MAX_LABEL: usize = 63;

/// An ASCII letter byte in lower case; any other byte unchanged.
pub open spec fn lower_byte(b: u8) -> u8 {
    if 65 <= b <= 90 {
        (b + 32) as u8
    } else {
        b
    }
}

/// The text that stands for one byte of a label: the byte in lower case, with
/// a backslash before a dot or a backslash, and as a backslash and three
/// decimal digits where it is not a printing ASCII character.
pub open spec fn escaped(b: u8) -> Seq<char> {
    let c = lower_byte(b);
    if c == 46 {
        seq!['\\', '.']
    } else if c == 92 {
        seq!['\\', '\\']
    } else if 0x21 <= c <= 0x7e {
        seq![c as char]
    } else {
        seq![
            '\\',
            ((48 + c / 100) as u8) as char,
            ((48 + c / 10 % 10) as u8) as char,
            ((48 + c % 10) as u8) as char,
        ]
    }
}

/// The text that stands for a label.
pub open spec fn label_text(label: Seq<u8>) -> Seq<char>
    decreases label.len(),
{
    if label.len() == 0 {
        Seq::empty()
    } else {
        label_text(label.drop_last()) + escaped(label.last())
    }
}

/// What reading the name at `pos` yields: the text up to where reading ends,
/// and the error that ends it, if one does. `jumps` pointers were followed to
/// get here, and `first` says that no label came before.
pub open spec fn name_at(buf: Seq<u8>, pos: int, jumps: int, first: bool) -> (
    Seq<char>,
    Option<WireError>,
)
    decreases MAX_JUMPS + 1 - jumps, BUF_SIZE - pos,
{
    if jumps > MAX_JUMPS {
        (Seq::empty(), Some(WireError::JumpLimit))
    } else if pos < 0 || pos >= BUF_SIZE {
        (Seq::empty(), Some(WireError::EndOfBuffer))
    } else {
        let len = buf[pos];
        if len >= 0xc0 {
            if pos + 1 >= BUF_SIZE {
                (Seq::empty(), Some(WireError::EndOfBuffer))
            } else {
                name_at(buf, (len - 0xc0) * 256 + buf[pos + 1], jumps + 1, first)
            }
        } else if len >= 0x40 {
            (Seq::empty(), Some(WireError::ReservedLabel(len)))
        } else if len == 0 {
            (Seq::empty(), None)
        } else {
            let dot = if first {
                Seq::<char>::empty()
            } else {
                seq!['.']
            };
            if pos + 1 + len > BUF_SIZE {
                (dot, Some(WireError::EndOfBuffer))
            } else {
                let (rest, err) = name_at(buf, pos + 1 + len, jumps, false);
                (dot + label_text(buf.subrange(pos + 1, pos + 1 + len)) + rest, err)
            }
        }
    }
}

/// Where the name at `pos` ends in line: after its root label, or after the
/// first pointer in it. Nothing where neither comes.
pub open spec fn name_end(buf: Seq<u8>, pos: int) -> Option<int>
    decreases BUF_SIZE - pos,
{
    if pos < 0 || pos >= BUF_SIZE {
        None
    } else {
        let len = buf[pos];
        if len >= 0xc0 {
            Some(pos + 2)
        } else if len >= 0x40 {
            None
        } else if len == 0 {
            Some(pos + 1)
        } else if pos + 1 + len > BUF_SIZE {
            None
        } else {
            name_end(buf, pos + 1 + len)
        }
    }
}

/// Whether a byte is an ASCII digit.
pub open spec fn digit_byte(b: u8) -> bool {
    48 <= b <= 57
}

/// The byte that the text at `i` stands for, and where the text goes on.
pub open spec fn unescaped(s: Seq<u8>, i: int) -> Result<(u8, int), WireError> {
    if s[i] != 92 {
        Ok((s[i], i + 1))
    } else if i + 1 >= s.len() {
        Err(WireError::TrailingBackslash)
    } else if !digit_byte(s[i + 1]) {
        Ok((s[i + 1], i + 2))
    } else if i + 3 >= s.len() || !digit_byte(s[i + 2]) || !digit_byte(s[i + 3]) {
        Err(WireError::ShortEscape)
    } else {
        let v = (s[i + 1] - 48) * 100 + (s[i + 2] - 48) * 10 + (s[i + 3] - 48);
        if v > 255 {
            Err(WireError::EscapeRange(v as u16))
        } else {
            Ok((v as u8, i + 4))
        }
    }
}

/// The label whose text goes on at `i`, of which `body` was read before: its
/// bytes up to where its text ends or breaks off, that position, and the error
/// that it breaks off with.
pub open spec fn label_at(s: Seq<u8>, i: int, body: Seq<u8>) -> (Seq<u8>, int, Option<WireError>)
    decreases s.len() - i,
{
    if i < 0 || i >= s.len() || s[i] == 46 {
        (body, i, None)
    } else {
        match unescaped(s, i) {
            Err(e) => (body, i, Some(e)),
            Ok((b, next)) => if body.len() + 1 > MAX_LABEL {
                (body.push(b), next, Some(WireError::LabelTooLong))
            } else {
                label_at(s, next, body.push(b))
            },
        }
    }
}

/// The wire bytes of the name whose text goes on at `i`, up to where they end
/// or break off, and the error that they break off with. Empty labels count
/// for nothing. A label that breaks off has a zero in place of its length.
pub open spec fn labels_from(s: Seq<u8>, i: int) -> (Seq<u8>, Option<WireError>)
    decreases s.len() - i,
    via labels_from_terminates
{
    if i < 0 || i >= s.len() {
        (seq![0u8], None)
    } else if s[i] == 46 {
        labels_from(s, i + 1)
    } else {
        let (body, next, err) = label_at(s, i, Seq::empty());
        if err is Some {
            (seq![0u8] + body, err)
        } else {
            let (rest, e) = labels_from(s, next);
            (seq![body.len() as u8] + body + rest, e)
        }
    }
}

#[via_fn]
proof fn labels_from_terminates(s: Seq<u8>, i: int) {
    if 0 <= i < s.len() && s[i] != 46 {
        label_at_advances(s, i, Seq::empty());
    }
}

/// A label's text ends within the name's text, and is not empty where it does
/// not begin with a dot. Its bytes are at most as many as a label may hold.
pub proof fn label_at_advances(s: Seq<u8>, i: int, body: Seq<u8>)
    requires
        0 <= i <= s.len(),
        body.len() <= MAX_LABEL,
    ensures
        ({
            let (bytes, next, err) = label_at(s, i, body);
            &&& i <= next <= s.len()
            &&& bytes.len() >= body.len()
            &&& err is None ==> bytes.len() <= MAX_LABEL
            &&& err is None ==> next == s.len() || s[next] == 46
            &&& err is None && i < s.len() && s[i] != 46 ==> next > i && bytes.len() > body.len()
        }),
    decreases s.len() - i,
{
    if i < s.len() && s[i] != 46 {
        if let Ok((b, next)) = unescaped(s, i) {
            if body.len() + 1 <= MAX_LABEL {
                label_at_advances(s, next, body.push(b));
            }
        }
    }
}

/// The wire form of a name, whole or broken off, is not empty.
pub proof fn labels_from_nonempty(s: Seq<u8>, i: int)
    requires
        0 <= i <= s.len(),
    ensures
        labels_from(s, i).0.len() >= 1,
    decreases s.len() - i,
{
    if i < s.len() {
        if s[i] == 46 {
            labels_from_nonempty(s, i + 1);
        }
    }
}

/// The wire bytes of the name with this text, and the error that the text ends in.
pub open spec fn name_wire(s: Seq<u8>) -> (Seq<u8>, Option<WireError>) {
    labels_from(s, 0)
}

// ---------------------------------------------------------------------------
// What the two forms of a name have to do with each other
// ---------------------------------------------------------------------------

/// Whether each label holds 1 to 63 bytes.
pub open spec fn labels_ok(labels: Seq<Seq<u8>>) -> bool {
    forall|i: int| 0 <= i < labels.len() ==> 1 <= (#[trigger] labels[i]).len() <= MAX_LABEL
}

/// The wire form of a name with these labels.
pub open spec fn wire_of(labels: Seq<Seq<u8>>) -> Seq<u8>
    decreases labels.len(),
{
    if labels.len() == 0 {
        seq![0u8]
    } else {
        seq![labels[0].len() as u8] + labels[0] + wire_of(labels.drop_first())
    }
}

/// The text of a name with these labels, with a dot before it unless it comes first.
pub open spec fn text_of(labels: Seq<Seq<u8>>, first: bool) -> Seq<char>
    decreases labels.len(),
{
    if labels.len() == 0 {
        Seq::empty()
    } else {
        (if first {
            Seq::<char>::empty()
        } else {
            seq!['.']
        }) + label_text(labels[0]) + text_of(labels.drop_first(), false)
    }
}

/// The labels of the name whose text goes on at `i`.
pub open spec fn labels_of(s: Seq<u8>, i: int) -> Seq<Seq<u8>>
    decreases s.len() - i,
    via labels_of_terminates
{
    if i < 0 || i >= s.len() {
        Seq::empty()
    } else if s[i] == 46 {
        labels_of(s, i + 1)
    } else {
        let (body, next, err) = label_at(s, i, Seq::empty());
        if err is Some {
            Seq::empty()
        } else {
            seq![body] + labels_of(s, next)
        }
    }
}

#[via_fn]
proof fn labels_of_terminates(s: Seq<u8>, i: int) {
    if 0 <= i < s.len() && s[i] != 46 {
        label_at_advances(s, i, Seq::empty());
    }
}

/// Bytes with every ASCII letter in lower case.
pub open spec fn lower_bytes(s: Seq<u8>) -> Seq<u8> {
    s.map_values(|b: u8| lower_byte(b))
}

/// Labels with every ASCII letter in lower case.
pub open spec fn lower_labels(labels: Seq<Seq<u8>>) -> Seq<Seq<u8>> {
    labels.map_values(|l: Seq<u8>| lower_bytes(l))
}

/// A text without errors is written as the wire form of its labels.
pub proof fn written_name_is_labels(s: Seq<u8>, i: int)
    requires
        0 <= i <= s.len(),
        labels_from(s, i).1 is None,
    ensures
        labels_ok(labels_of(s, i)),
        labels_from(s, i).0 == wire_of(labels_of(s, i)),
    decreases s.len() - i,
{
    if i < s.len() {
        if s[i] == 46 {
            written_name_is_labels(s, i + 1);
        } else {
            label_at_advances(s, i, Seq::empty());
            let (body, next, err) = label_at(s, i, Seq::empty());
            written_name_is_labels(s, next);
            assert(labels_of(s, i).drop_first() =~= labels_of(s, next));
        }
    }
}

/// The wire form of labels is read back as their text, to its last byte.
pub proof fn labels_read_back(
    buf: Seq<u8>,
    pos: int,
    labels: Seq<Seq<u8>>,
    jumps: int,
    first: bool,
)
    requires
        labels_ok(labels),
        buf.len() == BUF_SIZE,
        0 <= pos,
        pos + wire_of(labels).len() <= BUF_SIZE,
        buf.subrange(pos, pos + wire_of(labels).len()) == wire_of(labels),
        0 <= jumps <= MAX_JUMPS,
    ensures
        name_at(buf, pos, jumps, first) == (text_of(labels, first), None::<WireError>),
        name_end(buf, pos) == Some(pos + wire_of(labels).len()),
    decreases labels.len(),
{
    let wire = wire_of(labels);
    assert(buf[pos] == wire[0]) by {
        assert(buf.subrange(pos, pos + wire.len())[0] == wire[0]);
    }
    if labels.len() > 0 {
        let l = labels[0];
        let rest = labels.drop_first();
        let next = pos + 1 + l.len();
        assert(labels_ok(rest)) by {
            assert forall|i: int| 0 <= i < rest.len() implies 1 <= (#[trigger] rest[i]).len()
                <= MAX_LABEL by {
                assert(rest[i] == labels[i + 1]);
            }
        }
        assert(buf.subrange(pos + 1, next) =~= l) by {
            assert forall|i: int| 0 <= i < l.len() implies buf[pos + 1 + i] == l[i] by {
                assert(buf.subrange(pos, pos + wire.len())[1 + i] == wire[1 + i]);
            }
        }
        let tail = wire_of(rest);
        assert(buf.subrange(next, next + tail.len()) =~= tail) by {
            assert forall|i: int| 0 <= i < tail.len() implies buf[next + i] == tail[i] by {
                assert(buf.subrange(pos, pos + wire.len())[1 + l.len() + i] == wire[1 + l.len()
                    + i]);
            }
        }
        labels_read_back(buf, next, rest, jumps, false);
    }
}

/// Reading a name without an error yields the text of some labels.
pub proof fn read_name_is_labels(buf: Seq<u8>, pos: int, jumps: int, first: bool) -> (labels: Seq<
    Seq<u8>,
>)
    requires
        buf.len() == BUF_SIZE,
        name_at(buf, pos, jumps, first).1 is None,
    ensures
        labels_ok(labels),
        name_at(buf, pos, jumps, first).0 == text_of(labels, first),
    decreases MAX_JUMPS + 1 - jumps, BUF_SIZE - pos,
{
    let len = buf[pos];
    if len >= 0xc0 {
        read_name_is_labels(buf, (len - 0xc0) * 256 + buf[pos + 1], jumps + 1, first)
    } else if len == 0 {
        Seq::empty()
    } else {
        let rest = read_name_is_labels(buf, pos + 1 + len, jumps, false);
        let l = buf.subrange(pos + 1, pos + 1 + len);
        let labels = seq![l] + rest;
        assert(labels.drop_first() =~= rest);
        labels
    }
}

/// The bytes of a text of ASCII characters.
pub open spec fn ascii_bytes(s: Seq<char>) -> Seq<u8> {
    s.map_values(|c: char| c as u8)
}

proof fn ascii_bytes_add(a: Seq<char>, b: Seq<char>)
    ensures
        ascii_bytes(a + b) == ascii_bytes(a) + ascii_bytes(b),
{
    assert(ascii_bytes(a + b) =~= ascii_bytes(a) + ascii_bytes(b));
}

proof fn label_text_ascii(label: Seq<u8>)
    ensures
        is_ascii_chars(label_text(label)),
    decreases label.len(),
{
    if label.len() > 0 {
        label_text_ascii(label.drop_last());
        assert(is_ascii_chars(escaped(label.last())));
    }
}

proof fn text_of_ascii(labels: Seq<Seq<u8>>, first: bool)
    ensures
        is_ascii_chars(text_of(labels, first)),
    decreases labels.len(),
{
    if labels.len() > 0 {
        label_text_ascii(labels[0]);
        text_of_ascii(labels.drop_first(), false);
    }
}

/// The escape of a byte is read as the byte in lower case.
proof fn escape_read_back(s: Seq<u8>, i: int, b: u8)
    requires
        0 <= i,
        i + escaped(b).len() <= s.len(),
        s.subrange(i, i + escaped(b).len()) == ascii_bytes(escaped(b)),
    ensures
        s[i] != 46,
        unescaped(s, i) == Ok::<(u8, int), WireError>((lower_byte(b), i + escaped(b).len())),
{
    let e = ascii_bytes(escaped(b));
    let c = lower_byte(b);
    assert forall|k: int| 0 <= k < e.len() implies s[i + k] == e[k] by {
        assert(s.subrange(i, i + escaped(b).len())[k] == e[k]);
    }
    assert(s[i] == e[0]);
    if c == 46 || c == 92 {
        assert(s[i + 1] == e[1]);
    } else if 0x21 <= c <= 0x7e {
    } else {
        assert(s[i + 1] == e[1] && s[i + 2] == e[2] && s[i + 3] == e[3]);
        assert(e[1] == (48 + c / 100) as u8);
        assert(c / 100 * 100 + c / 10 % 10 * 10 + c % 10 == c) by (nonlinear_arith);
    }
}

/// The text of a label is read as its bytes in lower case.
proof fn label_read_back(s: Seq<u8>, i: int, label: Seq<u8>, k: int)
    requires
        0 <= i,
        0 <= k <= label.len() <= MAX_LABEL,
        i + label_text(label).len() <= s.len(),
        s.subrange(i, i + label_text(label).len()) == ascii_bytes(label_text(label)),
    ensures
        label_text(label.subrange(0, k)).len() <= label_text(label).len(),
        label_at(s, i, Seq::empty()) == label_at(
            s,
            i + label_text(label.subrange(0, k)).len(),
            lower_bytes(label.subrange(0, k)),
        ),
    decreases k,
{
    let t = label_text(label);
    if k == 0 {
        assert(label.subrange(0, 0) =~= Seq::<u8>::empty());
        assert(lower_bytes(label.subrange(0, 0)) =~= Seq::<u8>::empty());
    } else {
        label_read_back(s, i, label, k - 1);
        let before = label.subrange(0, k - 1);
        let upto = label.subrange(0, k);
        let b = label[k - 1];
        assert(upto.drop_last() =~= before);
        assert(upto.last() == b);
        label_text_prefix(label, k);
        let j = i + label_text(before).len();
        let e = escaped(b);
        assert(label_text(upto) == label_text(before) + e);
        assert(s.subrange(j, j + e.len()) =~= ascii_bytes(e)) by {
            assert forall|m: int| 0 <= m < e.len() implies s[j + m] == ascii_bytes(e)[m] by {
                let at = label_text(before).len() + m;
                assert(s.subrange(i, i + t.len())[at] == ascii_bytes(t)[at]);
                assert(t.subrange(0, label_text(upto).len() as int)[at] == label_text(upto)[at]);
            }
        }
        escape_read_back(s, j, b);
        assert(lower_bytes(before).push(lower_byte(b)) =~= lower_bytes(upto));
    }
}

/// The text of the first bytes of a label begins the text of the label.
proof fn label_text_prefix(label: Seq<u8>, k: int)
    requires
        0 <= k <= label.len(),
    ensures
        label_text(label.subrange(0, k)).len() <= label_text(label).len(),
        label_text(label).subrange(0, label_text(label.subrange(0, k)).len() as int)
            == label_text(label.subrange(0, k)),
    decreases label.len() - k,
{
    let part = label_text(label.subrange(0, k));
    if k < label.len() {
        label_text_prefix(label, k + 1);
        let more = label_text(label.subrange(0, k + 1));
        assert(label.subrange(0, k + 1).drop_last() =~= label.subrange(0, k));
        assert(more.subrange(0, part.len() as int) =~= part);
        assert(label_text(label).subrange(0, part.len() as int) =~= label_text(label).subrange(
            0,
            more.len() as int,
        ).subrange(0, part.len() as int));
    } else {
        assert(label.subrange(0, k) =~= label);
        assert(part.subrange(0, part.len() as int) =~= part);
    }
}

proof fn label_text_nonempty(label: Seq<u8>)
    requires
        label.len() > 0,
    ensures
        label_text(label).len() > 0,
        ascii_bytes(label_text(label))[0] != 46,
    decreases label.len(),
{
    let e = escaped(label.last());
    if label.len() > 1 {
        label_text_nonempty(label.drop_last());
        assert(label_text(label)[0] == label_text(label.drop_last())[0]);
        assert(ascii_bytes(label_text(label))[0] == ascii_bytes(label_text(label.drop_last()))[0]);
    } else {
        assert(label.drop_last() =~= Seq::<u8>::empty());
        assert(label_text(Seq::<u8>::empty()) =~= Seq::<char>::empty());
        assert(label_text(label) =~= e);
        assert(ascii_bytes(label_text(label))[0] == e[0] as u8);
    }
}

/// The text of labels is written as the labels in lower case.
proof fn labels_written_back(s: Seq<u8>, i: int, labels: Seq<Seq<u8>>, first: bool)
    requires
        labels_ok(labels),
        0 <= i <= s.len(),
        s.subrange(i, s.len() as int) == ascii_bytes(text_of(labels, first)),
    ensures
        labels_from(s, i) == (wire_of(lower_labels(labels)), None::<WireError>),
    decreases labels.len(),
{
    let t = ascii_bytes(text_of(labels, first));
    assert(t.len() == s.len() - i);
    if labels.len() == 0 {
        assert(lower_labels(labels) =~= Seq::<Seq<u8>>::empty());
    } else {
        let l = labels[0];
        let rest = labels.drop_first();
        let dot = if first {
            Seq::<char>::empty()
        } else {
            seq!['.']
        };
        let lt = label_text(l);
        let tail = text_of(rest, false);
        let j = i + dot.len();
        let end = j + lt.len();
        assert(text_of(labels, first) == dot + lt + tail);
        ascii_bytes_add(dot + lt, tail);
        ascii_bytes_add(dot, lt);
        assert forall|m: int| 0 <= m < t.len() implies s[i + m] == t[m] by {
            assert(s.subrange(i, s.len() as int)[m] == t[m]);
        }
        if !first {
            assert(t[0] == ascii_bytes(dot)[0]);
            assert(s[i] == 46);
            assert(labels_from(s, i) == labels_from(s, j));
        }
        assert(s.subrange(j, end) =~= ascii_bytes(lt)) by {
            assert forall|m: int| 0 <= m < lt.len() implies s[j + m] == ascii_bytes(lt)[m] by {
                assert(t[dot.len() + m] == ascii_bytes(lt)[m]);
            }
        }
        assert(s.subrange(end, s.len() as int) =~= ascii_bytes(tail)) by {
            assert forall|m: int| 0 <= m < tail.len() implies s[end + m] == ascii_bytes(
                tail,
            )[m] by {
                assert(t[dot.len() + lt.len() + m] == ascii_bytes(tail)[m]);
            }
        }
        label_text_nonempty(l);
        assert(s[j] == ascii_bytes(lt)[0]) by {
            assert(s.subrange(j, end)[0] == ascii_bytes(lt)[0]);
        }
        label_read_back(s, j, l, l.len() as int);
        assert(l.subrange(0, l.len() as int) =~= l);
        if rest.len() > 0 {
            assert(tail[0] == '.');
            assert(s[end] == 46) by {
                assert(s.subrange(end, s.len() as int)[0] == ascii_bytes(tail)[0]);
            }
        } else {
            assert(end == s.len());
        }
        assert(label_at(s, j, Seq::empty()) == (lower_bytes(l), end, None::<WireError>));
        assert(labels_ok(rest)) by {
            assert forall|i: int| 0 <= i < rest.len() implies 1 <= (#[trigger] rest[i]).len()
                <= MAX_LABEL by {
                assert(rest[i] == labels[i + 1]);
            }
        }
        labels_written_back(s, end, rest, false);
        assert(lower_labels(labels).drop_first() =~= lower_labels(rest));
        assert(lower_labels(labels)[0] == lower_bytes(l));
    }
}

/// Lower case makes no difference to the text of a label.
proof fn label_text_lower(label: Seq<u8>)
    ensures
        label_text(lower_bytes(label)) == label_text(label),
    decreases label.len(),
{
    if label.len() > 0 {
        label_text_lower(label.drop_last());
        assert(lower_bytes(label).drop_last() =~= lower_bytes(label.drop_last()));
    }
}

proof fn text_of_lower(labels: Seq<Seq<u8>>, first: bool)
    ensures
        text_of(lower_labels(labels), first) == text_of(labels, first),
    decreases labels.len(),
{
    if labels.len() > 0 {
        label_text_lower(labels[0]);
        text_of_lower(labels.drop_first(), false);
        assert(lower_labels(labels).drop_first() =~= lower_labels(labels.drop_first()));
    }
}

proof fn wire_of_lower(labels: Seq<Seq<u8>>)
    requires
        labels_ok(labels),
    ensures
        labels_ok(lower_labels(labels)),
        wire_of(lower_labels(labels)) == lower_bytes(wire_of(labels)),
    decreases labels.len(),
{
    if labels.len() == 0 {
        assert(lower_bytes(wire_of(labels)) =~= seq![0u8]);
        assert(lower_labels(labels) =~= labels);
    } else {
        let rest = labels.drop_first();
        assert(labels_ok(rest)) by {
            assert forall|i: int| 0 <= i < rest.len() implies 1 <= (#[trigger] rest[i]).len()
                <= MAX_LABEL by {
                assert(rest[i] == labels[i + 1]);
            }
        }
        wire_of_lower(rest);
        assert(lower_labels(labels).drop_first() =~= lower_labels(rest));
        assert(lower_labels(labels)[0] == lower_bytes(labels[0]));
        assert(lower_bytes(wire_of(labels)) =~= seq![labels[0].len() as u8] + lower_bytes(labels[0])
            + lower_bytes(wire_of(rest)));
    }
}

/// A name that was written without an error is read back, to the last byte
/// that was written and no further. Its text may differ in case and escapes
/// alone: written again, it gives the same bytes in lower case.
pub proof fn written_name_reads_back(text: Seq<char>, buf: Seq<u8>, pos: int)
    requires
        name_wire(encode_utf8(text)).1 is None,
        buf.len() == BUF_SIZE,
        0 <= pos,
        pos + name_wire(encode_utf8(text)).0.len() <= BUF_SIZE,
        buf.subrange(pos, pos + name_wire(encode_utf8(text)).0.len()) == name_wire(
            encode_utf8(text),
        ).0,
    ensures
        name_at(buf, pos, 0, true).1 is None,
        name_end(buf, pos) == Some(pos + name_wire(encode_utf8(text)).0.len()),
        name_wire(encode_utf8(name_at(buf, pos, 0, true).0)) == (
            lower_bytes(name_wire(encode_utf8(text)).0),
            None::<WireError>,
        ),
{
    let s = encode_utf8(text);
    let labels = labels_of(s, 0);
    written_name_is_labels(s, 0);
    labels_read_back(buf, pos, labels, 0, true);
    text_written(labels);
    wire_of_lower(labels);
}

/// The text of labels, written, gives the wire form of the labels in lower case.
proof fn text_written(labels: Seq<Seq<u8>>)
    requires
        labels_ok(labels),
    ensures
        name_wire(encode_utf8(text_of(labels, true))) == (
            wire_of(lower_labels(labels)),
            None::<WireError>,
        ),
{
    let t = text_of(labels, true);
    text_of_ascii(labels, true);
    is_ascii_chars_encode_utf8(t);
    let s = encode_utf8(t);
    assert(s =~= ascii_bytes(t));
    assert(s.subrange(0, s.len() as int) =~= ascii_bytes(t));
    labels_written_back(s, 0, labels, true);
}

/// Whether a text is as reading a name would give it.
pub open spec fn canonical(text: Seq<char>) -> bool {
    exists|labels: Seq<Seq<u8>>| labels_ok(labels) && text == #[trigger] text_of(labels, true)
}

/// A canonical text can be written, and reads back as it was.
pub proof fn canonical_reads_back(text: Seq<char>, buf: Seq<u8>, pos: int)
    requires
        canonical(text),
        buf.len() == BUF_SIZE,
        0 <= pos,
        pos + name_wire(encode_utf8(text)).0.len() <= BUF_SIZE,
        buf.subrange(pos, pos + name_wire(encode_utf8(text)).0.len()) == name_wire(
            encode_utf8(text),
        ).0,
    ensures
        name_wire(encode_utf8(text)).1 is None,
        name_at(buf, pos, 0, true) == (text, None::<WireError>),
        name_end(buf, pos) == Some(pos + name_wire(encode_utf8(text)).0.len()),
{
    let labels = choose|labels: Seq<Seq<u8>>|
        labels_ok(labels) && text == #[trigger] text_of(labels, true);
    text_written(labels);
    wire_of_lower(labels);
    text_of_lower(labels, true);
    labels_read_back(buf, pos, lower_labels(labels), 0, true);
}

/// What reading a name gives is canonical.
pub proof fn read_name_canonical(buf: Seq<u8>, pos: int)
    requires
        buf.len() == BUF_SIZE,
        name_at(buf, pos, 0, true).1 is None,
    ensures
        canonical(name_at(buf, pos, 0, true).0),
{
    let labels = read_name_is_labels(buf, pos, 0, true);
}

} // verus!
