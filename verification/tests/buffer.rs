//! Reading and writing the wire form of names and numbers.
use numa::buffer::{BytePacketBuffer, WireError};

fn roundtrip(wire: &[u8]) -> String {
    let mut buf = BytePacketBuffer::from_bytes(wire);
    let mut out = String::new();
    buf.read_qname(&mut out).unwrap();
    out
}

fn write_then_read(text: &str) -> String {
    let mut buf = BytePacketBuffer::new();
    buf.write_qname(text).unwrap();
    let wire_end = buf.pos();
    buf.seek(0).unwrap();
    let mut out = String::new();
    buf.read_qname(&mut out).unwrap();
    assert_eq!(
        buf.pos(),
        wire_end,
        "reader should consume exactly what writer wrote"
    );
    out
}

#[test]
fn read_plain_domain() {
    // [3]www[6]google[3]com[0]
    let wire = b"\x03www\x06google\x03com\x00";
    assert_eq!(roundtrip(wire), "www.google.com");
}

#[test]
fn read_label_with_literal_dot_is_escaped() {
    // fanf2's example: [8]exa.mple[3]com[0] — two labels, first contains 0x2E
    let wire = b"\x08exa.mple\x03com\x00";
    assert_eq!(roundtrip(wire), "exa\\.mple.com");
}

#[test]
fn read_label_with_backslash_is_escaped() {
    // [4]a\bc[3]com[0]
    let wire = b"\x04a\\bc\x03com\x00";
    assert_eq!(roundtrip(wire), "a\\\\bc.com");
}

#[test]
fn read_label_with_nonprintable_byte_uses_decimal_escape() {
    // [4]\x00foo[3]com[0] — null byte at label start
    let wire = b"\x04\x00foo\x03com\x00";
    assert_eq!(roundtrip(wire), "\\000foo.com");
}

#[test]
fn read_label_with_space_uses_decimal_escape() {
    // Space (0x20) is outside 0x21..=0x7E, so it must be decimal-escaped.
    let wire = b"\x05a b c\x00";
    assert_eq!(roundtrip(wire), "a\\032b\\032c");
}

#[test]
fn write_plain_domain() {
    let mut buf = BytePacketBuffer::new();
    buf.write_qname("www.google.com").unwrap();
    assert_eq!(&buf.buf[..buf.pos], b"\x03www\x06google\x03com\x00");
}

#[test]
fn write_escaped_dot_does_not_split_label() {
    let mut buf = BytePacketBuffer::new();
    buf.write_qname("exa\\.mple.com").unwrap();
    assert_eq!(&buf.buf[..buf.pos], b"\x08exa.mple\x03com\x00");
}

#[test]
fn write_escaped_backslash() {
    let mut buf = BytePacketBuffer::new();
    buf.write_qname("a\\\\bc.com").unwrap();
    assert_eq!(&buf.buf[..buf.pos], b"\x04a\\bc\x03com\x00");
}

#[test]
fn write_decimal_escape_yields_raw_byte() {
    let mut buf = BytePacketBuffer::new();
    buf.write_qname("\\000foo.com").unwrap();
    assert_eq!(&buf.buf[..buf.pos], b"\x04\x00foo\x03com\x00");
}

#[test]
fn write_skips_empty_labels() {
    // Leading dot — first (empty) label is rolled back.
    let mut buf = BytePacketBuffer::new();
    buf.write_qname(".foo.com").unwrap();
    assert_eq!(&buf.buf[..buf.pos], b"\x03foo\x03com\x00");

    // Consecutive dots — middle empty label is rolled back.
    let mut buf = BytePacketBuffer::new();
    buf.write_qname("foo..com").unwrap();
    assert_eq!(&buf.buf[..buf.pos], b"\x03foo\x03com\x00");
}

#[test]
fn write_rejects_out_of_range_decimal_escape() {
    let mut buf = BytePacketBuffer::new();
    assert!(buf.write_qname("\\999foo.com").is_err());
}

#[test]
fn write_rejects_trailing_backslash() {
    let mut buf = BytePacketBuffer::new();
    assert!(buf.write_qname("foo\\").is_err());
}

#[test]
fn write_rejects_short_decimal_escape() {
    let mut buf = BytePacketBuffer::new();
    assert!(buf.write_qname("\\1").is_err());
}

#[test]
fn write_rejects_label_over_63_bytes() {
    // 64 bytes exceeds the wire-format label cap.
    let mut buf = BytePacketBuffer::new();
    assert!(buf.write_qname(&"a".repeat(64)).is_err());

    // 63 bytes is the maximum permitted label length.
    let mut buf = BytePacketBuffer::new();
    assert!(buf.write_qname(&"a".repeat(63)).is_ok());
}

#[test]
fn roundtrip_preserves_dot_in_label() {
    assert_eq!(write_then_read("exa\\.mple.com"), "exa\\.mple.com");
}

#[test]
fn roundtrip_preserves_backslash_in_label() {
    assert_eq!(write_then_read("a\\\\b.com"), "a\\\\b.com");
}

#[test]
fn roundtrip_preserves_nonprintable_byte() {
    assert_eq!(write_then_read("\\000foo.com"), "\\000foo.com");
}

#[test]
fn root_name_empty_and_dot_both_produce_single_zero() {
    let mut a = BytePacketBuffer::new();
    a.write_qname("").unwrap();
    let mut b = BytePacketBuffer::new();
    b.write_qname(".").unwrap();
    assert_eq!(&a.buf[..a.pos], b"\x00");
    assert_eq!(&b.buf[..b.pos], b"\x00");
}

#[test]
fn read_qname_rejects_reserved_label_high_bits() {
    // RFC 1035 §4.1.4: 01/10 are reserved (only 00 = label, 11 = pointer).
    let mut wire = vec![0x80];
    wire.extend(std::iter::repeat_n(b'a', 128));
    wire.push(0);
    let mut buf = BytePacketBuffer::from_bytes(&wire);
    assert!(buf.read_qname(&mut String::new()).is_err());
}

#[test]
fn read_qname_rejects_pointer_landing_mid_label() {
    // [3]foo[0]<c0 02> — pointer jumps to offset 2 ('o' = 0x6f), whose
    // reserved bits trip the guard. Observed against Tailscale MagicDNS (#142).
    let mut buf = BytePacketBuffer::from_bytes(b"\x03foo\x00\xc0\x02");
    buf.seek(5).unwrap();
    assert!(buf.read_qname(&mut String::new()).is_err());
}

#[test]
fn get_range_length_overflow_errors_not_panics() {
    // A length near usize::MAX must not overflow the bounds check into a
    // false pass (then a reversed-slice panic). Guards the rdlength-underflow
    // class at the buffer layer.
    let buf = BytePacketBuffer::from_bytes(b"abcd");
    assert!(buf.get_range(2, usize::MAX).is_err());
    assert!(buf.get_range(usize::MAX, 8).is_err());
}

#[test]
fn buffer_errors_are_told_apart() {
    let mut buf = BytePacketBuffer::new();
    assert_eq!(buf.write_qname("foo\\"), Err(WireError::TrailingBackslash));
    let mut buf = BytePacketBuffer::new();
    assert_eq!(buf.write_qname("\\1"), Err(WireError::ShortEscape));
    let mut buf = BytePacketBuffer::new();
    assert_eq!(buf.write_qname("\\999"), Err(WireError::EscapeRange(999)));
    let mut buf = BytePacketBuffer::new();
    assert_eq!(buf.write_qname(&"a".repeat(64)), Err(WireError::LabelTooLong));
    let mut buf = BytePacketBuffer::from_bytes(b"\xc0\x00");
    assert_eq!(buf.read_qname(&mut String::new()), Err(WireError::JumpLimit));
    let mut buf = BytePacketBuffer::from_bytes(b"\x41a");
    assert_eq!(buf.read_qname(&mut String::new()), Err(WireError::ReservedLabel(0x41)));
    let buf = BytePacketBuffer::new();
    assert_eq!(buf.get(4096), Err(WireError::EndOfBuffer));
}

#[test]
fn numbers_are_written_high_byte_first() {
    let mut buf = BytePacketBuffer::new();
    buf.write_u16(0x1234).unwrap();
    buf.write_u32(0x5678_9abc).unwrap();
    buf.set_u16(0, 0xbeef).unwrap();
    assert_eq!(buf.filled(), &[0xbe, 0xef, 0x56, 0x78, 0x9a, 0xbc]);
    buf.seek(0).unwrap();
    assert_eq!(buf.read_u16().unwrap(), 0xbeef);
    assert_eq!(buf.read_u32().unwrap(), 0x5678_9abc);
}

#[test]
fn full_buffer_overflows_once_written_past() {
    let mut buf = BytePacketBuffer::new();
    buf.seek(4096).unwrap();
    assert!(!buf.overflowed());
    assert_eq!(buf.write_u8(1), Err(WireError::EndOfBuffer));
    assert!(buf.overflowed());
}
