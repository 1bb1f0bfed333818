//! Resource records and their wire form.
use numa::buffer::{BytePacketBuffer, WireError};
use numa::net::{Ipv4Addr, Ipv6Addr};
use numa::question::QueryType;
use numa::memory::room_sum;
use numa::record::{write_header, DnsRecord};

fn round_trip(record: &DnsRecord) -> DnsRecord {
    let mut buf = BytePacketBuffer::new();
    record.write(&mut buf).unwrap();
    buf.seek(0).unwrap();
    DnsRecord::read(&mut buf).unwrap()
}

#[test]
fn ptr_round_trip() {
    let rec = DnsRecord::PTR {
        domain: "9.9.9.9.in-addr.arpa".into(),
        host: "dns.quad9.net".into(),
        ttl: 3600,
    };
    let parsed = round_trip(&rec);
    assert_eq!(rec, parsed);
    assert_eq!(parsed.query_type(), QueryType::PTR);
}

#[test]
fn unknown_preserves_raw_bytes() {
    let rec = DnsRecord::UNKNOWN {
        domain: "example.com".into(),
        qtype: 99,
        data: vec![0xDE, 0xAD, 0xBE, 0xEF],
        ttl: 300,
    };
    let parsed = round_trip(&rec);
    if let DnsRecord::UNKNOWN { data, .. } = &parsed {
        assert_eq!(data.len(), 4);
        assert_eq!(data, &[0xDE, 0xAD, 0xBE, 0xEF]);
    } else {
        panic!("expected UNKNOWN");
    }
}

#[test]
fn dnskey_round_trip() {
    let rec = DnsRecord::DNSKEY {
        domain: "example.com".into(),
        flags: 257, // KSK
        protocol: 3,
        algorithm: 13, // ECDSAP256SHA256
        public_key: vec![1, 2, 3, 4, 5, 6, 7, 8],
        ttl: 3600,
    };
    let parsed = round_trip(&rec);
    assert_eq!(rec, parsed);
}

#[test]
fn ds_round_trip() {
    let rec = DnsRecord::DS {
        domain: "example.com".into(),
        key_tag: 12345,
        algorithm: 8,
        digest_type: 2,
        digest: vec![0xAA, 0xBB, 0xCC, 0xDD],
        ttl: 86400,
    };
    let parsed = round_trip(&rec);
    assert_eq!(rec, parsed);
}

#[test]
fn rrsig_round_trip() {
    let rec = DnsRecord::RRSIG {
        domain: "example.com".into(),
        type_covered: 1, // A
        algorithm: 13,
        labels: 2,
        original_ttl: 300,
        expiration: 1700000000,
        inception: 1690000000,
        key_tag: 54321,
        signer_name: "example.com".into(),
        signature: vec![0x01, 0x02, 0x03, 0x04, 0x05],
        ttl: 300,
    };
    let parsed = round_trip(&rec);
    assert_eq!(rec, parsed);
}

#[test]
fn query_type_method() {
    assert_eq!(
        DnsRecord::DNSKEY {
            domain: String::new(),
            flags: 0,
            protocol: 3,
            algorithm: 8,
            public_key: vec![],
            ttl: 0,
        }
        .query_type(),
        QueryType::DNSKEY
    );
    assert_eq!(
        DnsRecord::DS {
            domain: String::new(),
            key_tag: 0,
            algorithm: 0,
            digest_type: 0,
            digest: vec![],
            ttl: 0,
        }
        .query_type(),
        QueryType::DS
    );
}

#[test]
fn nsec_round_trip() {
    let rec = DnsRecord::NSEC {
        domain: "alpha.example.com".into(),
        next_domain: "gamma.example.com".into(),
        type_bitmap: vec![0, 2, 0x40, 0x01], // A(1), MX(15)
        ttl: 3600,
    };
    let parsed = round_trip(&rec);
    assert_eq!(rec, parsed);
}

#[test]
fn nsec3_round_trip() {
    let rec = DnsRecord::NSEC3 {
        domain: "abc123.example.com".into(),
        hash_algorithm: 1,
        flags: 0,
        iterations: 10,
        salt: vec![0xAB, 0xCD],
        next_hashed_owner: vec![0x01, 0x02, 0x03, 0x04, 0x05],
        type_bitmap: vec![0, 1, 0x40], // A(1)
        ttl: 3600,
    };
    let parsed = round_trip(&rec);
    assert_eq!(rec, parsed);
}

#[test]
fn dnskey_ds_short_rdlength_errors_not_panics() {
    // rdlength < fixed-field size must be a clean Err, not an arithmetic
    // underflow panic.
    for qtype in [QueryType::DNSKEY.to_num(), QueryType::DS.to_num()] {
        for rdlength in [0u16, 1, 2, 3] {
            let mut buf = BytePacketBuffer::new();
            write_header(&mut buf, "example.com", qtype, 3600).unwrap();
            buf.write_u16(rdlength).unwrap();
            for _ in 0..rdlength {
                buf.write_u8(0).unwrap();
            }
            buf.seek(0).unwrap();
            assert!(
                DnsRecord::read(&mut buf).is_err(),
                "qtype {qtype} rdlength {rdlength} should error"
            );
        }
    }
}

#[test]
fn heap_bytes_reflects_string_capacity() {
    let rec = DnsRecord::CNAME {
        domain: "a]".repeat(100),
        host: "b".repeat(200),
        ttl: 60,
    };
    assert!(rec.heap_bytes() >= 300);
}

#[test]
fn remaining_kinds_round_trip() {
    let recs = vec![
        DnsRecord::A { domain: "a.example".into(), addr: Ipv4Addr::new(1, 2, 3, 4), ttl: 5 },
        DnsRecord::AAAA {
            domain: "a.example".into(),
            addr: Ipv6Addr::new(0x2001, 0xdb8, 0, 0, 0, 0, 0, 1),
            ttl: 6,
        },
        DnsRecord::NS { domain: "example".into(), host: "ns.example".into(), ttl: 7 },
        DnsRecord::CNAME { domain: "w.example".into(), host: "a.example".into(), ttl: 8 },
        DnsRecord::MX { domain: "example".into(), priority: 10, host: "m.example".into(), ttl: 9 },
        DnsRecord::SOA {
            domain: "example".into(),
            mname: "ns.example".into(),
            rname: "admin.example".into(),
            serial: 1,
            refresh: 2,
            retry: 3,
            expire: 4,
            minimum: 5,
            ttl: 10,
        },
    ];
    for rec in recs {
        assert_eq!(round_trip(&rec), rec);
    }
}

#[test]
fn short_data_errors_are_told_apart() {
    let cases = [
        (QueryType::DNSKEY, WireError::DnskeyTooShort),
        (QueryType::DS, WireError::DsTooShort),
        (QueryType::RRSIG, WireError::RrsigTooShort),
        (QueryType::NSEC, WireError::NsecTooShort),
        (QueryType::NSEC3, WireError::Nsec3TooShort),
    ];
    for (qtype, error) in cases {
        let mut buf = BytePacketBuffer::new();
        write_header(&mut buf, "example.com", qtype.to_num(), 60).unwrap();
        buf.write_u16(0).unwrap();
        buf.seek(0).unwrap();
        assert_eq!(DnsRecord::read(&mut buf), Err(error));
    }
}

#[test]
fn ttl_and_owner_can_be_set() {
    let mut rec = DnsRecord::A { domain: "x".into(), addr: Ipv4Addr::new(1, 2, 3, 4), ttl: 5 };
    rec.set_ttl(77);
    rec.set_domain("y".into());
    assert_eq!(rec.ttl(), 77);
    assert_eq!(rec.domain(), "y");
}

#[test]
fn rooms_are_summed_up() {
    assert_eq!(room_sum(&vec![1, 2, 3]), 6);
    assert_eq!(room_sum(&vec![usize::MAX, 1]), usize::MAX);
}
