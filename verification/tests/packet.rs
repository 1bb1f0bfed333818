//! Messages, statistics and blocklists.
use numa::blocklist::parse_blocklist;
use numa::buffer::BytePacketBuffer;
use numa::ctx::parse_reply;
use numa::header::{DnsHeader, ResultCode};
use numa::net::{Ipv4Addr, Ipv6Addr};
use numa::packet::{DnsPacket, EdnsOpt};
use numa::question::{DnsQuestion, QueryType};
use numa::record::DnsRecord;
use numa::shape::to_wire;
use numa::stats::{process_memory_bytes, QueryPath, ServerStats, Transport, UpstreamTransport};

fn full_packet() -> DnsPacket {
    let mut p = DnsPacket::query(0x1234, "www.example.com", QueryType::A);
    p.header.response = true;
    p.header.recursion_available = true;
    p.header.rescode = ResultCode::NXDOMAIN;
    p.questions.push(DnsQuestion::new("x".to_string(), QueryType::UNKNOWN(999)));
    p.answers.push(DnsRecord::CNAME {
        domain: "www.example.com".to_string(),
        host: "web.example.com".to_string(),
        ttl: 60,
    });
    p.answers.push(DnsRecord::A {
        domain: "web.example.com".to_string(),
        addr: Ipv4Addr::new(10, 1, 2, 3),
        ttl: 61,
    });
    p.authorities.push(DnsRecord::NS {
        domain: "example.com".to_string(),
        host: "ns.example.com".to_string(),
        ttl: 62,
    });
    p.resources.push(DnsRecord::AAAA {
        domain: "ns.example.com".to_string(),
        addr: Ipv6Addr::new(0x2001, 0xdb8, 0, 0, 0, 0, 0, 1),
        ttl: 63,
    });
    p.edns = Some(EdnsOpt {
        udp_payload_size: 4096,
        extended_rcode: 1,
        version: 0,
        do_bit: true,
        options: vec![0, 15, 0, 2, 0, 9],
    });
    p
}

#[test]
fn message_is_read_back() {
    let p = full_packet();
    let buf = to_wire(&p).unwrap();
    assert_eq!(parse_reply(buf.filled()).unwrap(), p);
    let mut again = BytePacketBuffer::from_bytes(buf.filled());
    DnsPacket::from_buffer(&mut again).unwrap();
    assert_eq!(again.pos(), buf.pos(), "all that was written is read");
}

#[test]
fn message_has_its_wire_form() {
    let p = DnsPacket::query(0xbeef, "a.b", QueryType::MX);
    let buf = to_wire(&p).unwrap();
    assert_eq!(
        buf.filled(),
        b"\xbe\xef\x01\x00\x00\x01\x00\x00\x00\x00\x00\x00\x01a\x01b\x00\x00\x0f\x00\x01"
    );
}

#[test]
fn header_flags_are_read_back() {
    let mut h = DnsHeader::new();
    h.id = 7;
    h.opcode = 5;
    h.truncated_message = true;
    h.authed_data = true;
    h.rescode = ResultCode::REFUSED;
    let n = h.to_flags();
    assert_eq!(n, 0x2800 | 0x0200 | 0x0020 | 5);
    assert_eq!(DnsHeader::from_flags(7, n), h);
}

#[test]
fn types_are_read_by_number_and_name() {
    for n in 0..300u16 {
        assert_eq!(QueryType::from_num(n).to_num(), n);
    }
    assert_eq!(QueryType::parse_str("https"), Some(QueryType::HTTPS));
    assert_eq!(QueryType::parse_str("unknown"), None);
}

#[test]
fn queries_are_counted_once_on_each_side() {
    let mut s = ServerStats::new(1000);
    assert_eq!(s.record(QueryPath::Cached, Transport::Udp, None), 1);
    assert_eq!(s.record(QueryPath::Upstream, Transport::Doh, Some(UpstreamTransport::Dot)), 2);
    s.record_rebind_stripped();
    let snap = s.snapshot(1000 + 3_661_999_999_999);
    assert_eq!(snap.total, 2);
    assert_eq!(snap.cached + snap.upstream, 2);
    assert_eq!(snap.transport_udp + snap.transport_doh, 2);
    assert_eq!(snap.upstream_transport_dot, 1);
    assert_eq!(snap.rebind_stripped, 1);
    assert_eq!(snap.uptime_secs, 3661);
    assert!(s.log_summary(1000 + 3_661_000_000_000).starts_with("STATS | uptime 1h1m1s"));
}

#[test]
fn resident_memory_is_pages_times_size() {
    assert_eq!(process_memory_bytes(Some("1000 250 30 1 0 2 0\n"), 4096), 250 * 4096);
    assert_eq!(process_memory_bytes(Some("1000\n"), 4096), 0);
    assert_eq!(process_memory_bytes(None, 4096), 0);
}

#[test]
fn lists_are_read_in_their_forms() {
    let set = parse_blocklist("# c\n! c\n0.0.0.0 a.example\n||b.example^\n*.c.example\nlocal\n");
    assert_eq!(set.sorted(), vec!["a.example", "b.example", "c.example"]);
}
