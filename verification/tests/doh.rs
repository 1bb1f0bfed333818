//! DNS over HTTPS, and messages over a stream.
use base64::engine::general_purpose::URL_SAFE_NO_PAD;
use base64::Engine;
use numa::acl::AllowFromAcl;
use numa::buffer::BytePacketBuffer;
use numa::config::Config;
use numa::ctx::{parse_reply, ServerCtx};
use numa::doh::{
    cache_control, doh_get, doh_post, extract_min_ttl, is_doh_host, read_query, refuse_body,
    resolve_doh, serialize_response, strip_port, HttpAnswer, MAX_DNS_MSG,
};
use numa::header::ResultCode;
use numa::net::{parse_socket_addr, Ipv4Addr, SocketAddr};
use numa::packet::{DnsPacket, EdnsOpt};
use numa::question::QueryType;
use numa::record::DnsRecord;
use numa::serve::{build_ctx, Discovered, Kept};
use numa::shape::to_wire;
use numa::tcp::{frame, frame_len, reply, unreadable};

fn test_ctx() -> ServerCtx {
    let found = Discovered {
        default_upstream: None,
        network_upstream: None,
        rules: vec![],
        probe_ok: false,
        lan_ip: None,
    };
    let kept = Kept {
        blocking_allow: vec![],
        blocking_block: vec![],
        rebind_allow: vec![],
        services: vec![],
    };
    build_ctx(&Config::default(), found, &kept, 0).ok().unwrap().0
}

#[test]
fn is_doh_host_matches_tld() {
    assert!(is_doh_host(Some("numa"), "numa"));
    assert!(is_doh_host(Some("numa.numa"), "numa"));
    assert!(is_doh_host(Some("127.0.0.1"), "numa"));
    assert!(is_doh_host(Some("127.0.0.1:443"), "numa"));
    assert!(is_doh_host(Some("::1"), "numa"));
    assert!(is_doh_host(Some("[::1]"), "numa"));
    assert!(is_doh_host(Some("[::1]:443"), "numa"));
    assert!(is_doh_host(Some("localhost"), "numa"));
    assert!(is_doh_host(Some("localhost:443"), "numa"));
    assert!(!is_doh_host(Some("foo.numa"), "numa"));
    assert!(!is_doh_host(None, "numa"));
}

#[test]
fn ports_are_stripped() {
    assert_eq!(strip_port("host:80").as_deref(), Some("host"));
    assert_eq!(strip_port("host:").as_deref(), Some("host"));
    assert_eq!(strip_port("host:8x"), None);
    assert_eq!(strip_port("host"), None);
    assert_eq!(strip_port("::1"), None);
    assert_eq!(strip_port("[::1]:80").as_deref(), Some("[::1]"));
    assert_eq!(strip_port("[::1]"), None);
}

#[test]
fn extract_min_ttl_from_response() {
    let mut pkt = DnsPacket::new();
    pkt.header.response = true;
    pkt.answers.push(DnsRecord::A {
        domain: "example.com".to_string(),
        addr: Ipv4Addr::new(1, 2, 3, 4),
        ttl: 300,
    });
    pkt.answers.push(DnsRecord::A {
        domain: "example.com".to_string(),
        addr: Ipv4Addr::new(5, 6, 7, 8),
        ttl: 60,
    });
    let mut buf = BytePacketBuffer::new();
    pkt.write(&mut buf).unwrap();
    assert_eq!(extract_min_ttl(buf.filled()), 60);
}

#[test]
fn extract_min_ttl_no_answers() {
    let mut pkt = DnsPacket::new();
    pkt.header.response = true;
    let mut buf = BytePacketBuffer::new();
    pkt.write(&mut buf).unwrap();
    assert_eq!(extract_min_ttl(buf.filled()), 0);
}

#[test]
fn cut_messages_have_no_ttl() {
    let mut pkt = DnsPacket::new();
    pkt.answers.push(DnsRecord::A {
        domain: "example.com".to_string(),
        addr: Ipv4Addr::new(1, 2, 3, 4),
        ttl: 300,
    });
    let buf = to_wire(&pkt).unwrap();
    let wire = buf.filled();
    assert_eq!(extract_min_ttl(wire), 300);
    assert_eq!(extract_min_ttl(&wire[..wire.len() - 1]), 0);
    assert_eq!(extract_min_ttl(&wire[..5]), 0);
}

#[test]
fn serialize_formerr_response() {
    let mut pkt = DnsPacket::new();
    pkt.header.id = 0xABCD;
    pkt.header.response = true;
    pkt.header.rescode = ResultCode::FORMERR;
    match serialize_response(&pkt) {
        HttpAnswer::Message { bytes, max_age } => {
            assert_eq!(&bytes[..2], &[0xab, 0xcd]);
            assert_eq!(max_age, 0);
        }
        other => panic!("{other:?}"),
    }
}

#[test]
fn doh_servfail_mirrors_client_opt() {
    let mut query = DnsPacket::new();
    query.header.id = 0x1234;
    query.header.recursion_desired = true;
    query.edns = Some(EdnsOpt::default());
    let buf = to_wire(&query).unwrap();
    let query = read_query(buf.filled()).unwrap();
    match resolve_doh(&query, None, false) {
        HttpAnswer::Message { bytes, .. } => {
            let resp = parse_reply(&bytes).unwrap();
            assert_eq!(resp.header.rescode, ResultCode::SERVFAIL);
            assert!(resp.edns.is_some(), "DoH SERVFAIL must mirror client's OPT");
        }
        other => panic!("{other:?}"),
    }
}

fn get(query: &str) -> Result<(SocketAddr, Vec<u8>), HttpAnswer> {
    let remote = parse_socket_addr("127.0.0.1:1234");
    doh_get(&test_ctx(), remote, Some("localhost"), Some(query))
}

fn status(r: Result<(SocketAddr, Vec<u8>), HttpAnswer>) -> u16 {
    match r {
        Err(HttpAnswer::Status(c)) | Err(HttpAnswer::Text(c, _)) => c,
        other => panic!("{other:?}"),
    }
}

#[test]
fn doh_get_rejects_missing_param() {
    assert_eq!(status(get("name=example.com")), 400);
}

#[test]
fn doh_get_rejects_invalid_base64url() {
    // valid URI char, invalid base64url (one symbol can't form a byte)
    assert_eq!(status(get("dns=A")), 400);
    assert_eq!(status(get("dns=AA==")), 400);
    assert_eq!(status(get("dns=AB")), 400);
    assert_eq!(status(get("dns=A+")), 400);
}

#[test]
fn doh_get_rejects_oversized() {
    let param = URL_SAFE_NO_PAD.encode(vec![0u8; MAX_DNS_MSG + 1]);
    assert_eq!(status(get(&format!("dns={param}"))), 413);
}

#[test]
fn doh_get_decodes_param_and_resolves() {
    let query = DnsPacket::new();
    let buf = to_wire(&query).unwrap();
    let param = URL_SAFE_NO_PAD.encode(buf.filled());
    let (src, bytes) = get(&format!("x=1&dns={param}&dns=zz")).unwrap();
    assert_eq!(src, parse_socket_addr("127.0.0.1:1234").unwrap());
    assert_eq!(bytes, buf.filled());
    let (_, bytes) = get("dns=-_8").unwrap();
    assert_eq!(bytes, vec![0xfb, 0xff]);
    let query = read_query(buf.filled()).unwrap();
    match resolve_doh(&query, None, false) {
        HttpAnswer::Message { bytes, .. } => {
            assert_eq!(parse_reply(&bytes).unwrap().header.rescode, ResultCode::SERVFAIL);
        }
        other => panic!("{other:?}"),
    }
}

#[test]
fn posts_are_checked() {
    let mut ctx = test_ctx();
    let kind = Some("application/dns-message; x");
    let remote = parse_socket_addr("8.8.8.8:1");
    assert!(matches!(doh_post(&ctx, remote, Some("foo.numa"), kind), Err(HttpAnswer::Status(404))));
    assert!(matches!(doh_post(&ctx, remote, Some("numa"), None), Err(HttpAnswer::Status(415))));
    assert_eq!(doh_post(&ctx, remote, Some("numa"), kind).ok(), remote);
    assert_eq!(
        doh_post(&ctx, None, Some("numa"), kind).ok(),
        parse_socket_addr("127.0.0.1:0")
    );
    ctx.allow_from = AllowFromAcl::from_entries(&vec!["10.0.0.0/8".to_string()]).unwrap();
    assert!(matches!(doh_post(&ctx, remote, Some("numa"), kind), Err(HttpAnswer::Status(403))));
    assert!(matches!(doh_post(&ctx, None, Some("numa"), kind), Err(HttpAnswer::Status(403))));
    assert!(matches!(refuse_body(None), Some(HttpAnswer::Text(413, _))));
    assert!(matches!(refuse_body(Some(b"")), Some(HttpAnswer::Text(400, _))));
    assert!(refuse_body(Some(b"x")).is_none());
}

#[test]
fn answers_are_kept_as_long_as_they_may() {
    let query = DnsPacket::query(9, "a.test", QueryType::A);
    let mut resp = DnsPacket::response_from(&query, ResultCode::NOERROR);
    resp.answers.push(DnsRecord::A {
        domain: "a.test".to_string(),
        addr: Ipv4Addr::new(1, 2, 3, 4),
        ttl: 77,
    });
    let buf = to_wire(&resp).unwrap();
    match resolve_doh(&query, Some(buf.filled()), false) {
        HttpAnswer::Message { bytes, max_age } => {
            assert_eq!(bytes, buf.filled());
            assert_eq!(cache_control(max_age), "max-age=77");
        }
        other => panic!("{other:?}"),
    }
}

#[test]
fn unreadable_requests_get_an_error_under_their_id() {
    let bad = [0xab, 0xcd, 1, 0, 0, 1, 0, 0, 0, 0, 0, 0, 0xc0, 0x0c];
    match read_query(&bad) {
        Err(HttpAnswer::Message { bytes, .. }) => {
            assert_eq!(&bytes[..4], &[0xab, 0xcd, 0x80, 0x01]);
        }
        _ => panic!("expected an answer"),
    }
    let framed = unreadable(&bad).unwrap();
    assert_eq!(&framed[..6], &[0, 12, 0xab, 0xcd, 0x80, 0x01]);
}

#[test]
fn tcp_oversize_message_closes_connection() {
    assert_eq!(frame_len([0x10, 0x00]), Some(4096));
    assert_eq!(frame_len([0x10, 0x01]), None);
    assert_eq!(frame_len([0xff, 0xff]), None);
}

#[test]
fn tcp_servfail_mirrors_client_opt() {
    let mut query = DnsPacket::query(0x77, "x.test", QueryType::A);
    query.edns = Some(EdnsOpt::default());
    let out = reply(&query, None, false).unwrap();
    assert_eq!(frame_len([out[0], out[1]]), Some(out.len() - 2));
    let resp = parse_reply(&out[2..]).unwrap();
    assert_eq!(resp.header.rescode, ResultCode::SERVFAIL);
    assert!(resp.edns.is_some());
    assert_eq!(reply(&query, Some(b"abc"), false).unwrap(), b"\x00\x03abc");
    assert_eq!(frame(b""), b"\x00\x00");
}
