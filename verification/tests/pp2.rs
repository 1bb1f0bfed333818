//! The PROXY protocol, on streams and on datagrams.
use numa::config::ProxyProtocolConfig;
use numa::net::{parse_ip, parse_socket_addr, SocketAddr};
use numa::pp2::{gate, handshake, init, Gate, HeaderRead, PpConfig};
use numa::pp2_udp::{parse_if_trusted, UdpPp};
use numa::stats::ServerStats;
use proxy_header::{ProxiedAddress, ProxyHeader};

fn cfg(from: &[&str]) -> ProxyProtocolConfig {
    ProxyProtocolConfig {
        from: from.iter().map(|s| s.to_string()).collect(),
        header_timeout_ms: 5000,
    }
}

fn addr(s: &str) -> SocketAddr {
    parse_socket_addr(s).unwrap()
}

#[test]
fn empty_from_disables_feature() {
    let pp = PpConfig::from_config(&cfg(&[])).unwrap();
    assert!(pp.is_none());
}

#[test]
fn parses_exact_ipv4() {
    let pp = PpConfig::from_config(&cfg(&["127.0.0.1"])).unwrap().unwrap();
    assert!(pp.allows(parse_ip("127.0.0.1").unwrap()));
    assert!(!pp.allows(parse_ip("127.0.0.2").unwrap()));
}

#[test]
fn parses_ipv4_cidr() {
    let pp = PpConfig::from_config(&cfg(&["10.0.0.0/8"])).unwrap().unwrap();
    assert!(pp.allows(parse_ip("10.255.255.255").unwrap()));
    assert!(!pp.allows(parse_ip("11.0.0.1").unwrap()));
}

#[test]
fn parses_ipv6_cidr() {
    let pp = PpConfig::from_config(&cfg(&["fd00::/8"])).unwrap().unwrap();
    assert!(pp.allows(parse_ip("fd00::1").unwrap()));
    assert!(!pp.allows(parse_ip("2001:db8::1").unwrap()));
}

#[test]
fn rejects_garbage() {
    assert!(PpConfig::from_config(&cfg(&["not-a-cidr"])).is_err());
}

#[test]
fn mixed_v4_v6_allowlist() {
    let pp = PpConfig::from_config(&cfg(&["127.0.0.1", "::1", "10.0.0.0/8"])).unwrap().unwrap();
    assert!(pp.allows(parse_ip("127.0.0.1").unwrap()));
    assert!(pp.allows(parse_ip("::1").unwrap()));
    assert!(pp.allows(parse_ip("10.5.5.5").unwrap()));
    assert!(!pp.allows(parse_ip("8.8.8.8").unwrap()));
}

#[test]
fn listener_is_turned_off_with_a_message() {
    assert!(init("TCP", &cfg(&[])).unwrap().is_none());
    assert_eq!(init("TCP", &cfg(&["::1"])).unwrap().unwrap().header_timeout, 5000);
    assert_eq!(
        init("TCP", &cfg(&["x"])).unwrap_err(),
        "TCP: invalid proxy_protocol config (invalid CIDR or IP in proxy_protocol.from: \"x\") \u{2014} listener disabled"
    );
}

#[test]
fn connections_are_gated() {
    let mut stats = ServerStats::new(0);
    let pp = PpConfig::from_config(&cfg(&["10.0.0.0/8"])).unwrap().unwrap();
    let peer = addr("10.0.0.1:5");
    assert_eq!(gate(None, peer.ip, &mut stats), Gate::Direct);
    assert_eq!(gate(Some(&pp), peer.ip, &mut stats), Gate::ReadHeader(5000));
    assert_eq!(gate(Some(&pp), addr("8.8.8.8:1").ip, &mut stats), Gate::Drop);
    assert_eq!(stats.proxy_v2_rejected_untrusted, 1);

    let client = addr("203.0.113.5:55000");
    assert_eq!(
        handshake(HeaderRead::Header(Some(client)), peer, &mut stats),
        Some((client, false))
    );
    assert_eq!(handshake(HeaderRead::Header(None), peer, &mut stats), Some((peer, true)));
    assert_eq!(handshake(HeaderRead::Invalid, peer, &mut stats), None);
    assert_eq!(handshake(HeaderRead::TimedOut, peer, &mut stats), None);
    assert_eq!(stats.proxy_v2_accepted, 1);
    assert_eq!(stats.proxy_v2_local_command, 1);
    assert_eq!(stats.proxy_v2_rejected_signature, 1);
    assert_eq!(stats.proxy_v2_timeout, 1);
}

fn pp_cfg(from: &[&str]) -> PpConfig {
    PpConfig::from_config(&cfg(from)).unwrap().unwrap()
}

fn proxied_v4_datagram(client: &str, server: &str, dns_payload: &[u8]) -> Vec<u8> {
    let header = ProxyHeader::with_address(ProxiedAddress::datagram(
        client.parse().unwrap(),
        server.parse().unwrap(),
    ));
    let mut buf = vec![0u8; 256];
    let len = header.encode_to_slice_v2(&mut buf).unwrap();
    buf.truncate(len);
    buf.extend_from_slice(dns_payload);
    buf
}

#[test]
fn disabled_returns_bare_without_signature_peek() {
    let mut stats = ServerStats::new(0);
    let datagram = b"\x12\x34\x01\x00\x00\x01\x00\x00";
    let peer = addr("8.8.8.8:53");
    assert_eq!(parse_if_trusted(datagram, peer, None, &mut stats), UdpPp::Bare);
}

#[test]
fn untrusted_peer_drops() {
    let mut stats = ServerStats::new(0);
    let pp = pp_cfg(&["10.0.0.0/8"]);
    let dns = b"\x12\x34\x01\x00\x00\x01\x00\x00";
    let datagram = proxied_v4_datagram("203.0.113.5:55000", "10.0.0.1:53", dns);
    let peer = addr("8.8.8.8:33333");
    assert_eq!(parse_if_trusted(&datagram, peer, Some(&pp), &mut stats), UdpPp::Drop);
    assert_eq!(stats.proxy_v2_rejected_untrusted, 1);
}

#[test]
fn trusted_peer_with_valid_v4_header_extracts_src_and_offset() {
    let mut stats = ServerStats::new(0);
    let pp = pp_cfg(&["172.16.0.0/12"]);
    let dns = b"\x12\x34\x01\x00\x00\x01\x00\x00\x00\x00\x00\x00\
                \x07example\x03com\x00\x00\x01\x00\x01";
    let datagram = proxied_v4_datagram("203.0.113.5:55000", "172.29.0.10:53", dns);
    let peer = addr("172.29.0.20:44444");

    match parse_if_trusted(&datagram, peer, Some(&pp), &mut stats) {
        UdpPp::Proxied { src, hdr_len, local_command } => {
            assert_eq!(src, addr("203.0.113.5:55000"));
            assert!(!local_command, "PROXY command is not a LOCAL probe");
            assert_eq!(&datagram[hdr_len..], dns);
        }
        other => panic!("expected Proxied, got {other:?}"),
    }
    assert_eq!(stats.proxy_v2_accepted, 1);
}

#[test]
fn local_header_keeps_the_peer() {
    let mut stats = ServerStats::new(0);
    let pp = pp_cfg(&["127.0.0.0/8"]);
    let mut buf = vec![0u8; 256];
    let len = ProxyHeader::with_local().encode_to_slice_v2(&mut buf).unwrap();
    let peer = addr("127.0.0.1:9");
    assert_eq!(
        parse_if_trusted(&buf[..len], peer, Some(&pp), &mut stats),
        UdpPp::Proxied { src: peer, hdr_len: 16, local_command: true }
    );
    assert_eq!(stats.proxy_v2_local_command, 1);
}

#[test]
fn v6_header_gives_the_v6_source() {
    let mut stats = ServerStats::new(0);
    let pp = pp_cfg(&["127.0.0.0/8"]);
    let datagram = proxied_v4_datagram("[2001:db8::7]:1000", "[2001:db8::1]:53", b"x");
    match parse_if_trusted(&datagram, addr("127.0.0.1:9"), Some(&pp), &mut stats) {
        UdpPp::Proxied { src, hdr_len, .. } => {
            assert_eq!(src, addr("[2001:db8::7]:1000"));
            assert_eq!(hdr_len, datagram.len() - 1);
        }
        other => panic!("expected Proxied, got {other:?}"),
    }
}

#[test]
fn trusted_peer_with_garbled_signature_drops() {
    let mut stats = ServerStats::new(0);
    let pp = pp_cfg(&["127.0.0.0/8"]);
    // Looks like a v2 attempt (starts with \r) but truncated/bogus.
    let datagram = b"\r\n\r\n\x00\r\nQUIT\nGARBAGE_PAYLOAD";
    let peer = addr("127.0.0.1:55555");
    assert_eq!(parse_if_trusted(datagram, peer, Some(&pp), &mut stats), UdpPp::Drop);
    assert_eq!(stats.proxy_v2_rejected_signature, 1);
}

#[test]
fn trusted_peer_with_bare_dns_drops_in_required_mode() {
    // An enabled allowlist puts the listener in PROXY-required mode for
    // permitted senders. A bare DNS datagram from an allowlisted IP is a
    // misconfigured sender, not a bypass.
    let mut stats = ServerStats::new(0);
    let pp = pp_cfg(&["127.0.0.0/8"]);
    let bare_dns = b"\x12\x34\x01\x00\x00\x01\x00\x00\x00\x00\x00\x00\
                     \x07example\x03com\x00\x00\x01\x00\x01";
    let peer = addr("127.0.0.1:55555");
    assert_eq!(parse_if_trusted(bare_dns, peer, Some(&pp), &mut stats), UdpPp::Drop);
    assert_eq!(stats.proxy_v2_rejected_signature, 1);
}

#[test]
fn apply_bare_passes_through() {
    let mut buf = *b"hello-world";
    let peer = addr("1.2.3.4:53");
    assert_eq!(UdpPp::Bare.apply(&mut buf, 11, peer), Some((peer, 11, false)));
    assert_eq!(&buf, b"hello-world");
}

#[test]
fn apply_proxied_shifts_buffer_and_swaps_source() {
    let mut buf = *b"PROXY-HDRdns-payload"; // 9-byte fake header
    let peer = addr("10.0.0.1:53");
    let real = addr("203.0.113.5:55000");
    let r = UdpPp::Proxied { src: real, hdr_len: 9, local_command: false }
        .apply(&mut buf, 20, peer);
    assert_eq!(r, Some((real, 11, false)));
    assert_eq!(&buf[..11], b"dns-payload");
}

#[test]
fn apply_drop_returns_none() {
    let mut buf = [0u8; 4];
    let peer = addr("1.2.3.4:53");
    assert_eq!(UdpPp::Drop.apply(&mut buf, 4, peer), None);
}
