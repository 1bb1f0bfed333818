//! The server for developers.
use numa::dev_domains::{load_domains, normalize_domain, DomainMap, Reloader};
use numa::dev_server::{
    build_servfail, handle_dns_message, parse_args, parse_query, qtype_name, result_name, ArgError,
    Invocation, QueryResult,
};
use numa::net::{parse_socket_addr, Ipv4Addr};

fn load(contents: &str) -> Result<DomainMap, String> {
    load_domains("domains.txt", contents)
}

#[test]
fn load_domains_accepts_multiple_domains() {
    let entries = load(
        "\
# comment
192.168.0.103 api.example.test pay.example.test
10.0.0.2 admin.example.test.
",
    )
    .unwrap();

    assert_eq!(entries.len(), 3);
    assert_eq!(
        entries.get("api.example.test"),
        Some(Ipv4Addr::new(192, 168, 0, 103))
    );
    assert_eq!(
        entries.get("pay.example.test"),
        Some(Ipv4Addr::new(192, 168, 0, 103))
    );
    assert_eq!(entries.get("admin.example.test"), Some(Ipv4Addr::new(10, 0, 0, 2)));
}

#[test]
fn load_domains_rejects_empty_file() {
    let err = load("\n# only comments\n").unwrap_err();
    assert!(err.contains("no domains found"));
}

#[test]
fn load_domains_rejects_missing_domain() {
    let err = load("192.168.0.103\n").unwrap_err();
    assert!(err.contains("must be '<ip> <domain> [domain...]'"));
}

#[test]
fn load_domains_rejects_invalid_ipv4() {
    let err = load("not-an-ip api.example.test\n").unwrap_err();
    assert!(err.contains("invalid IPv4"));
}

#[test]
fn load_domains_rejects_wildcard_domain() {
    let err = load("192.168.0.103 *.example.test\n").unwrap_err();
    assert!(err.contains("exact IPv4 domains only"));
}

#[test]
fn messages_name_the_line() {
    assert_eq!(
        load("1.2.3.4 a\n\n1.2.3 b\n").unwrap_err(),
        "domains.txt:3 invalid IPv4 '1.2.3': invalid IPv4 address syntax"
    );
    assert_eq!(
        load("1.2.3.4 .\n").unwrap_err(),
        "domains.txt:1 numa-dev supports exact IPv4 domains only: "
    );
}

#[test]
fn last_address_of_a_domain_counts() {
    let entries = load("1.1.1.1 a.test b.test\n2.2.2.2 A.test.\n").unwrap();
    assert_eq!(entries.len(), 2);
    assert_eq!(entries.get("a.test"), Some(Ipv4Addr::new(2, 2, 2, 2)));
    assert_eq!(normalize_domain(" A.Test.. "), "a.test");
}

#[test]
fn failed_reload_keeps_the_domains() {
    let mut r = Reloader { entries: load("1.1.1.1 a.test\n").unwrap(), last_error: None };
    let log = r.reload("f", load("broken\n"));
    assert!(log.unwrap().starts_with("domain reload failed; keeping previous entries: "));
    assert_eq!(r.entries.get("a.test"), Some(Ipv4Addr::new(1, 1, 1, 1)));
    assert_eq!(r.reload("f", load("broken\n")), None);
    assert_eq!(
        r.reload("f", load("2.2.2.2 a.test b.test\n")).unwrap(),
        "domains reloaded from f: 2 entries"
    );
    assert_eq!(r.reload("f", load("3.3.3.3 a.test\n")), None);
    assert_eq!(r.entries.get("a.test"), Some(Ipv4Addr::new(3, 3, 3, 3)));
}

fn query(name: &[u8], qtype: u8) -> Vec<u8> {
    let mut m = vec![0x12, 0x34, 0x01, 0, 0, 1, 0, 0, 0, 0, 0, 0];
    m.extend_from_slice(name);
    m.extend_from_slice(&[0, qtype, 0, 1]);
    m
}

#[test]
fn known_domain_gets_its_address() {
    let entries = load("10.0.0.9 a.test\n").unwrap();
    let msg = query(b"\x01A\x04test\x00", 1);
    let h = handle_dns_message(&msg, &entries, 60).unwrap();
    assert_eq!(h.domain, "a.test");
    assert_eq!(h.result, QueryResult::A(Ipv4Addr::new(10, 0, 0, 9)));
    let mut want = vec![0x12, 0x34, 0x85, 0, 0, 1, 0, 1, 0, 0, 0, 0];
    want.extend_from_slice(&msg[12..]);
    want.extend_from_slice(&[0xc0, 0x0c, 0, 1, 0, 1, 0, 0, 0, 60, 0, 4, 10, 0, 0, 9]);
    assert_eq!(h.response, want);
}

#[test]
fn other_types_are_empty_and_other_names_unknown() {
    let entries = load("10.0.0.9 a.test\n").unwrap();
    let h = handle_dns_message(&query(b"\x01a\x04test\x00", 28), &entries, 60).unwrap();
    assert_eq!(h.result, QueryResult::Empty);
    assert_eq!(h.response[3], 0);
    let h = handle_dns_message(&query(b"\x01b\x04test\x00", 1), &entries, 60).unwrap();
    assert_eq!(h.result, QueryResult::NxDomain);
    assert_eq!(h.response[3], 3);
    assert_eq!(result_name(h.result), "NXDOMAIN");
    assert_eq!(qtype_name(28), "AAAA");
    assert_eq!(qtype_name(65), "TYPE65");
}

#[test]
fn unreadable_queries_are_told_apart() {
    assert_eq!(parse_query(&[0; 11]).unwrap_err(), "packet too short");
    assert_eq!(parse_query(&[0; 12]).unwrap_err(), "packet has no question");
    assert_eq!(parse_query(&query(b"", 1)[..12]).unwrap_err(), "name out of bounds");
    assert_eq!(parse_query(&query(b"\x01a\x00", 1)[..16]).unwrap_err(), "question truncated");
    assert_eq!(parse_query(&query(b"\xc0\x0c", 1)).unwrap_err(), "too many compression jumps");
    assert_eq!(parse_query(&query(b"\x80", 1)).unwrap_err(), "invalid label length");
    assert_eq!(parse_query(&query(b"\x3fa", 1)).unwrap_err(), "label out of bounds");
    assert_eq!(parse_query(&query(b"\x01\xff\x00", 1)).unwrap_err(), "label is not utf-8");
    let mut cut = query(b"", 1);
    cut.truncate(12);
    cut.push(0xc0);
    assert_eq!(parse_query(&cut).unwrap_err(), "compression pointer truncated");
}

#[test]
fn server_failure_repeats_the_rest() {
    let msg = query(b"\x01a\x00", 1);
    let out = build_servfail(&msg, 7, false).unwrap();
    assert_eq!(&out[..12], &[0, 7, 0x84, 2, 0, 1, 0, 0, 0, 0, 0, 0]);
    assert_eq!(&out[12..], &msg[12..]);
    assert!(build_servfail(&[0; 3], 7, true).is_none());
}

fn args(list: &[&str]) -> Result<Invocation, ArgError> {
    parse_args(&list.iter().map(|s| s.to_string()).collect())
}

#[test]
fn arguments_are_read() {
    match args(&[]).unwrap() {
        Invocation::Run(o) => {
            assert_eq!(o.domains_path, "dev-domains.txt");
            assert_eq!(o.bind, parse_socket_addr("127.0.0.2:53").unwrap());
            assert_eq!(o.ttl, 60);
        }
        Invocation::Help => panic!("no help was asked for"),
    }
    match args(&["--ttl", "5", "--bind", "127.0.0.1:5300", "--domains", "d.txt"]).unwrap() {
        Invocation::Run(o) => {
            assert_eq!(o.domains_path, "d.txt");
            assert_eq!(o.bind, parse_socket_addr("127.0.0.1:5300").unwrap());
            assert_eq!(o.ttl, 5);
        }
        Invocation::Help => panic!("no help was asked for"),
    }
    assert!(matches!(args(&["-h", "--nonsense"]), Ok(Invocation::Help)));
    assert!(matches!(args(&["--domains"]), Err(ArgError::MissingPath)));
    assert!(matches!(args(&["--bind"]), Err(ArgError::MissingAddress)));
    assert!(matches!(args(&["--ttl"]), Err(ArgError::MissingSeconds)));
    assert!(matches!(args(&["--bind", "x"]), Err(ArgError::BadAddress(_))));
    assert!(matches!(args(&["--ttl", "4294967296"]), Err(ArgError::BadSeconds(_))));
    assert!(matches!(args(&["serve"]), Err(ArgError::Unknown(_))));
}

#[test]
fn comments_blank_lines_and_letter_case_do_not_matter() {
    let plain = load("10.0.0.1 api.example.com\n").unwrap();
    let noted = load("\n  \t\n# all\n10.0.0.1 API.Example.com. # mine\n").unwrap();
    for map in [&plain, &noted] {
        assert_eq!(map.len(), 1);
        assert_eq!(map.get("api.example.com").unwrap().bits, 0x0a00_0001);
        assert!(map.get("www.api.example.com").is_none());
    }
    assert_eq!(normalize_domain(" API.Example.COM.. "), "api.example.com");
    let asked = query(b"\x03ApI\x07exAMPle\x03COM\x00", 1);
    let h = handle_dns_message(&asked, &plain, 60).unwrap();
    assert_eq!(h.domain, "api.example.com");
    assert_eq!(&h.response[h.response.len() - 10..], &[0, 0, 0, 60, 0, 4, 10, 0, 0, 1]);
}

#[test]
fn ipv6_addresses_are_refused() {
    assert!(load("::1 api.example.com\n").unwrap_err().contains("invalid IPv4 '::1'"));
}

#[test]
fn every_wildcard_is_refused() {
    for name in ["*", "*.example.test", "a.*.example.test", "a*.example.test", "example.*"] {
        let err = load(&format!("192.168.0.103 {name}\n")).unwrap_err();
        assert!(err.contains("exact IPv4 domains only"), "{name}");
    }
}
