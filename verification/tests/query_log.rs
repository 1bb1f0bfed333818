//! The log of queries.
use numa::dnssec::DnssecStatus;
use numa::header::ResultCode;
use numa::net::parse_socket_addr;
use numa::query_log::{log_room, QueryLog, QueryLogEntry, QueryLogFilter};
use numa::question::QueryType;
use numa::stats::{QueryPath, Transport};

#[test]
fn heap_bytes_grows_with_entries() {
    let mut log = QueryLog::new(100);
    let empty = log.heap_bytes();
    log.push(entry("example.com"));
    assert!(log.heap_bytes() > empty);
}

fn entry(domain: &str) -> QueryLogEntry {
    QueryLogEntry {
        seq: 0,
        timestamp: 1_700_000_000_000_000,
        src_addr: parse_socket_addr("127.0.0.1:1234").unwrap(),
        domain: domain.into(),
        query_type: QueryType::A,
        path: QueryPath::Forwarded,
        transport: Transport::Udp,
        rescode: ResultCode::NOERROR,
        latency_us: 500,
        dnssec: DnssecStatus::Indeterminate,
        rebind_stripped: false,
    }
}

#[test]
fn push_stamps_monotonic_seq() {
    let mut log = QueryLog::new(2);
    for d in ["a", "b", "c"] {
        log.push(entry(d));
    }
    // Capacity 2: "a" was evicted, "b" and "c" remain with their stamped
    // seqs (2, 3) intact: seq is stamped at push, never derived from
    // position, so eviction does not renumber survivors.
    let filter = QueryLogFilter {
        domain: None,
        query_type: None,
        path: None,
        limit: Some(10),
    };
    let seqs: Vec<u64> = log.query(&filter).into_iter().map(|e| e.seq).collect();
    assert_eq!(seqs, vec![3, 2]); // query() returns newest-first
}

#[test]
fn filters_pick_entries() {
    let mut log = QueryLog::new(10);
    log.push(entry("a.example"));
    let mut other = entry("b.example");
    other.path = QueryPath::Cached;
    other.query_type = QueryType::AAAA;
    log.push(other);
    let all = QueryLogFilter { domain: None, query_type: None, path: None, limit: None };
    assert_eq!(log.query(&all).len(), 2);
    let cached = QueryLogFilter { path: Some(QueryPath::Cached), ..all };
    assert_eq!(log.query(&cached)[0].domain, "b.example");
    let named = QueryLogFilter {
        domain: Some("a.".into()),
        query_type: Some(QueryType::A),
        path: None,
        limit: Some(1),
    };
    assert_eq!(log.query(&named)[0].seq, 1);
}

#[test]
fn memory_of_a_log_is_entries_and_rooms() {
    let entry = std::mem::size_of::<QueryLogEntry>();
    assert_eq!(log_room(&vec![10, 20, 30]), 3 * entry + 60);
    assert_eq!(log_room(&vec![]), 0);
    assert_eq!(log_room(&vec![usize::MAX]), usize::MAX);
}
