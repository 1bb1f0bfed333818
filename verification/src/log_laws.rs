//! What is kept of queries: how each is counted, and which are listed.
use vstd::prelude::*;

use crate::query_log::{newest_first, QueryLog, QueryLogEntry, QueryLogFilter};
use crate::stats::{
    resident_pages, whole_secs, QueryPath, ServerStats, StatsSnapshot, Transport,
    UpstreamTransport,
};
use crate::text::{ascii_lowercase, decimal, has_part, words};
use crate::text_laws::numbers_are_read;

verus! {

// ---------------------------------------------------------------------------
// Counts
// ---------------------------------------------------------------------------

/// One more where something holds.
pub open spec fn one_if(b: bool) -> int {
    if b {
        1
    } else {
        0
    }
}

/// A query counts once in all, once by the way of its answer, once by how it
/// came, and once by how the upstream was reached where there was one; nothing
/// else is counted with it.
pub proof fn a_query_counts_once(
    now: ServerStats,
    old: ServerStats,
    path: QueryPath,
    transport: Transport,
    up: Option<UpstreamTransport>,
)
    requires
        now.counted(&old, path, transport, up),
    ensures
        now.queries_total - old.queries_total == 1,
        now.queries_local - old.queries_local == one_if(path is Local),
        now.queries_cached - old.queries_cached == one_if(path is Cached),
        now.queries_forwarded - old.queries_forwarded == one_if(path is Forwarded),
        now.queries_upstream - old.queries_upstream == one_if(path is Upstream),
        now.queries_recursive - old.queries_recursive == one_if(path is Recursive),
        now.queries_coalesced - old.queries_coalesced == one_if(path is Coalesced),
        now.queries_blocked - old.queries_blocked == one_if(path is Blocked),
        now.queries_overridden - old.queries_overridden == one_if(path is Overridden),
        now.upstream_errors - old.upstream_errors == one_if(path is UpstreamError),
        now.transport_udp - old.transport_udp == one_if(transport is Udp),
        now.transport_tcp - old.transport_tcp == one_if(transport is Tcp),
        now.transport_dot - old.transport_dot == one_if(transport is Dot),
        now.transport_doh - old.transport_doh == one_if(transport is Doh),
        now.upstream_transport_udp - old.upstream_transport_udp == one_if(
            up matches Some(UpstreamTransport::Udp),
        ),
        now.upstream_transport_tcp - old.upstream_transport_tcp == one_if(
            up matches Some(UpstreamTransport::Tcp),
        ),
        now.upstream_transport_doh - old.upstream_transport_doh == one_if(
            up matches Some(UpstreamTransport::Doh),
        ),
        now.upstream_transport_dot - old.upstream_transport_dot == one_if(
            up matches Some(UpstreamTransport::Dot),
        ),
        now.upstream_transport_odoh - old.upstream_transport_odoh == one_if(
            up matches Some(UpstreamTransport::Odoh),
        ),
        now.rebind_stripped == old.rebind_stripped,
        now.proxy_v2_accepted == old.proxy_v2_accepted,
        now.proxy_v2_rejected_untrusted == old.proxy_v2_rejected_untrusted,
        now.proxy_v2_rejected_signature == old.proxy_v2_rejected_signature,
        now.proxy_v2_local_command == old.proxy_v2_local_command,
        now.proxy_v2_timeout == old.proxy_v2_timeout,
        now.started_at == old.started_at,
{
}

/// Of the ways of an answer, those by the server's own zones, overrides and
/// blocklists are its own, and no others.
pub proof fn own_answers(path: QueryPath)
    ensures
        path.trusted() <==> match path {
            QueryPath::Local | QueryPath::Overridden | QueryPath::Blocked => true,
            QueryPath::Cached | QueryPath::Forwarded | QueryPath::Upstream | QueryPath::Recursive
            | QueryPath::Coalesced | QueryPath::UpstreamError => false,
        },
{
}

/// The names of the ways, which are read in either case of letters.
pub proof fn names_of_ways(path: QueryPath, s: Seq<char>)
    ensures
        path.named(s) <==> ascii_lowercase(s) == ascii_lowercase(
            match path {
                QueryPath::Local => "LOCAL"@,
                QueryPath::Cached => "CACHED"@,
                QueryPath::Forwarded => "FORWARD"@,
                QueryPath::Upstream => "UPSTREAM"@,
                QueryPath::Recursive => "RECURSIVE"@,
                QueryPath::Coalesced => "COALESCED"@,
                QueryPath::Blocked => "BLOCKED"@,
                QueryPath::Overridden => "OVERRIDE"@,
                QueryPath::UpstreamError => "SERVFAIL"@,
            },
        ),
{
}

/// The seconds between two times are the whole ones, and none where the second
/// comes first.
pub proof fn whole_seconds(from: u64, secs: u64, rest: u64)
    requires
        rest < 1_000_000_000,
        from + secs * 1_000_000_000 + rest <= u64::MAX,
    ensures
        whole_secs(from, (from + secs * 1_000_000_000 + rest) as u64) == secs,
        rest > 0 ==> whole_secs((from + rest) as u64, from) == 0,
{
}

/// The pages that a process holds are the second number of its status.
pub proof fn pages_are_the_second_number(line: Seq<char>, n: nat)
    requires
        words(line).len() >= 2,
        words(line)[1] == decimal(n),
    ensures
        n <= usize::MAX ==> resident_pages(line) == Some(n),
        n > usize::MAX ==> resident_pages(line) is None,
{
    numbers_are_read(n, decimal(n));
}

// ---------------------------------------------------------------------------
// The log
// ---------------------------------------------------------------------------

/// The entries that are listed are those that the filter lets through, from the
/// last to the first.
pub proof fn entries_are_listed_backwards(
    entries: Seq<QueryLogEntry>,
    filter: QueryLogFilter,
    keep: spec_fn(QueryLogEntry) -> bool,
)
    requires
        forall|e: QueryLogEntry| #[trigger]
            keep(e) <==> (filter.domain is None || has_part(e.domain@, filter.domain->0@)) && (
            filter.query_type is None || e.query_type == filter.query_type->0) && (filter.path
                is None || e.path == filter.path->0),
    ensures
        newest_first(entries, filter) == entries.filter(keep).reverse(),
    decreases entries.len(),
{
    reveal(Seq::filter);
    if entries.len() > 0 {
        entries_are_listed_backwards(entries.drop_last(), filter, keep);
        assert(keep(entries.last()) == filter.wants(entries.last()));
    }
    assert(newest_first(entries, filter) =~= entries.filter(keep).reverse());
}

/// At most as many entries are listed as were asked for, fifty where nothing
/// was said.
pub proof fn listing_has_a_limit(filter: QueryLogFilter)
    ensures
        filter.limit matches Some(n) ==> filter.most() == n,
        filter.limit is None ==> filter.most() == 50,
{
}

/// A new entry goes behind the others. Where the log is full, the oldest goes;
/// nothing else does, and the order stays.
pub proof fn oldest_entry_makes_room(
    entries: Seq<QueryLogEntry>,
    capacity: usize,
    e: QueryLogEntry,
)
    requires
        entries.len() > 0,
    ensures
        entries.len() < capacity ==> QueryLog::after_push(entries, capacity, e) == entries + seq![
            e,
        ],
        entries.len() >= capacity ==> QueryLog::after_push(entries, capacity, e)
            == entries.subrange(1, entries.len() as int) + seq![e],
        QueryLog::after_push(Seq::empty(), capacity, e) == seq![e],
{
    assert(QueryLog::after_push(entries, capacity, e) =~= if entries.len() < capacity {
        entries + seq![e]
    } else {
        entries.subrange(1, entries.len() as int) + seq![e]
    });
    assert(QueryLog::after_push(Seq::empty(), capacity, e) =~= seq![e]);
}

/// What is told of the counts is each count as it is, and the whole seconds since
/// the start.
pub proof fn counts_are_told_as_they_are(t: StatsSnapshot, s: ServerStats, now: u64)
    requires
        t.of(&s, now),
    ensures
        t.uptime_secs == whole_secs(s.started_at, now),
        t.total == s.queries_total,
        t.forwarded == s.queries_forwarded,
        t.upstream == s.queries_upstream,
        t.recursive == s.queries_recursive,
        t.coalesced == s.queries_coalesced,
        t.cached == s.queries_cached,
        t.blocked == s.queries_blocked,
        t.local == s.queries_local,
        t.overridden == s.queries_overridden,
        t.errors == s.upstream_errors,
        t.transport_udp == s.transport_udp,
        t.transport_tcp == s.transport_tcp,
        t.transport_dot == s.transport_dot,
        t.transport_doh == s.transport_doh,
        t.upstream_transport_udp == s.upstream_transport_udp,
        t.upstream_transport_tcp == s.upstream_transport_tcp,
        t.upstream_transport_doh == s.upstream_transport_doh,
        t.upstream_transport_dot == s.upstream_transport_dot,
        t.upstream_transport_odoh == s.upstream_transport_odoh,
        t.proxy_v2_accepted == s.proxy_v2_accepted,
        t.proxy_v2_rejected_untrusted == s.proxy_v2_rejected_untrusted,
        t.proxy_v2_rejected_signature == s.proxy_v2_rejected_signature,
        t.proxy_v2_local_command == s.proxy_v2_local_command,
        t.proxy_v2_timeout == s.proxy_v2_timeout,
        t.rebind_stripped == s.rebind_stripped,
{
}

/// A server starts with nothing counted.
pub proof fn nothing_is_counted_at_the_start(now: u64)
    ensures
        ServerStats::fresh(now).queries_total == 0,
        ServerStats::fresh(now).started_at == now,
        ServerStats::fresh(now).wf(),
        ServerStats::fresh(now).rebind_stripped == 0,
        ServerStats::fresh(now).upstream_sum() == 0,
{
}

/// The line about the counts tells the time since the start in hours, minutes and
/// seconds, and each count by its name.
pub proof fn line_about_the_counts(st: ServerStats, now: u64, h: nat, m: nat, s: nat)
    requires
        whole_secs(st.started_at, now) == h * 3600 + m * 60 + s,
        m < 60,
        s < 60,
    ensures
        st.summary(now) == "STATS | uptime "@ + decimal(h) + "h"@ + decimal(m) + "m"@ + decimal(s)
            + "s"@
            + " | total "@ + decimal(st.queries_total as nat)
            + " | fwd "@ + decimal(st.queries_forwarded as nat)
            + " | upstream "@ + decimal(st.queries_upstream as nat)
            + " | recursive "@ + decimal(st.queries_recursive as nat)
            + " | coalesced "@ + decimal(st.queries_coalesced as nat)
            + " | cached "@ + decimal(st.queries_cached as nat)
            + " | local "@ + decimal(st.queries_local as nat)
            + " | override "@ + decimal(st.queries_overridden as nat)
            + " | blocked "@ + decimal(st.queries_blocked as nat)
            + " | errors "@ + decimal(st.upstream_errors as nat)
            + " | up-udp "@ + decimal(st.upstream_transport_udp as nat)
            + " | up-tcp "@ + decimal(st.upstream_transport_tcp as nat)
            + " | up-doh "@ + decimal(st.upstream_transport_doh as nat)
            + " | up-dot "@ + decimal(st.upstream_transport_dot as nat)
            + " | up-odoh "@ + decimal(st.upstream_transport_odoh as nat)
            + " | rebind "@ + decimal(st.rebind_stripped as nat),
{
    let up = st.uptime(now);
    assert(up == h * 3600 + m * 60 + s);
    assert(up as int / 3600 == h);
    assert(up as int % 3600 == m * 60 + s);
    assert(up as int % 3600 / 60 == m);
    assert(up as int % 60 == s);
    assert((up / 3600) as nat == h && (up % 3600 / 60) as nat == m && (up % 60) as nat == s);
}

} // verus!
