//! Counters of what the server has done.
use vstd::prelude::*;

use crate::text::{
    ascii_lowercase, concat, decimal, decimal_string, eq_ignore_ascii_case, parse_u64,
    parsed_number, split_whitespace, words,
};

verus! {

/// How a client reached the server.
#[derive(Clone, Copy, Debug, PartialEq, Eq, Structural)]
pub enum Transport {
    Udp,
    Tcp,
    Dot,
    Doh,
}

impl Transport {
    /// The name of the transport.
    pub open spec fn name(&self) -> Seq<char> {
        match self {
            Transport::Udp => "UDP"@,
            Transport::Tcp => "TCP"@,
            Transport::Dot => "DOT"@,
            Transport::Doh => "DOH"@,
        }
    }

    /// The name of the transport.
    pub fn as_str(&self) -> (s: &'static str)
        ensures
            s@ == self.name(),
    {
        match self {
            Transport::Udp => "UDP",
            Transport::Tcp => "TCP",
            Transport::Dot => "DOT",
            Transport::Doh => "DOH",
        }
    }
}

/// How the server reached an upstream.
#[derive(Clone, Copy, Debug, PartialEq, Eq, Hash, Structural)]
pub enum UpstreamTransport {
    Udp,
    Tcp,
    Doh,
    Dot,
    Odoh,
}

impl UpstreamTransport {
    /// The name of the transport.
    pub open spec fn name(&self) -> Seq<char> {
        match self {
            UpstreamTransport::Udp => "UDP"@,
            UpstreamTransport::Tcp => "TCP"@,
            UpstreamTransport::Doh => "DOH"@,
            UpstreamTransport::Dot => "DOT"@,
            UpstreamTransport::Odoh => "ODOH"@,
        }
    }

    /// The name of the transport.
    pub fn as_str(&self) -> (s: &'static str)
        ensures
            s@ == self.name(),
    {
        match self {
            UpstreamTransport::Udp => "UDP",
            UpstreamTransport::Tcp => "TCP",
            UpstreamTransport::Doh => "DOH",
            UpstreamTransport::Dot => "DOT",
            UpstreamTransport::Odoh => "ODOH",
        }
    }
}

/// Where an answer came from.
#[derive(Clone, Copy, Debug, PartialEq, Eq, Structural)]
pub enum QueryPath {
    Local,
    Cached,
    /// A forwarding rule.
    Forwarded,
    /// The default upstreams.
    Upstream,
    Recursive,
    Coalesced,
    Blocked,
    Overridden,
    UpstreamError,
}

impl QueryPath {
    /// The name of the path.
    pub open spec fn name(&self) -> Seq<char> {
        match self {
            QueryPath::Local => "LOCAL"@,
            QueryPath::Cached => "CACHED"@,
            QueryPath::Forwarded => "FORWARD"@,
            QueryPath::Upstream => "UPSTREAM"@,
            QueryPath::Recursive => "RECURSIVE"@,
            QueryPath::Coalesced => "COALESCED"@,
            QueryPath::Blocked => "BLOCKED"@,
            QueryPath::Overridden => "OVERRIDE"@,
            QueryPath::UpstreamError => "SERVFAIL"@,
        }
    }

    /// The name of the path.
    pub fn as_str(&self) -> (s: &'static str)
        ensures
            s@ == self.name(),
    {
        match self {
            QueryPath::Local => "LOCAL",
            QueryPath::Cached => "CACHED",
            QueryPath::Forwarded => "FORWARD",
            QueryPath::Upstream => "UPSTREAM",
            QueryPath::Recursive => "RECURSIVE",
            QueryPath::Coalesced => "COALESCED",
            QueryPath::Blocked => "BLOCKED",
            QueryPath::Overridden => "OVERRIDE",
            QueryPath::UpstreamError => "SERVFAIL",
        }
    }

    /// Whether the answer is the server's own: zones, overrides and blocked names.
    pub open spec fn trusted(&self) -> bool {
        self is Local || self is Overridden || self is Blocked
    }

    /// Whether the answer is the server's own: zones, overrides and blocked names.
    pub fn returns_trusted_local_data(&self) -> (b: bool)
        ensures
            b == self.trusted(),
    {
        match self {
            QueryPath::Local | QueryPath::Overridden | QueryPath::Blocked => true,
            QueryPath::Cached | QueryPath::Forwarded | QueryPath::Upstream | QueryPath::Recursive
            | QueryPath::Coalesced | QueryPath::UpstreamError => false,
        }
    }

    /// Whether a text names the path, in any case of letters.
    pub open spec fn named(&self, s: Seq<char>) -> bool {
        ascii_lowercase(s) == ascii_lowercase(self.name())
    }

    /// The path that a text names, in any case of letters.
    pub fn parse_str(s: &str) -> (r: Option<QueryPath>)
        ensures
            match r {
                Some(p) => p.named(s@),
                None => forall|p: QueryPath| !(#[trigger] p.named(s@)),
            },
    {
        if eq_ignore_ascii_case(s, "LOCAL") {
            Some(QueryPath::Local)
        } else if eq_ignore_ascii_case(s, "CACHED") {
            Some(QueryPath::Cached)
        } else if eq_ignore_ascii_case(s, "FORWARD") {
            Some(QueryPath::Forwarded)
        } else if eq_ignore_ascii_case(s, "UPSTREAM") {
            Some(QueryPath::Upstream)
        } else if eq_ignore_ascii_case(s, "RECURSIVE") {
            Some(QueryPath::Recursive)
        } else if eq_ignore_ascii_case(s, "COALESCED") {
            Some(QueryPath::Coalesced)
        } else if eq_ignore_ascii_case(s, "BLOCKED") {
            Some(QueryPath::Blocked)
        } else if eq_ignore_ascii_case(s, "OVERRIDE") {
            Some(QueryPath::Overridden)
        } else if eq_ignore_ascii_case(s, "SERVFAIL") {
            Some(QueryPath::UpstreamError)
        } else {
            None
        }
    }
}

/// No text names two paths: the name of a path is read back as that path.
pub proof fn path_names_differ(a: QueryPath, b: QueryPath, s: Seq<char>)
    requires
        a.named(s),
        b.named(s),
    ensures
        a == b,
{
    reveal_strlit("LOCAL");
    reveal_strlit("CACHED");
    reveal_strlit("FORWARD");
    reveal_strlit("UPSTREAM");
    reveal_strlit("RECURSIVE");
    reveal_strlit("COALESCED");
    reveal_strlit("BLOCKED");
    reveal_strlit("OVERRIDE");
    reveal_strlit("SERVFAIL");
    let x = ascii_lowercase(a.name());
    let y = ascii_lowercase(b.name());
    assert(x.len() == y.len() && x[0] == y[0] && x[1] == y[1]);
}

/// The whole seconds from one time to another, both in nanoseconds: none where the
/// second comes before the first.
pub open spec fn whole_secs(from: u64, to: u64) -> u64 {
    if to >= from {
        ((to - from) / 1_000_000_000) as u64
    } else {
        0
    }
}

/// The whole seconds from one time to another, both in nanoseconds.
pub fn secs_between(from: u64, to: u64) -> (n: u64)
    ensures
        n == whole_secs(from, to),
{
    if to >= from {
        (to - from) / 1_000_000_000
    } else {
        0
    }
}

/// The counters, and when counting began, in nanoseconds.
#[derive(Clone, Copy, Debug, PartialEq, Eq, Structural)]
pub struct ServerStats {
    pub queries_total: u64,
    pub queries_forwarded: u64,
    pub queries_upstream: u64,
    pub queries_recursive: u64,
    pub queries_coalesced: u64,
    pub queries_cached: u64,
    pub queries_blocked: u64,
    pub queries_local: u64,
    pub queries_overridden: u64,
    pub upstream_errors: u64,
    pub transport_udp: u64,
    pub transport_tcp: u64,
    pub transport_dot: u64,
    pub transport_doh: u64,
    pub upstream_transport_udp: u64,
    pub upstream_transport_tcp: u64,
    pub upstream_transport_doh: u64,
    pub upstream_transport_dot: u64,
    pub upstream_transport_odoh: u64,
    pub proxy_v2_accepted: u64,
    pub proxy_v2_rejected_untrusted: u64,
    pub proxy_v2_rejected_signature: u64,
    pub proxy_v2_local_command: u64,
    pub proxy_v2_timeout: u64,
    pub rebind_stripped: u64,
    /// When counting started, in nanoseconds.
    pub started_at: u64,
}

/// The counters at one moment, and how long they have been counting.
#[derive(Clone, Copy, Debug, PartialEq, Eq, Structural)]
pub struct StatsSnapshot {
    pub uptime_secs: u64,
    pub total: u64,
    pub forwarded: u64,
    pub upstream: u64,
    pub recursive: u64,
    pub coalesced: u64,
    pub cached: u64,
    pub blocked: u64,
    pub local: u64,
    pub overridden: u64,
    pub errors: u64,
    pub transport_udp: u64,
    pub transport_tcp: u64,
    pub transport_dot: u64,
    pub transport_doh: u64,
    pub upstream_transport_udp: u64,
    pub upstream_transport_tcp: u64,
    pub upstream_transport_doh: u64,
    pub upstream_transport_dot: u64,
    pub upstream_transport_odoh: u64,
    pub proxy_v2_accepted: u64,
    pub proxy_v2_rejected_untrusted: u64,
    pub proxy_v2_rejected_signature: u64,
    pub proxy_v2_local_command: u64,
    pub proxy_v2_timeout: u64,
    pub rebind_stripped: u64,
}

impl StatsSnapshot {
    /// Whether these are the counters at a time.
    pub open spec fn of(&self, s: &ServerStats, now: u64) -> bool {
        &&& self.uptime_secs == s.uptime(now)
        &&& self.total == s.queries_total
        &&& self.forwarded == s.queries_forwarded
        &&& self.upstream == s.queries_upstream
        &&& self.recursive == s.queries_recursive
        &&& self.coalesced == s.queries_coalesced
        &&& self.cached == s.queries_cached
        &&& self.blocked == s.queries_blocked
        &&& self.local == s.queries_local
        &&& self.overridden == s.queries_overridden
        &&& self.errors == s.upstream_errors
        &&& self.transport_udp == s.transport_udp
        &&& self.transport_tcp == s.transport_tcp
        &&& self.transport_dot == s.transport_dot
        &&& self.transport_doh == s.transport_doh
        &&& self.upstream_transport_udp == s.upstream_transport_udp
        &&& self.upstream_transport_tcp == s.upstream_transport_tcp
        &&& self.upstream_transport_doh == s.upstream_transport_doh
        &&& self.upstream_transport_dot == s.upstream_transport_dot
        &&& self.upstream_transport_odoh == s.upstream_transport_odoh
        &&& self.proxy_v2_accepted == s.proxy_v2_accepted
        &&& self.proxy_v2_rejected_untrusted == s.proxy_v2_rejected_untrusted
        &&& self.proxy_v2_rejected_signature == s.proxy_v2_rejected_signature
        &&& self.proxy_v2_local_command == s.proxy_v2_local_command
        &&& self.proxy_v2_timeout == s.proxy_v2_timeout
        &&& self.rebind_stripped == s.rebind_stripped
    }
}

/// The counter of a path after a query, `n` before it.
pub open spec fn bumped(n: u64, hit: bool) -> int {
    if hit {
        n + 1
    } else {
        n as int
    }
}

impl ServerStats {
    /// The sum of the counters of paths.
    pub open spec fn path_sum(&self) -> int {
        self.queries_forwarded + self.queries_upstream + self.queries_recursive
            + self.queries_coalesced + self.queries_cached + self.queries_blocked
            + self.queries_local + self.queries_overridden + self.upstream_errors
    }

    /// The sum of the counters of transports.
    pub open spec fn transport_sum(&self) -> int {
        self.transport_udp + self.transport_tcp + self.transport_dot + self.transport_doh
    }

    /// The sum of the counters of upstream transports.
    pub open spec fn upstream_sum(&self) -> int {
        self.upstream_transport_udp + self.upstream_transport_tcp + self.upstream_transport_doh
            + self.upstream_transport_dot + self.upstream_transport_odoh
    }

    /// Whether each query was counted once by its path and once by its
    /// transport, and at most once by its upstream transport.
    pub open spec fn wf(&self) -> bool {
        &&& self.path_sum() == self.queries_total
        &&& self.transport_sum() == self.queries_total
        &&& self.upstream_sum() <= self.queries_total
    }

    /// All counters at zero.
    pub open spec fn fresh(started_at: u64) -> Self {
        ServerStats {
            queries_total: 0,
            queries_forwarded: 0,
            queries_upstream: 0,
            queries_recursive: 0,
            queries_coalesced: 0,
            queries_cached: 0,
            queries_blocked: 0,
            queries_local: 0,
            queries_overridden: 0,
            upstream_errors: 0,
            transport_udp: 0,
            transport_tcp: 0,
            transport_dot: 0,
            transport_doh: 0,
            upstream_transport_udp: 0,
            upstream_transport_tcp: 0,
            upstream_transport_doh: 0,
            upstream_transport_dot: 0,
            upstream_transport_odoh: 0,
            proxy_v2_accepted: 0,
            proxy_v2_rejected_untrusted: 0,
            proxy_v2_rejected_signature: 0,
            proxy_v2_local_command: 0,
            proxy_v2_timeout: 0,
            rebind_stripped: 0,
            started_at,
        }
    }

    /// All counters at zero.
    pub fn new(started_at: u64) -> (r: Self)
        ensures
            r.wf(),
            r == Self::fresh(started_at),
    {
        ServerStats {
            queries_total: 0,
            queries_forwarded: 0,
            queries_upstream: 0,
            queries_recursive: 0,
            queries_coalesced: 0,
            queries_cached: 0,
            queries_blocked: 0,
            queries_local: 0,
            queries_overridden: 0,
            upstream_errors: 0,
            transport_udp: 0,
            transport_tcp: 0,
            transport_dot: 0,
            transport_doh: 0,
            upstream_transport_udp: 0,
            upstream_transport_tcp: 0,
            upstream_transport_doh: 0,
            upstream_transport_dot: 0,
            upstream_transport_odoh: 0,
            proxy_v2_accepted: 0,
            proxy_v2_rejected_untrusted: 0,
            proxy_v2_rejected_signature: 0,
            proxy_v2_local_command: 0,
            proxy_v2_timeout: 0,
            rebind_stripped: 0,
            started_at,
        }
    }

    /// Counts a query of whose answer the rebinding filter took something out.
    pub fn record_rebind_stripped(&mut self)
        requires
            old(self).rebind_stripped < u64::MAX,
        ensures
            *final(self) == (ServerStats {
                rebind_stripped: (old(self).rebind_stripped + 1) as u64,
                ..*old(self)
            }),
    {
        self.rebind_stripped = self.rebind_stripped + 1;
    }

    /// Counts a query, and says how many there were.
    pub fn record(
        &mut self,
        path: QueryPath,
        transport: Transport,
        upstream_transport: Option<UpstreamTransport>,
    ) -> (total: u64)
        requires
            old(self).wf(),
            old(self).queries_total < u64::MAX,
        ensures
            final(self).wf(),
            total == old(self).queries_total + 1,
            final(self).counted(old(self), path, transport, upstream_transport),
    {
        self.queries_total = self.queries_total + 1;
        match path {
            QueryPath::Local => self.queries_local = self.queries_local + 1,
            QueryPath::Cached => self.queries_cached = self.queries_cached + 1,
            QueryPath::Forwarded => self.queries_forwarded = self.queries_forwarded + 1,
            QueryPath::Upstream => self.queries_upstream = self.queries_upstream + 1,
            QueryPath::Recursive => self.queries_recursive = self.queries_recursive + 1,
            QueryPath::Coalesced => self.queries_coalesced = self.queries_coalesced + 1,
            QueryPath::Blocked => self.queries_blocked = self.queries_blocked + 1,
            QueryPath::Overridden => self.queries_overridden = self.queries_overridden + 1,
            QueryPath::UpstreamError => self.upstream_errors = self.upstream_errors + 1,
        }
        match transport {
            Transport::Udp => self.transport_udp = self.transport_udp + 1,
            Transport::Tcp => self.transport_tcp = self.transport_tcp + 1,
            Transport::Dot => self.transport_dot = self.transport_dot + 1,
            Transport::Doh => self.transport_doh = self.transport_doh + 1,
        }
        match upstream_transport {
            None => {},
            Some(UpstreamTransport::Udp) => {
                self.upstream_transport_udp = self.upstream_transport_udp + 1;
            },
            Some(UpstreamTransport::Tcp) => {
                self.upstream_transport_tcp = self.upstream_transport_tcp + 1;
            },
            Some(UpstreamTransport::Doh) => {
                self.upstream_transport_doh = self.upstream_transport_doh + 1;
            },
            Some(UpstreamTransport::Dot) => {
                self.upstream_transport_dot = self.upstream_transport_dot + 1;
            },
            Some(UpstreamTransport::Odoh) => {
                self.upstream_transport_odoh = self.upstream_transport_odoh + 1;
            },
        }
        self.queries_total
    }

    /// Whether these are the counters `old` after a query.
    pub open spec fn counted(
        &self,
        old: &ServerStats,
        path: QueryPath,
        transport: Transport,
        up: Option<UpstreamTransport>,
    ) -> bool {
        &&& self.queries_total == old.queries_total + 1
        &&& self.queries_local == bumped(old.queries_local, path is Local)
        &&& self.queries_cached == bumped(old.queries_cached, path is Cached)
        &&& self.queries_forwarded == bumped(old.queries_forwarded, path is Forwarded)
        &&& self.queries_upstream == bumped(old.queries_upstream, path is Upstream)
        &&& self.queries_recursive == bumped(old.queries_recursive, path is Recursive)
        &&& self.queries_coalesced == bumped(old.queries_coalesced, path is Coalesced)
        &&& self.queries_blocked == bumped(old.queries_blocked, path is Blocked)
        &&& self.queries_overridden == bumped(old.queries_overridden, path is Overridden)
        &&& self.upstream_errors == bumped(old.upstream_errors, path is UpstreamError)
        &&& self.transport_udp == bumped(old.transport_udp, transport is Udp)
        &&& self.transport_tcp == bumped(old.transport_tcp, transport is Tcp)
        &&& self.transport_dot == bumped(old.transport_dot, transport is Dot)
        &&& self.transport_doh == bumped(old.transport_doh, transport is Doh)
        &&& self.upstream_transport_udp == bumped(
            old.upstream_transport_udp,
            up == Some(UpstreamTransport::Udp),
        )
        &&& self.upstream_transport_tcp == bumped(
            old.upstream_transport_tcp,
            up == Some(UpstreamTransport::Tcp),
        )
        &&& self.upstream_transport_doh == bumped(
            old.upstream_transport_doh,
            up == Some(UpstreamTransport::Doh),
        )
        &&& self.upstream_transport_dot == bumped(
            old.upstream_transport_dot,
            up == Some(UpstreamTransport::Dot),
        )
        &&& self.upstream_transport_odoh == bumped(
            old.upstream_transport_odoh,
            up == Some(UpstreamTransport::Odoh),
        )
        &&& self.proxy_v2_accepted == old.proxy_v2_accepted
        &&& self.proxy_v2_rejected_untrusted == old.proxy_v2_rejected_untrusted
        &&& self.proxy_v2_rejected_signature == old.proxy_v2_rejected_signature
        &&& self.proxy_v2_local_command == old.proxy_v2_local_command
        &&& self.proxy_v2_timeout == old.proxy_v2_timeout
        &&& self.rebind_stripped == old.rebind_stripped
        &&& self.started_at == old.started_at
    }

    /// How many queries there were.
    pub fn total(&self) -> (n: u64)
        ensures
            n == self.queries_total,
    {
        self.queries_total
    }

    /// How many whole seconds the counters have been counting at `now`: none where
    /// the clock has gone back. Times are in nanoseconds.
    pub open spec fn uptime(&self, now: u64) -> u64 {
        whole_secs(self.started_at, now)
    }

    /// How many whole seconds the counters have been counting at `now`.
    pub fn uptime_secs(&self, now: u64) -> (n: u64)
        ensures
            n == self.uptime(now),
    {
        secs_between(self.started_at, now)
    }

    /// The counters at `now`.
    pub fn snapshot(&self, now: u64) -> (r: StatsSnapshot)
        ensures
            r.of(self, now),
    {
        StatsSnapshot {
            uptime_secs: self.uptime_secs(now),
            total: self.queries_total,
            forwarded: self.queries_forwarded,
            upstream: self.queries_upstream,
            recursive: self.queries_recursive,
            coalesced: self.queries_coalesced,
            cached: self.queries_cached,
            blocked: self.queries_blocked,
            local: self.queries_local,
            overridden: self.queries_overridden,
            errors: self.upstream_errors,
            transport_udp: self.transport_udp,
            transport_tcp: self.transport_tcp,
            transport_dot: self.transport_dot,
            transport_doh: self.transport_doh,
            upstream_transport_udp: self.upstream_transport_udp,
            upstream_transport_tcp: self.upstream_transport_tcp,
            upstream_transport_doh: self.upstream_transport_doh,
            upstream_transport_dot: self.upstream_transport_dot,
            upstream_transport_odoh: self.upstream_transport_odoh,
            proxy_v2_accepted: self.proxy_v2_accepted,
            proxy_v2_rejected_untrusted: self.proxy_v2_rejected_untrusted,
            proxy_v2_rejected_signature: self.proxy_v2_rejected_signature,
            proxy_v2_local_command: self.proxy_v2_local_command,
            proxy_v2_timeout: self.proxy_v2_timeout,
            rebind_stripped: self.rebind_stripped,
        }
    }

    /// The line that sums the counters up.
    pub open spec fn summary(&self, now: u64) -> Seq<char> {
        let up = self.uptime(now);
        "STATS | uptime "@ + decimal((up / 3600) as nat) + "h"@ + decimal(
            (up % 3600 / 60) as nat,
        ) + "m"@ + decimal((up % 60) as nat) + "s"@
            + " | total "@ + decimal(self.queries_total as nat)
            + " | fwd "@ + decimal(self.queries_forwarded as nat)
            + " | upstream "@ + decimal(self.queries_upstream as nat)
            + " | recursive "@ + decimal(self.queries_recursive as nat)
            + " | coalesced "@ + decimal(self.queries_coalesced as nat)
            + " | cached "@ + decimal(self.queries_cached as nat)
            + " | local "@ + decimal(self.queries_local as nat)
            + " | override "@ + decimal(self.queries_overridden as nat)
            + " | blocked "@ + decimal(self.queries_blocked as nat)
            + " | errors "@ + decimal(self.upstream_errors as nat)
            + " | up-udp "@ + decimal(self.upstream_transport_udp as nat)
            + " | up-tcp "@ + decimal(self.upstream_transport_tcp as nat)
            + " | up-doh "@ + decimal(self.upstream_transport_doh as nat)
            + " | up-dot "@ + decimal(self.upstream_transport_dot as nat)
            + " | up-odoh "@ + decimal(self.upstream_transport_odoh as nat)
            + " | rebind "@ + decimal(self.rebind_stripped as nat)
    }

    /// The line that sums the counters up.
    pub fn log_summary(&self, now: u64) -> (s: String)
        ensures
            s@ == self.summary(now),
    {
        let up: u64 = self.uptime_secs(now);
        let mut s = concat("STATS | uptime ", decimal_string(up / 3600).as_str());
        put(&mut s, "h", up % 3600 / 60);
        put(&mut s, "m", up % 60);
        s.append("s");
        put(&mut s, " | total ", self.queries_total);
        put(&mut s, " | fwd ", self.queries_forwarded);
        put(&mut s, " | upstream ", self.queries_upstream);
        put(&mut s, " | recursive ", self.queries_recursive);
        put(&mut s, " | coalesced ", self.queries_coalesced);
        put(&mut s, " | cached ", self.queries_cached);
        put(&mut s, " | local ", self.queries_local);
        put(&mut s, " | override ", self.queries_overridden);
        put(&mut s, " | blocked ", self.queries_blocked);
        put(&mut s, " | errors ", self.upstream_errors);
        put(&mut s, " | up-udp ", self.upstream_transport_udp);
        put(&mut s, " | up-tcp ", self.upstream_transport_tcp);
        put(&mut s, " | up-doh ", self.upstream_transport_doh);
        put(&mut s, " | up-dot ", self.upstream_transport_dot);
        put(&mut s, " | up-odoh ", self.upstream_transport_odoh);
        put(&mut s, " | rebind ", self.rebind_stripped);
        s
    }
}

/// Appends a text and a number.
fn put(s: &mut String, label: &str, n: u64)
    ensures
        final(s)@ == old(s)@ + label@ + decimal(n as nat),
{
    s.append(label);
    s.append(decimal_string(n).as_str());
}

/// The number of pages that the process holds, by the second word of the text
/// that the kernel gives of it.
pub open spec fn resident_pages(statm: Seq<char>) -> Option<nat> {
    let w = words(statm);
    if w.len() < 2 {
        None
    } else {
        match parsed_number(w[1]) {
            Some(n) => if n <= usize::MAX {
                Some(n)
            } else {
                None
            },
            None => None,
        }
    }
}

/// The number of bytes that the process holds, or 0 where that is not known:
/// from the text that the kernel gives of it, if any, and the size of a page,
/// which counts as 4096 where it is not known.
pub fn process_memory_bytes(statm: Option<&str>, page_size: i64) -> (n: usize)
    ensures
        ({
            let page = if page_size > 0 {
                page_size as int
            } else {
                4096
            };
            match statm {
                None => n == 0,
                Some(t) => match resident_pages(t@) {
                    None => n == 0,
                    Some(p) => n == if p * page <= usize::MAX {
                        p * page
                    } else {
                        usize::MAX as int
                    },
                },
            }
        }),
{
    let page: u64 = if page_size > 0 {
        page_size as u64
    } else {
        4096
    };
    match statm {
        None => 0,
        Some(t) => {
            let w = split_whitespace(t);
            if w.len() < 2 {
                return 0;
            }
            assert(words(t@)[1] == w@[1]@);
            match parse_u64(w[1].as_str()) {
                Some(n) => {
                    if n > usize::MAX as u64 {
                        return 0;
                    }
                    assert(n * page <= 0xffff_ffff_ffff_ffff * 0xffff_ffff_ffff_ffff)
                        by (nonlinear_arith)
                        requires
                            0 <= n <= 0xffff_ffff_ffff_ffff,
                            0 <= page <= 0xffff_ffff_ffff_ffff,
                    ;
                    let bytes: u128 = n as u128 * page as u128;
                    if bytes <= usize::MAX as u128 {
                        bytes as usize
                    } else {
                        usize::MAX
                    }
                },
                None => 0,
            }
        },
    }
}

} // verus!
