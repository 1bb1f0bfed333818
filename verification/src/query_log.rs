//! The log of recent queries.
use std::collections::VecDeque;
use vstd::layout::size_of;
use vstd::prelude::*;

use crate::dnssec::DnssecStatus;
use crate::header::ResultCode;
use crate::net::SocketAddr;
use crate::question::QueryType;
use crate::stats::{QueryPath, Transport};
use crate::memory::{fits, room_of, room_sum_with, rooms_hold, sum};
use crate::text::{at_most_max, byte_len, contains, has_part};

verus! {

/// A query that was answered. The time is in microseconds since the epoch.
#[derive(Debug)]
pub struct QueryLogEntry {
    /// The number of the entry, which the log gives it: 1 for the first.
    pub seq: u64,
    pub timestamp: u64,
    pub src_addr: SocketAddr,
    pub domain: String,
    pub query_type: QueryType,
    pub path: QueryPath,
    pub transport: Transport,
    pub rescode: ResultCode,
    pub latency_us: u64,
    pub dnssec: DnssecStatus,
    pub rebind_stripped: bool,
}

/// Which entries are asked for.
pub struct QueryLogFilter {
    pub domain: Option<String>,
    pub query_type: Option<QueryType>,
    pub path: Option<QueryPath>,
    pub limit: Option<usize>,
}

/// The number of entries that are given where none is asked for.
pub const DEFAULT_LIMIT: usize = 50;

impl QueryLogFilter {
    /// Whether an entry is asked for.
    pub open spec fn wants(&self, e: QueryLogEntry) -> bool {
        &&& self.domain matches Some(d) ==> has_part(e.domain@, d@)
        &&& self.query_type matches Some(t) ==> e.query_type == t
        &&& self.path matches Some(p) ==> e.path == p
    }

    /// How many entries are asked for.
    pub open spec fn most(&self) -> usize {
        match self.limit {
            Some(n) => n,
            None => DEFAULT_LIMIT,
        }
    }

    /// Whether an entry is asked for.
    fn selects(&self, e: &QueryLogEntry) -> (b: bool)
        ensures
            b == self.wants(*e),
    {
        match &self.domain {
            Some(d) => {
                if !contains(e.domain.as_str(), d.as_str()) {
                    return false;
                }
            },
            None => {},
        }
        match self.query_type {
            Some(t) => {
                if e.query_type != t {
                    return false;
                }
            },
            None => {},
        }
        match self.path {
            Some(p) => {
                if e.path != p {
                    return false;
                }
            },
            None => {},
        }
        true
    }
}

/// The entries that are asked for, the newest first.
pub open spec fn newest_first(entries: Seq<QueryLogEntry>, filter: QueryLogFilter) -> Seq<
    QueryLogEntry,
>
    decreases entries.len(),
{
    if entries.len() == 0 {
        Seq::empty()
    } else {
        let rest = newest_first(entries.drop_last(), filter);
        if filter.wants(entries.last()) {
            seq![entries.last()] + rest
        } else {
            rest
        }
    }
}

/// The log: its entries from the oldest on, how many it holds, and the number
/// of the last entry.
pub struct QueryLog {
    pub entries: VecDeque<QueryLogEntry>,
    pub capacity: usize,
    pub next_seq: u64,
}

impl QueryLog {
    /// Whether the entries are numbered in a row up to the last number, and are
    /// no more than the log holds. A log that holds none still keeps the last.
    pub open spec fn wf(&self) -> bool {
        &&& self.entries@.len() <= self.capacity || self.entries@.len() <= 1
        &&& self.entries@.len() <= self.next_seq
        &&& forall|i: int|
            0 <= i < self.entries@.len() ==> (#[trigger] self.entries@[i]).seq == self.next_seq
                - self.entries@.len() + 1 + i
    }

    /// An empty log.
    pub fn new(capacity: usize) -> (r: Self)
        ensures
            r.wf(),
            r.entries@.len() == 0,
            r.capacity == capacity,
            r.next_seq == 0,
    {
        QueryLog { entries: VecDeque::new(), capacity, next_seq: 0 }
    }

    /// The log of these entries and one more: the oldest goes where there is no room.
    pub open spec fn after_push(entries: Seq<QueryLogEntry>, capacity: usize, e: QueryLogEntry)
        -> Seq<QueryLogEntry> {
        if entries.len() >= capacity && entries.len() > 0 {
            entries.drop_first().push(e)
        } else {
            entries.push(e)
        }
    }

    /// Adds an entry, with the next number.
    pub fn push(&mut self, entry: QueryLogEntry)
        requires
            old(self).wf(),
            old(self).next_seq < u64::MAX,
        ensures
            final(self).wf(),
            final(self).capacity == old(self).capacity,
            final(self).next_seq == old(self).next_seq + 1,
            final(self).entries@ == QueryLog::after_push(
                old(self).entries@,
                old(self).capacity,
                QueryLogEntry { seq: (old(self).next_seq + 1) as u64, ..entry },
            ),
    {
        self.next_seq = self.next_seq + 1;
        let mut entry = entry;
        entry.seq = self.next_seq;
        if self.entries.len() >= self.capacity {
            let _oldest = self.entries.pop_front();
            assert(old(self).entries@.len() > 0 ==> self.entries@ =~= old(
                self,
            ).entries@.drop_first());
        }
        self.entries.push_back(entry);
    }

    /// The number of entries.
    pub fn len(&self) -> (n: usize)
        ensures
            n == self.entries@.len(),
    {
        self.entries.len()
    }

    /// Whether there is no entry.
    pub fn is_empty(&self) -> (b: bool)
        ensures
            b == (self.entries@.len() == 0),
    {
        self.entries.len() == 0
    }

    /// The entries that are asked for, the newest first, as many as are asked for.
    pub fn query(&self, filter: &QueryLogFilter) -> (v: Vec<&QueryLogEntry>)
        ensures
            ({
                let all = newest_first(self.entries@, *filter);
                &&& v@.len() == if all.len() <= filter.most() {
                    all.len()
                } else {
                    filter.most() as nat
                }
                &&& forall|i: int| 0 <= i < v@.len() ==> *(#[trigger] v@[i]) == all[i]
            }),
    {
        let most: usize = match filter.limit {
            Some(n) => n,
            None => DEFAULT_LIMIT,
        };
        let ghost all = newest_first(self.entries@, *filter);
        let mut v: Vec<&QueryLogEntry> = Vec::new();
        let mut i: usize = self.entries.len();
        assert(self.entries@.subrange(0, i as int) =~= self.entries@);
        while i > 0 && v.len() < most
            invariant
                i <= self.entries@.len(),
                most == filter.most(),
                all == newest_first(self.entries@, *filter),
                v@.len() <= most,
                v@.len() + newest_first(self.entries@.subrange(0, i as int), *filter).len()
                    == all.len(),
                forall|j: int|
                    0 <= j < newest_first(self.entries@.subrange(0, i as int), *filter).len()
                        ==> #[trigger] newest_first(
                        self.entries@.subrange(0, i as int),
                        *filter,
                    )[j] == all[v@.len() + j],
                forall|j: int| 0 <= j < v@.len() ==> *(#[trigger] v@[j]) == all[j],
            decreases i,
        {
            let ghost part = self.entries@.subrange(0, i as int);
            let ghost rest = newest_first(part.drop_last(), *filter);
            let ghost before = newest_first(part, *filter);
            i -= 1;
            assert(part.drop_last() =~= self.entries@.subrange(0, i as int));
            assert(part.last() == self.entries@[i as int]);
            let e: &QueryLogEntry = &self.entries[i];
            if filter.selects(e) {
                assert(before[0] == *e);
                assert forall|j: int| 0 <= j < rest.len() implies rest[j] == all[v@.len() + 1
                    + j] by {
                    assert(before[j + 1] == rest[j]);
                }
                v.push(e);
            }
        }
        proof {
            if i == 0 {
                assert(self.entries@.subrange(0, 0).len() == 0);
            }
        }
        v
    }
}

/// The entries that a query gives are numbered downwards: each is newer than
/// the next.
pub proof fn queried_entries_descend(log: QueryLog, filter: QueryLogFilter, n: int)
    requires
        log.wf(),
        0 <= n <= log.entries@.len(),
    ensures
        ({
            let found = newest_first(log.entries@.subrange(0, n), filter);
            &&& forall|i: int|
                0 <= i < found.len() ==> (#[trigger] found[i]).seq <= log.next_seq
                    - log.entries@.len() + n
            &&& forall|i: int, j: int|
                0 <= i < j < found.len() ==> (#[trigger] found[i]).seq > (#[trigger] found[j]).seq
        }),
    decreases n,
{
    let part = log.entries@.subrange(0, n);
    if n > 0 {
        queried_entries_descend(log, filter, n - 1);
        assert(part.drop_last() =~= log.entries@.subrange(0, n - 1));
        assert(part.last() == log.entries@[n - 1]);
        let rest = newest_first(part.drop_last(), filter);
        let found = newest_first(part, filter);
        assert forall|i: int, j: int| 0 <= i < j < found.len() implies (#[trigger] found[i]).seq > (
        #[trigger] found[j]).seq by {
            if filter.wants(part.last()) {
                assert(found[j] == rest[j - 1]);
                if i > 0 {
                    assert(found[i] == rest[i - 1]);
                }
            }
        }
        assert forall|i: int| 0 <= i < found.len() implies (#[trigger] found[i]).seq <= log.next_seq
            - log.entries@.len() + n by {
            if filter.wants(part.last()) && i > 0 {
                assert(found[i] == rest[i - 1]);
            }
        }
    }
}

/// Adding an entry renumbers none: every entry that stays keeps its number.
pub proof fn push_keeps_numbers(
    entries: Seq<QueryLogEntry>,
    capacity: usize,
    e: QueryLogEntry,
    i: int,
)
    requires
        0 <= i < QueryLog::after_push(entries, capacity, e).len() - 1,
    ensures
        entries.contains(QueryLog::after_push(entries, capacity, e)[i]),
        QueryLog::after_push(entries, capacity, e).last() == e,
{
    let after = QueryLog::after_push(entries, capacity, e);
    if entries.len() >= capacity && entries.len() > 0 {
        assert(after[i] == entries[i + 1]);
    } else {
        assert(after[i] == entries[i]);
    }
}

/// What the domains of entries hold, in bytes.
pub open spec fn log_held(entries: Seq<QueryLogEntry>) -> Seq<nat> {
    entries.map_values(|e: QueryLogEntry| byte_len(e.domain@))
}

/// The memory of entries whose domains have these rooms, or the largest number.
pub fn log_room(rooms: &Vec<usize>) -> (n: usize)
    ensures
        n == at_most_max(rooms@.len() * size_of::<QueryLogEntry>() + sum(rooms@)),
{
    room_sum_with(core::mem::size_of::<QueryLogEntry>(), rooms)
}

impl QueryLog {
    /// The room of the domain of each entry, which is no less than it holds.
    fn rooms(&self) -> (v: Vec<usize>)
        ensures
            fits(v@, log_held(self.entries@)),
    {
        let mut v: Vec<usize> = Vec::new();
        let mut i: usize = 0;
        while i < self.entries.len()
            invariant
                i <= self.entries@.len(),
                v@.len() == i,
                forall|j: int| 0 <= j < i ==> #[trigger] v@[j] >= log_held(self.entries@)[j],
            decreases self.entries@.len() - i,
        {
            v.push(self.entries[i].domain.capacity());
            i += 1;
        }
        v
    }

    /// An estimate of the memory that the entries take: their size and the room
    /// of their domains, or the largest number. How much more room a domain has
    /// than it needs is up to the allocator.
    pub fn heap_bytes(&self) -> (n: usize)
        ensures
            exists|rooms: Seq<usize>| #[trigger]
                room_of(n, size_of::<QueryLogEntry>(), log_held(self.entries@), rooms),
    {
        let rooms = self.rooms();
        let n: usize = log_room(&rooms);
        proof {
            rooms_hold(rooms@, log_held(self.entries@));
            assert(room_of(n, size_of::<QueryLogEntry>(), log_held(self.entries@), rooms@));
        }
        n
    }
}

} // verus!
