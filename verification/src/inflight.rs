//! Questions that are being resolved, so that equal ones share the work.
use vstd::prelude::*;

use crate::header::{DnsHeader, ResultCode};
use crate::packet::{DnsPacket, PacketView};
use crate::question::QueryType;
use crate::question_set::{KeyView, QuestionSet};
use crate::stats::QueryPath;

verus! {

/// Who resolves a question.
#[derive(Debug, Clone, Copy, PartialEq, Eq, Structural)]
pub enum Disposition {
    /// The one that asks upstream.
    Leader,
    /// One that waits for what the leader finds.
    Follower,
}

/// Joins those that resolve a question: the first leads, and the question is
/// held until it is released.
pub fn acquire_inflight(inflight: &mut QuestionSet, name: &str, qtype: QueryType) -> (d: Disposition)
    requires
        old(inflight).wf(),
    ensures
        final(inflight).wf(),
        d == (if old(inflight)@.contains((name@, qtype)) {
            Disposition::Follower
        } else {
            Disposition::Leader
        }),
        final(inflight)@ == old(inflight)@.insert((name@, qtype)),
{
    if inflight.insert(name, qtype) {
        Disposition::Leader
    } else {
        Disposition::Follower
    }
}

/// A response and the way it was found.
pub struct Coalesced {
    pub response: DnsPacket,
    pub path: QueryPath,
    pub error: Option<String>,
}

/// What a leader answers: what was found, or a server failure and the message.
pub fn leader_outcome(
    query: &DnsPacket,
    leader_path: QueryPath,
    found: Result<DnsPacket, String>,
) -> (r: Coalesced)
    ensures
        match found {
            Ok(p) => r.response@ == p@ && r.path == leader_path && r.error is None,
            Err(m) => {
                &&& r.response@ == DnsPacket::response_view(query@, ResultCode::SERVFAIL)
                &&& r.path == QueryPath::UpstreamError
                &&& r.error == Some(m)
            },
        },
{
    match found {
        Ok(response) => Coalesced { response, path: leader_path, error: None },
        Err(m) => Coalesced {
            response: DnsPacket::response_from(query, ResultCode::SERVFAIL),
            path: QueryPath::UpstreamError,
            error: Some(m),
        },
    }
}

/// What a follower answers: what the leader found, under the id of its own
/// query, or a server failure where the leader failed or went away.
pub fn follower_outcome(query: &DnsPacket, shared: Option<DnsPacket>) -> (r: Coalesced)
    ensures
        r.error is None,
        match shared {
            Some(p) => {
                &&& r.response@ == (PacketView {
                    header: DnsHeader { id: query@.header.id, ..p@.header },
                    ..p@
                })
                &&& r.path == QueryPath::Coalesced
            },
            None => {
                &&& r.response@ == DnsPacket::response_view(query@, ResultCode::SERVFAIL)
                &&& r.path == QueryPath::UpstreamError
            },
        },
{
    match shared {
        Some(p) => {
            let mut response = p;
            response.header.id = query.header.id;
            Coalesced { response, path: QueryPath::Coalesced, error: None }
        },
        None => Coalesced {
            response: DnsPacket::response_from(query, ResultCode::SERVFAIL),
            path: QueryPath::UpstreamError,
            error: None,
        },
    }
}

/// Of those that resolve a question at a time only the first asks upstream; and
/// once it has let the question go, the next leads again.
pub proof fn one_leader(held: Set<KeyView>, key: KeyView)
    ensures
        held.insert(key).contains(key),
        !held.insert(key).remove(key).contains(key),
        !held.contains(key) ==> held.insert(key).remove(key) == held,
{
    if !held.contains(key) {
        assert(held.insert(key).remove(key) =~= held);
    }
}

} // verus!
