//! Resolving a query step by step: what is decided here, and what is asked of
//! the rest of the server in between.
use vstd::prelude::*;

use crate::chase::{
    chase_move, cname_target, first_question, settled, Answer, Move, Resolution, Step,
};
use crate::ctx::{
    cached_answer, local_answer, pool_transport, recalled, remote_route, resolve_local, routed,
    Findings, Route, ServerCtx,
};
use crate::dnssec::DnssecStatus;
use crate::forward::{PoolView, UpstreamPool};
use crate::header::{DnsHeader, ResultCode};
use crate::inflight::{acquire_inflight, follower_outcome, leader_outcome, Disposition};
use crate::net::SocketAddr;
use crate::packet::{DnsPacket, PacketView, QuestionView};
use crate::question::QueryType;
use crate::stats::{QueryPath, UpstreamTransport};
use crate::text::ascii_lowercase;

verus! {

/// A query whose first question is to be resolved.
pub struct Opening {
    pub query: DnsPacket,
    pub qname: String,
    pub qtype: QueryType,
}

/// How far a query has come, and what is to be done next.
pub enum Progress {
    /// The name of the question is to be asked for elsewhere.
    AskFirst(Opening),
    /// An alias is followed: what is known here of the name comes first.
    Lookup(Resolution, String),
    /// The name that an alias leads to is to be asked for elsewhere.
    Ask(Resolution),
    /// The response is to be validated.
    Validate(Resolution),
    /// The response stands.
    Finish(Resolution),
}

/// Takes a query up, or says that it asks nothing.
pub fn resolve_query(query: DnsPacket) -> (r: Result<Opening, &'static str>)
    ensures
        match r {
            Ok(o) => {
                &&& o.query == query
                &&& query@.questions.len() > 0
                &&& query@.questions[0] == (QuestionView { name: o.qname@, qtype: o.qtype })
            },
            Err(m) => query@.questions.len() == 0 && m@ == "empty question section"@,
        },
{
    match first_question(&query) {
        Ok((qname, qtype)) => Ok(Opening { query, qname, qtype }),
        Err(m) => Err(m),
    }
}

/// Whether a query has come this far with a resolution: an alias is followed, or
/// the response is validated where that is called for, or it stands.
pub open spec fn advanced(p: Progress, before: Resolution, ctx: &ServerCtx) -> bool {
    match chase_move(
        before.answer.response@,
        before.qtype,
        before.visited@,
        before.current@,
    ) {
        Move::Follow(t) => {
            &&& p matches Progress::Lookup(r, name)
            &&& name@ == t
            &&& r.current@ == t
            &&& r.visited@ == before.visited@.insert(ascii_lowercase(t))
            &&& r.answer == before.answer
            &&& same_question(r, before)
        },
        Move::Stay => if ctx.dnssec_enabled && before.answer.path is Recursive {
            p == Progress::Validate(before)
        } else {
            p == Progress::Finish(before)
        },
        Move::Fail => {
            let r = if ctx.dnssec_enabled && before.answer.path is Recursive {
                p->Validate_0
            } else {
                p->Finish_0
            };
            &&& (ctx.dnssec_enabled && before.answer.path is Recursive) == (p is Validate)
            &&& p is Validate || p is Finish
            &&& r.answer.response@ == DnsPacket::response_view(
                before.query@,
                ResultCode::SERVFAIL,
            )
            &&& r.answer == (Answer { response: r.answer.response, ..before.answer })
            &&& same_question(r, before)
        },
    }
}

/// A response on which aliases are followed no further is never an alias that
/// leads on: the type that was asked for is among the answers, or there is no
/// alias for the last name, or the outcome is not a success.
pub proof fn no_bare_alias(p: Progress, before: Resolution, ctx: &ServerCtx)
    requires
        advanced(p, before, ctx),
    ensures
        match p {
            Progress::Validate(r) | Progress::Finish(r) => settled(r.answer.response@, r.qtype)
                || cname_target(r.answer.response@.answers, r.current@) is None,
            _ => true,
        },
{
}

/// Whether two resolutions are of one question.
pub open spec fn same_question(a: Resolution, b: Resolution) -> bool {
    a.query == b.query && a.qname == b.qname && a.qtype == b.qtype
}

/// Goes on with a response.
pub fn advance(resolution: Resolution, ctx: &ServerCtx) -> (p: Progress)
    ensures
        advanced(p, resolution, ctx),
{
    let mut r = resolution;
    match r.next() {
        Step::Ask(name) => Progress::Lookup(r, name),
        Step::Done => {
            if r.needs_validation(ctx) {
                Progress::Validate(r)
            } else {
                Progress::Finish(r)
            }
        },
    }
}

/// Whether a resolution is the start of one, with a first answer.
pub open spec fn begun(r: Resolution, o: Opening, response: PacketView, path: QueryPath) -> bool {
    &&& r.query == o.query
    &&& r.qname@ == o.qname@
    &&& r.qtype == o.qtype
    &&& r.answer.response@ == response
    &&& r.answer.path == path
    &&& r.visited@ == Set::<Seq<char>>::empty().insert(ascii_lowercase(o.qname@))
    &&& r.current@ == o.qname@
}

impl Opening {
    /// Takes up an answer to the question.
    pub fn answered(self, answer: Answer, ctx: &ServerCtx) -> (p: Progress)
        ensures
            exists|r: Resolution|
                begun(r, self, answer.response@, answer.path) && r.answer == answer
                    && #[trigger] advanced(p, r, ctx),
    {
        let r = Resolution::new(self.query, self.qname, self.qtype, answer);
        assert(begun(r, self, answer.response@, answer.path));
        advance(r, ctx)
    }

    /// Takes up what was found here for the question. Where that is no answer,
    /// the question is asked elsewhere.
    pub fn looked_up(self, src_addr: SocketAddr, ctx: &ServerCtx, found: &Findings) -> (p: Progress)
        requires
            ctx.wf(),
        ensures
            match local_answer(ctx, self.query@, src_addr.ip, self.qname@, self.qtype, found) {
                None => p == Progress::AskFirst(self),
                Some((response, path)) => exists|r: Resolution|
                    begun(r, self, response, path) && r.answer.dnssec
                        == DnssecStatus::Indeterminate && r.answer.upstream is None
                        && #[trigger] advanced(p, r, ctx),
            },
    {
        match resolve_local(
            &self.query,
            src_addr,
            self.qname.as_str(),
            self.qtype,
            ctx,
            found,
        ) {
            None => Progress::AskFirst(self),
            Some(a) => {
                let r = Resolution::new(self.query, self.qname, self.qtype, a);
                assert(begun(r, self, a.response@, a.path));
                advance(r, ctx)
            },
        }
    }
}

/// Whether a resolution has taken up what was found for an alias.
pub open spec fn joined_with(
    r: Resolution,
    before: Resolution,
    found: PacketView,
    upstream: Option<UpstreamTransport>,
) -> bool {
    &&& r.answer.response@ == (PacketView {
        answers: before.answer.response@.answers + found.answers,
        header: DnsHeader {
            rescode: found.header.rescode,
            ..before.answer.response@.header
        },
        ..before.answer.response@
    })
    &&& r.answer == (Answer {
        response: r.answer.response,
        upstream: if before.answer.upstream is Some {
            before.answer.upstream
        } else {
            upstream
        },
        ..before.answer
    })
    &&& r == (Resolution { answer: r.answer, ..before })
}

impl Resolution {
    /// Takes up an answer for the name that an alias leads to.
    pub fn answered(self, found: Answer, ctx: &ServerCtx) -> (p: Progress)
        ensures
            exists|r: Resolution|
                joined_with(r, self, found.response@, found.upstream) && #[trigger] advanced(
                    p,
                    r,
                    ctx,
                ),
    {
        let mut r = self;
        r.absorb(found);
        assert(joined_with(r, self, found.response@, found.upstream));
        advance(r, ctx)
    }

    /// Takes up what was found here for the name that an alias leads to. Where
    /// that is no answer, the name is asked for elsewhere.
    pub fn looked_up(self, src_addr: SocketAddr, ctx: &ServerCtx, found: &Findings) -> (p: Progress)
        requires
            ctx.wf(),
        ensures
            match local_answer(
                ctx,
                DnsPacket::query_view(self.query@.header.id, self.current@, self.qtype),
                src_addr.ip,
                self.current@,
                self.qtype,
                found,
            ) {
                None => p == Progress::Ask(self),
                Some((response, _)) => exists|r: Resolution|
                    joined_with(r, self, response, None) && #[trigger] advanced(p, r, ctx),
            },
    {
        let sub = self.sub_query(self.current.as_str());
        match resolve_local(&sub, src_addr, self.current.as_str(), self.qtype, ctx, found) {
            None => Progress::Ask(self),
            Some(a) => self.answered(a, ctx),
        }
    }
}

/// Where a question goes that the server has no answer for, for good.
pub enum Plan {
    Forward(UpstreamPool),
    Recursive,
    Upstream(UpstreamPool),
}

/// Where a question goes that the server has no answer for, for good.
pub enum PlanView {
    Forward(PoolView),
    Recursive,
    Upstream(PoolView),
}

impl View for Plan {
    type V = PlanView;

    open spec fn view(&self) -> PlanView {
        match self {
            Plan::Forward(p) => PlanView::Forward(p@),
            Plan::Recursive => PlanView::Recursive,
            Plan::Upstream(p) => PlanView::Upstream(p@),
        }
    }
}

/// The plan for a route.
pub open spec fn plan_of(r: Route) -> PlanView {
    match r {
        Route::Forward(p) => PlanView::Forward(p@),
        Route::Recursive => PlanView::Recursive,
        Route::Upstream(p) => PlanView::Upstream(p@),
    }
}

/// The way of an answer that a plan led to.
pub open spec fn plan_path(p: PlanView) -> QueryPath {
    match p {
        PlanView::Forward(_) => QueryPath::Forwarded,
        PlanView::Recursive => QueryPath::Recursive,
        PlanView::Upstream(_) => QueryPath::Upstream,
    }
}

/// How the upstream of a plan was reached, for an answer that came in some way.
/// What was resolved from the root down has no upstream.
pub open spec fn plan_tag(p: PlanView, path: QueryPath) -> Option<UpstreamTransport> {
    if path != plan_path(p) {
        None
    } else {
        match p {
            PlanView::Forward(u) => pool_transport(u),
            PlanView::Recursive => None,
            PlanView::Upstream(u) => pool_transport(u),
        }
    }
}

/// What is done with a question that the server has no answer for.
pub enum RemoteStep {
    /// It is answered from the cache. Where the answer has grown old and no one
    /// refreshes it yet, that is to be done.
    Cached(Answer, bool),
    /// It is asked upstream, and others wait for the outcome.
    Lead(Plan),
    /// It waits for the one who asks.
    Wait(Plan),
}

/// What the cache has for a question: the response, its standing, and whether it
/// has grown old.
pub struct CacheHit {
    pub response: DnsPacket,
    pub status: DnssecStatus,
    pub needs_refresh: bool,
}

/// Decides what is done with a question that the server has no answer for. The
/// cache comes first. What is asked upstream is asked once at a time.
pub fn resolve_remote(
    ctx: &mut ServerCtx,
    query: &DnsPacket,
    qname: &str,
    qtype: QueryType,
    cached: Option<CacheHit>,
) -> (r: RemoteStep)
    requires
        old(ctx).wf(),
    ensures
        final(ctx).wf(),
        *final(ctx) == (ServerCtx {
            refreshing: final(ctx).refreshing,
            inflight: final(ctx).inflight,
            ..*old(ctx)
        }),
        match cached {
            Some(hit) => {
                &&& r matches RemoteStep::Cached(a, refresh)
                &&& a.response@ == recalled(hit.response@, hit.status, query@)
                &&& a.response@.header.id == query@.header.id
                &&& a.response@.header.recursion_desired == query@.header.recursion_desired
                &&& a.response@.header.recursion_available
                &&& a.response@.header.authed_data == (hit.response@.header.authed_data || hit.status is Secure)
                &&& a.response@.header.rescode == hit.response@.header.rescode
                &&& a.response@.header.response == hit.response@.header.response
                &&& a.response@.header.opcode == hit.response@.header.opcode
                &&& a.response@.header.authoritative_answer == hit.response@.header.authoritative_answer
                &&& a.response@.header.truncated_message == hit.response@.header.truncated_message
                &&& a.response@.header.checking_disabled == hit.response@.header.checking_disabled
                &&& a.response@.header.z == hit.response@.header.z
                &&& a.response@.questions == query@.questions
                &&& a.response@.answers == hit.response@.answers
                &&& a.response@.authorities == hit.response@.authorities
                &&& a.response@.resources == hit.response@.resources
                &&& a.response@.edns == hit.response@.edns
                &&& a.path == QueryPath::Cached
                &&& a.dnssec == hit.status
                &&& a.upstream is None
                &&& refresh == (hit.needs_refresh && !old(ctx).refreshing@.contains(
                    (qname@, qtype),
                ))
                &&& final(ctx).refreshing@ == (if hit.needs_refresh {
                    old(ctx).refreshing@.insert((qname@, qtype))
                } else {
                    old(ctx).refreshing@
                })
                &&& final(ctx).inflight == old(ctx).inflight
            },
            None => {
                &&& final(ctx).refreshing == old(ctx).refreshing
                &&& final(ctx).inflight@ == old(ctx).inflight@.insert((qname@, qtype))
                &&& match r {
                    RemoteStep::Cached(_, _) => false,
                    RemoteStep::Lead(p) => !old(ctx).inflight@.contains((qname@, qtype)) && exists|
                        route: Route,
                    |
                        #[trigger] routed(old(ctx), qname@, route) && p@ == plan_of(route),
                    RemoteStep::Wait(p) => old(ctx).inflight@.contains((qname@, qtype)) && exists|
                        route: Route,
                    |
                        #[trigger] routed(old(ctx), qname@, route) && p@ == plan_of(route),
                }
            },
        },
{
    if let Some(hit) = cached {
        let mut refresh = false;
        if hit.needs_refresh {
            refresh = ctx.refreshing.insert(qname, qtype);
        }
        return RemoteStep::Cached(cached_answer(hit.response, hit.status, query), refresh);
    }
    let plan = match remote_route(ctx, qname) {
        Route::Forward(p) => {
            assert(routed(old(ctx), qname@, Route::Forward(p)));
            Plan::Forward(p.copy())
        },
        Route::Recursive => {
            assert(routed(old(ctx), qname@, Route::Recursive));
            Plan::Recursive
        },
        Route::Upstream(p) => {
            assert(routed(old(ctx), qname@, Route::Upstream(p)));
            Plan::Upstream(p.copy())
        },
    };
    match acquire_inflight(&mut ctx.inflight, qname, qtype) {
        Disposition::Leader => RemoteStep::Lead(plan),
        Disposition::Follower => RemoteStep::Wait(plan),
    }
}

impl Plan {
    /// The way of an answer that the plan led to.
    pub fn path(&self) -> (p: QueryPath)
        ensures
            p == plan_path(self@),
    {
        match self {
            Plan::Forward(_) => QueryPath::Forwarded,
            Plan::Recursive => QueryPath::Recursive,
            Plan::Upstream(_) => QueryPath::Upstream,
        }
    }

    fn tagged(&self, response: DnsPacket, path: QueryPath) -> (r: Answer)
        ensures
            r.response == response,
            r.path == path,
            r.dnssec == DnssecStatus::Indeterminate,
            r.upstream == plan_tag(self@, path),
    {
        let upstream = if path == self.path() {
            match self {
                Plan::Forward(u) => match u.preferred() {
                    Some(x) => Some(x.transport()),
                    None => None,
                },
                Plan::Recursive => None,
                Plan::Upstream(u) => match u.preferred() {
                    Some(x) => Some(x.transport()),
                    None => None,
                },
            }
        } else {
            None
        };
        Answer { response, path, dnssec: DnssecStatus::Indeterminate, upstream }
    }

    /// Takes up what the one who asked found: the answer, and the message where
    /// it failed. The question is let go, so that the next one asks again.
    pub fn led(
        self,
        ctx: &mut ServerCtx,
        query: &DnsPacket,
        qname: &str,
        qtype: QueryType,
        found: Result<DnsPacket, String>,
    ) -> (r: (Answer, Option<String>))
        requires
            old(ctx).wf(),
        ensures
            final(ctx).wf(),
            *final(ctx) == (ServerCtx { inflight: final(ctx).inflight, ..*old(ctx) }),
            final(ctx).inflight@ == old(ctx).inflight@.remove((qname@, qtype)),
            r.0.dnssec == DnssecStatus::Indeterminate,
            match found {
                Ok(p) => {
                    &&& r.0.response@ == p@
                    &&& r.0.path == plan_path(self@)
                    &&& r.0.upstream == plan_tag(self@, plan_path(self@))
                    &&& r.1 is None
                },
                Err(m) => {
                    &&& r.0.response@ == DnsPacket::response_view(query@, ResultCode::SERVFAIL)
                    &&& r.0.path == QueryPath::UpstreamError
                    &&& r.0.upstream is None
                    &&& r.1 == Some(m)
                },
            },
    {
        let _held = ctx.inflight.remove(qname, qtype);
        let c = leader_outcome(query, self.path(), found);
        (self.tagged(c.response, c.path), c.error)
    }

    /// Takes up what was found by the one who asked, where one waited for it.
    pub fn waited(self, query: &DnsPacket, shared: Option<DnsPacket>) -> (r: Answer)
        ensures
            r.dnssec == DnssecStatus::Indeterminate,
            r.upstream is None,
            match shared {
                Some(p) => {
                    &&& r.response@ == (PacketView {
                        header: DnsHeader { id: query@.header.id, ..p@.header },
                        ..p@
                    })
                    &&& r.path == QueryPath::Coalesced
                },
                None => {
                    &&& r.response@ == DnsPacket::response_view(query@, ResultCode::SERVFAIL)
                    &&& r.path == QueryPath::UpstreamError
                },
            },
    {
        let c = follower_outcome(query, shared);
        self.tagged(c.response, c.path)
    }
}

} // verus!
