//! Following aliases from name to name until a question is answered.
use vstd::prelude::*;

use crate::dnssec::DnssecStatus;
use crate::header::{DnsHeader, ResultCode};
use crate::name_set::NameSet;
use crate::packet::{questions, records, DnsPacket, PacketView, QuestionView};
use crate::question::QueryType;
use crate::record::{DnsRecord, RdataView, RecordView};
use crate::stats::{QueryPath, UpstreamTransport};
use crate::text::{ascii_lower, ascii_lowercase, eq_ignore_ascii_case, to_ascii_lowercase};

verus! {

/// The largest number of aliases that are followed for one question.
pub const MAX_CNAME_DEPTH: u8 = 8;

/// A response, the way it was found, and what is known of it.
pub struct Answer {
    pub response: DnsPacket,
    pub path: QueryPath,
    pub dnssec: DnssecStatus,
    pub upstream: Option<UpstreamTransport>,
}

/// The name that the first alias for a name leads to. Names are compared
/// without regard to the case of ASCII letters.
pub open spec fn cname_target(answers: Seq<RecordView>, name: Seq<char>) -> Option<Seq<char>>
    decreases answers.len(),
{
    if answers.len() == 0 {
        None
    } else {
        match answers[0].data {
            RdataView::Cname { host } => if ascii_lowercase(answers[0].domain) == ascii_lowercase(
                name,
            ) {
                Some(host)
            } else {
                cname_target(answers.drop_first(), name)
            },
            _ => cname_target(answers.drop_first(), name),
        }
    }
}

/// The name that the first alias for a name leads to.
pub fn extract_cname_target(response: &DnsPacket, name: &str) -> (r: Option<String>)
    ensures
        cname_target(response@.answers, name@) == (match r {
            Some(s) => Some(s@),
            None => None,
        }),
{
    let ghost all = response@.answers;
    let mut i: usize = 0;
    assert(all.subrange(0, all.len() as int) =~= all);
    while i < response.answers.len()
        invariant
            all == response@.answers,
            i <= response.answers.len(),
            cname_target(all, name@) == cname_target(all.subrange(i as int, all.len() as int), name@),
        decreases response.answers.len() - i,
    {
        proof {
            let rest = all.subrange(i as int, all.len() as int);
            assert(rest[0] == response.answers@[i as int]@);
            assert(rest.drop_first() =~= all.subrange(i + 1, all.len() as int));
        }
        if let DnsRecord::CNAME { domain, host, .. } = &response.answers[i] {
            if eq_ignore_ascii_case(domain.as_str(), name) {
                return Some(host.clone());
            }
        }
        i += 1;
    }
    None
}

/// Whether some record is of a type.
pub open spec fn has_type(recs: Seq<RecordView>, qtype: QueryType) -> bool {
    exists|i: int| 0 <= i < recs.len() && (#[trigger] recs[i]).data.qtype() == qtype
}

/// Whether a response needs no more following: it answers the type that is
/// asked for, or did not succeed.
pub open spec fn settled(p: PacketView, qtype: QueryType) -> bool {
    has_type(p.answers, qtype) || p.header.rescode != ResultCode::NOERROR
}

fn is_settled(p: &DnsPacket, qtype: QueryType) -> (b: bool)
    ensures
        b == settled(p@, qtype),
{
    match p.header.rescode {
        ResultCode::NOERROR => {},
        _ => {
            return true;
        },
    }
    let mut i: usize = 0;
    while i < p.answers.len()
        invariant
            i <= p.answers.len(),
            forall|j: int| 0 <= j < i ==> (#[trigger] p@.answers[j]).data.qtype() != qtype,
        decreases p.answers.len() - i,
    {
        assert(p@.answers[i as int] == p.answers@[i as int]@);
        if p.answers[i].query_type() == qtype {
            return true;
        }
        i += 1;
    }
    false
}

/// What is to be done next for a question.
pub enum Step {
    /// The response stands.
    Done,
    /// The name is to be resolved, with the type of the question.
    Ask(String),
}

/// A question that is being resolved.
pub struct Resolution {
    pub query: DnsPacket,
    pub qname: String,
    pub qtype: QueryType,
    pub answer: Answer,
    /// The names asked for so far, in lower case.
    pub visited: NameSet,
    /// The name asked for last.
    pub current: String,
}

/// What following aliases makes of a response at a point of the chase.
pub enum Move {
    /// The response stands.
    Stay,
    /// The name is asked for next.
    Follow(Seq<char>),
    /// The chain runs in a circle or is too long.
    Fail,
}

/// What is to be done with a response.
pub open spec fn chase_move(
    p: PacketView,
    qtype: QueryType,
    visited: Set<Seq<char>>,
    current: Seq<char>,
) -> Move {
    if settled(p, qtype) {
        Move::Stay
    } else {
        match cname_target(p.answers, current) {
            None => Move::Stay,
            Some(t) => if visited.len() > MAX_CNAME_DEPTH || visited.contains(ascii_lowercase(t)) {
                Move::Fail
            } else {
                Move::Follow(t)
            },
        }
    }
}

/// The name and the type of the first question of a query.
pub fn first_question(query: &DnsPacket) -> (r: Result<(String, QueryType), &'static str>)
    ensures
        match r {
            Ok((name, qtype)) => query@.questions.len() > 0 && query@.questions[0] == (
            QuestionView { name: name@, qtype }),
            Err(m) => query@.questions.len() == 0 && m@ == "empty question section"@,
        },
{
    if query.questions.len() == 0 {
        return Err("empty question section");
    }
    assert(query@.questions[0] == query.questions@[0]@);
    Ok((query.questions[0].name.clone(), query.questions[0].qtype))
}

impl Resolution {
    /// The resolution of a question of which there is a first answer.
    pub fn new(query: DnsPacket, qname: String, qtype: QueryType, answer: Answer) -> (r: Self)
        ensures
            r.query == query,
            r.qname@ == qname@,
            r.qtype == qtype,
            r.answer == answer,
            r.visited@ == Set::<Seq<char>>::empty().insert(ascii_lowercase(qname@)),
            r.current@ == qname@,
    {
        let mut visited = NameSet::new();
        let _new = visited.insert(to_ascii_lowercase(qname.as_str()));
        let current = qname.clone();
        Resolution { query, qname, qtype, answer, visited, current }
    }

    /// Decides whether the response stands, or an alias is to be followed. A
    /// chain of aliases that runs in a circle or is too long becomes a server
    /// failure.
    pub fn next(&mut self) -> (s: Step)
        ensures
            match chase_move(
                old(self).answer.response@,
                old(self).qtype,
                old(self).visited@,
                old(self).current@,
            ) {
                Move::Stay => s is Done && *final(self) == *old(self),
                Move::Follow(t) => {
                    &&& s matches Step::Ask(name)
                    &&& name@ == t
                    &&& final(self).current@ == t
                    &&& final(self).visited@ == old(self).visited@.insert(ascii_lowercase(t))
                    &&& final(self).visited@.len() == old(self).visited@.len() + 1
                    &&& final(self).answer == old(self).answer
                },
                Move::Fail => {
                    &&& s is Done
                    &&& final(self).answer.response@ == DnsPacket::response_view(
                        old(self).query@,
                        ResultCode::SERVFAIL,
                    )
                    &&& final(self).answer == (Answer {
                        response: final(self).answer.response,
                        ..old(self).answer
                    })
                    &&& final(self).visited == old(self).visited
                    &&& final(self).current == old(self).current
                },
            },
            final(self).query == old(self).query,
            final(self).qname == old(self).qname,
            final(self).qtype == old(self).qtype,
    {
        if is_settled(&self.answer.response, self.qtype) {
            return Step::Done;
        }
        match extract_cname_target(&self.answer.response, self.current.as_str()) {
            None => Step::Done,
            Some(target) => {
                let lower = to_ascii_lowercase(target.as_str());
                let many = self.visited.len() > MAX_CNAME_DEPTH as usize;
                if many || self.visited.contains(lower.as_str()) {
                    self.answer.response = DnsPacket::response_from(
                        &self.query,
                        ResultCode::SERVFAIL,
                    );
                    return Step::Done;
                }
                let _new = self.visited.insert(lower);
                self.current = target.clone();
                Step::Ask(target)
            },
        }
    }

    /// The query for a name that an alias leads to.
    pub fn sub_query(&self, name: &str) -> (r: DnsPacket)
        ensures
            r@ == DnsPacket::query_view(self.query@.header.id, name@, self.qtype),
    {
        DnsPacket::query(self.query.header.id, name, self.qtype)
    }

    /// Adds what was found for the name that an alias leads to: its answers and
    /// its outcome. The way and the standing of the first answer stay.
    pub fn absorb(&mut self, found: Answer)
        ensures
            final(self).answer.response@ == (PacketView {
                answers: old(self).answer.response@.answers + found.response@.answers,
                header: DnsHeader {
                    rescode: found.response@.header.rescode,
                    ..old(self).answer.response@.header
                },
                ..old(self).answer.response@
            }),
            final(self).answer == (Answer {
                response: final(self).answer.response,
                upstream: if old(self).answer.upstream is Some {
                    old(self).answer.upstream
                } else {
                    found.upstream
                },
                ..old(self).answer
            }),
            *final(self) == (Resolution { answer: final(self).answer, ..*old(self) }),
    {
        let mut more = found.response.answers;
        let ghost mine = self.answer.response.answers@;
        let ghost theirs = more@;
        self.answer.response.answers.append(&mut more);
        assert(records(self.answer.response.answers@) =~= records(mine) + records(theirs));
        self.answer.response.header.rescode = found.response.header.rescode;
        if self.answer.upstream.is_none() {
            self.answer.upstream = found.upstream;
        }
    }
}

/// A chain of aliases that comes back to a name it has passed, in any case of
/// letters, is never handed on: it becomes a server failure.
pub proof fn circles_fail(
    p: PacketView,
    qtype: QueryType,
    visited: Set<Seq<char>>,
    current: Seq<char>,
    target: Seq<char>,
)
    requires
        !settled(p, qtype),
        cname_target(p.answers, current) == Some(target),
        visited.contains(ascii_lowercase(target)),
    ensures
        chase_move(p, qtype, visited, current) is Fail,
{
}

/// Aliases are followed a bounded number of times: each move on adds a name to
/// those that were visited, and none is made once these are too many.
pub proof fn chase_is_bounded(
    p: PacketView,
    qtype: QueryType,
    visited: Set<Seq<char>>,
    current: Seq<char>,
)
    ensures
        visited.len() > MAX_CNAME_DEPTH ==> !(chase_move(p, qtype, visited, current) is Follow),
        chase_move(p, qtype, visited, current) matches Move::Follow(t)
            ==> visited.len() <= MAX_CNAME_DEPTH && !visited.contains(ascii_lowercase(t)),
{
}

/// Whether a record is an alias for a name, in any case of ASCII letters.
pub open spec fn is_alias_for(r: RecordView, name: Seq<char>) -> bool {
    r.data is Cname && r.domain.len() == name.len() && forall|k: int|
        0 <= k < name.len() ==> ascii_lower(#[trigger] r.domain[k]) == ascii_lower(name[k])
}

proof fn alias_by_letters(r: RecordView, name: Seq<char>)
    ensures
        is_alias_for(r, name) <==> r.data is Cname && ascii_lowercase(r.domain) == ascii_lowercase(
            name,
        ),
{
    let a = ascii_lowercase(r.domain);
    let b = ascii_lowercase(name);
    if a == b {
        assert(a.len() == b.len());
        assert forall|k: int| 0 <= k < name.len() implies ascii_lower(#[trigger] r.domain[k])
            == ascii_lower(name[k]) by {
            assert(a[k] == b[k]);
        }
    }
    if is_alias_for(r, name) {
        assert(a =~= b);
    }
}

proof fn first_alias_leads_on(answers: Seq<RecordView>, name: Seq<char>, i: int)
    requires
        0 <= i < answers.len(),
        is_alias_for(answers[i], name),
        forall|j: int| 0 <= j < i ==> !is_alias_for(#[trigger] answers[j], name),
    ensures
        cname_target(answers, name) == Some(answers[i].data->Cname_host),
    decreases answers.len(),
{
    alias_by_letters(answers[0], name);
    if i > 0 {
        let rest = answers.drop_first();
        assert(!is_alias_for(answers[0], name));
        assert(rest[i - 1] == answers[i]);
        assert forall|j: int| 0 <= j < i - 1 implies !is_alias_for(#[trigger] rest[j], name) by {
            assert(rest[j] == answers[j + 1]);
        }
        first_alias_leads_on(rest, name, i - 1);
    }
}

proof fn no_alias_leads_nowhere(answers: Seq<RecordView>, name: Seq<char>)
    requires
        forall|j: int| 0 <= j < answers.len() ==> !is_alias_for(#[trigger] answers[j], name),
    ensures
        cname_target(answers, name) is None,
    decreases answers.len(),
{
    if answers.len() > 0 {
        alias_by_letters(answers[0], name);
        let rest = answers.drop_first();
        assert forall|j: int| 0 <= j < rest.len() implies !is_alias_for(#[trigger] rest[j], name) by {
            assert(rest[j] == answers[j + 1]);
        }
        no_alias_leads_nowhere(rest, name);
    }
}

/// An alias is followed, whatever the type that is asked for: where the lookup
/// succeeded, no answer is of that type, and an answer is an alias for the name
/// asked for last, the chase goes on to where the first such alias leads, unless
/// it was there before or has passed more than eight names. In those two cases
/// it fails.
pub proof fn alias_is_followed(
    p: PacketView,
    qtype: QueryType,
    visited: Set<Seq<char>>,
    current: Seq<char>,
    i: int,
)
    requires
        p.header.rescode is NOERROR,
        forall|j: int| 0 <= j < p.answers.len() ==> (#[trigger] p.answers[j]).data.qtype() != qtype,
        0 <= i < p.answers.len(),
        is_alias_for(p.answers[i], current),
        forall|j: int| 0 <= j < i ==> !is_alias_for(#[trigger] p.answers[j], current),
    ensures
        ({
            let target = p.answers[i].data->Cname_host;
            &&& visited.len() <= 8 && !visited.contains(ascii_lowercase(target)) ==> chase_move(
                p,
                qtype,
                visited,
                current,
            ) == Move::Follow(target)
            &&& visited.len() > 8 || visited.contains(ascii_lowercase(target)) ==> chase_move(
                p,
                qtype,
                visited,
                current,
            ) is Fail
        }),
{
    first_alias_leads_on(p.answers, current, i);
}

/// A response is left as it is where nothing is to be followed: the lookup did
/// not succeed, an answer is of the type asked for, or none is an alias for the
/// name asked for last.
pub proof fn answered_is_left(
    p: PacketView,
    qtype: QueryType,
    visited: Set<Seq<char>>,
    current: Seq<char>,
)
    requires
        !(p.header.rescode is NOERROR) || (exists|j: int|
            0 <= j < p.answers.len() && (#[trigger] p.answers[j]).data.qtype() == qtype) || (forall|
            j: int,
        |
            0 <= j < p.answers.len() ==> !is_alias_for(#[trigger] p.answers[j], current)),
    ensures
        chase_move(p, qtype, visited, current) is Stay,
{
    if forall|j: int| 0 <= j < p.answers.len() ==> !is_alias_for(#[trigger] p.answers[j], current) {
        no_alias_leads_nowhere(p.answers, current);
    }
}

} // verus!
