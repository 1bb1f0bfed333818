//! The server for developers: exact domains with IPv4 addresses, and nothing else.
use vstd::prelude::*;
use vstd::slice::slice_subrange;
use vstd::utf8::{decode_utf8, valid_utf8};

use crate::buffer::{at16, be16, be32};
use crate::dev_domains::{normalize_domain, plain_domain, DomainMap};
use crate::net::{parse_socket_addr, socket_text, IpAddr, Ipv4Addr, SocketAddr};
use crate::service_control::utf8_text;
use crate::text::{
    concat, decimal, decimal_string, join, joined, parse_u64, parsed_number, str_eq, texts,
};
use crate::wire::name_skip;

verus! {

/// What the server is started with.
#[derive(Debug)]
pub struct Options {
    pub domains_path: String,
    pub bind: SocketAddr,
    pub ttl: u32,
}

/// What the server is started with.
pub struct OptionsView {
    pub domains_path: Seq<char>,
    pub bind: SocketAddr,
    pub ttl: u32,
}

impl View for Options {
    type V = OptionsView;

    open spec fn view(&self) -> OptionsView {
        OptionsView { domains_path: self.domains_path@, bind: self.bind, ttl: self.ttl }
    }
}

/// What the arguments ask for.
#[derive(Debug)]
pub enum Invocation {
    Run(Options),
    Help,
}

/// What is wrong with the arguments.
#[derive(Debug)]
pub enum ArgError {
    MissingPath,
    MissingAddress,
    MissingSeconds,
    BadAddress(String),
    BadSeconds(String),
    Unknown(String),
}

/// What the arguments ask for, or what is wrong with them.
pub enum Asked {
    Run(OptionsView),
    Help,
    MissingPath,
    MissingAddress,
    MissingSeconds,
    BadAddress(Seq<char>),
    BadSeconds(Seq<char>),
    Unknown(Seq<char>),
}

/// What is asked for where there are no arguments.
pub open spec fn default_options() -> OptionsView {
    OptionsView {
        domains_path: "dev-domains.txt"@,
        bind: SocketAddr { ip: IpAddr::V4(Ipv4Addr { bits: 0x7f00_0002 }), port: 53, scope: 0 },
        ttl: 60,
    }
}

/// What the arguments from `i` on ask for.
pub open spec fn asked(args: Seq<Seq<char>>, i: int, o: OptionsView) -> Asked
    decreases args.len() - i,
{
    if i < 0 || i >= args.len() {
        Asked::Run(o)
    } else if args[i] == "--domains"@ {
        if i + 1 < args.len() {
            asked(args, i + 2, OptionsView { domains_path: args[i + 1], ..o })
        } else {
            Asked::MissingPath
        }
    } else if args[i] == "--bind"@ {
        if i + 1 < args.len() {
            match socket_text(args[i + 1]) {
                Some(bind) => asked(args, i + 2, OptionsView { bind, ..o }),
                None => Asked::BadAddress(args[i + 1]),
            }
        } else {
            Asked::MissingAddress
        }
    } else if args[i] == "--ttl"@ {
        if i + 1 < args.len() {
            match parsed_number(args[i + 1]) {
                Some(n) => if n <= u32::MAX {
                    asked(args, i + 2, OptionsView { ttl: n as u32, ..o })
                } else {
                    Asked::BadSeconds(args[i + 1])
                },
                None => Asked::BadSeconds(args[i + 1]),
            }
        } else {
            Asked::MissingSeconds
        }
    } else if args[i] == "--help"@ || args[i] == "-h"@ {
        Asked::Help
    } else {
        Asked::Unknown(args[i])
    }
}

/// Whether an outcome is what the arguments ask for.
pub open spec fn answers_args(r: Result<Invocation, ArgError>, a: Asked) -> bool {
    match (r, a) {
        (Ok(Invocation::Run(o)), Asked::Run(v)) => o@ == v,
        (Ok(Invocation::Help), Asked::Help) => true,
        (Err(ArgError::MissingPath), Asked::MissingPath) => true,
        (Err(ArgError::MissingAddress), Asked::MissingAddress) => true,
        (Err(ArgError::MissingSeconds), Asked::MissingSeconds) => true,
        (Err(ArgError::BadAddress(s)), Asked::BadAddress(t)) => s@ == t,
        (Err(ArgError::BadSeconds(s)), Asked::BadSeconds(t)) => s@ == t,
        (Err(ArgError::Unknown(s)), Asked::Unknown(t)) => s@ == t,
        _ => false,
    }
}

/// What the arguments ask for.
pub fn parse_args(args: &Vec<String>) -> (r: Result<Invocation, ArgError>)
    ensures
        answers_args(r, asked(texts(args@), 0, default_options())),
{
    let ghost all = texts(args@);
    let mut o = Options {
        domains_path: "dev-domains.txt".to_owned(),
        bind: SocketAddr { ip: IpAddr::V4(Ipv4Addr { bits: 0x7f00_0002 }), port: 53, scope: 0 },
        ttl: 60,
    };
    let mut i: usize = 0;
    while i < args.len()
        invariant
            i <= args.len(),
            all == texts(args@),
            asked(all, 0, default_options()) == asked(all, i as int, o@),
        decreases args.len() - i,
    {
        assert(all[i as int] == args@[i as int]@);
        let arg = args[i].as_str();
        if str_eq(arg, "--domains") {
            if args.len() - i < 2 {
                return Err(ArgError::MissingPath);
            }
            assert(all[i + 1] == args@[i + 1]@);
            o.domains_path = args[i + 1].clone();
        } else if str_eq(arg, "--bind") {
            if args.len() - i < 2 {
                return Err(ArgError::MissingAddress);
            }
            assert(all[i + 1] == args@[i + 1]@);
            match parse_socket_addr(args[i + 1].as_str()) {
                Some(a) => {
                    o.bind = a;
                },
                None => {
                    return Err(ArgError::BadAddress(args[i + 1].clone()));
                },
            }
        } else if str_eq(arg, "--ttl") {
            if args.len() - i < 2 {
                return Err(ArgError::MissingSeconds);
            }
            assert(all[i + 1] == args@[i + 1]@);
            match parse_u64(args[i + 1].as_str()) {
                Some(n) => {
                    if n > u32::MAX as u64 {
                        return Err(ArgError::BadSeconds(args[i + 1].clone()));
                    }
                    o.ttl = n as u32;
                },
                None => {
                    return Err(ArgError::BadSeconds(args[i + 1].clone()));
                },
            }
        } else if str_eq(arg, "--help") || str_eq(arg, "-h") {
            return Ok(Invocation::Help);
        } else {
            return Err(ArgError::Unknown(args[i].clone()));
        }
        i += 2;
    }
    Ok(Invocation::Run(o))
}

/// The labels of the name at a place, after some jumps; or what is wrong with it.
pub open spec fn labels_at(msg: Seq<u8>, p: int, jumps: int) -> Result<Seq<Seq<char>>, Seq<char>>
    decreases 9 - jumps, msg.len() - p,
{
    if p < 0 || p >= msg.len() {
        Err("name out of bounds"@)
    } else if msg[p] >= 0xc0 {
        if p + 1 >= msg.len() {
            Err("compression pointer truncated"@)
        } else if jumps + 1 > 8 || jumps < 0 {
            Err("too many compression jumps"@)
        } else {
            labels_at(msg, (msg[p] - 0xc0) * 256 + msg[p + 1], jumps + 1)
        }
    } else if msg[p] == 0 {
        Ok(Seq::empty())
    } else if msg[p] >= 0x40 {
        Err("invalid label length"@)
    } else if p + 1 + msg[p] > msg.len() {
        Err("label out of bounds"@)
    } else {
        let label = msg.subrange(p + 1, p + 1 + msg[p]);
        if !valid_utf8(label) {
            Err("label is not utf-8"@)
        } else {
            match labels_at(msg, p + 1 + msg[p], jumps) {
                Ok(rest) => Ok(seq![decode_utf8(label)] + rest),
                Err(e) => Err(e),
            }
        }
    }
}

/// The name at a place and where what follows it starts.
pub fn read_name(msg: &[u8], offset: usize) -> (r: Result<(String, usize), &'static str>)
    ensures
        match (r, labels_at(msg@, offset as int, 0)) {
            (Ok((name, end)), Ok(labels)) => {
                &&& name@ == joined(labels, "."@)
                &&& name_skip(msg@, offset as int) == Some(end as int)
                &&& offset < end <= msg@.len()
            },
            (Err(e), Err(x)) => e@ == x,
            _ => false,
        },
{
    let mut labels: Vec<String> = Vec::new();
    let mut pos: usize = offset;
    let mut end: Option<usize> = None;
    let mut jumps: usize = 0;
    let ghost total = labels_at(msg@, offset as int, 0);
    proof {
        assert(texts(labels@) =~= Seq::<Seq<char>>::empty());
        if let Ok(rest) = total {
            assert(texts(labels@) + rest =~= rest);
        }
    }
    loop
        invariant
            total == labels_at(msg@, offset as int, 0),
            jumps <= 8,
            match labels_at(msg@, pos as int, jumps as int) {
                Ok(rest) => total == Ok::<Seq<Seq<char>>, Seq<char>>(texts(labels@) + rest),
                Err(e) => total == Err::<Seq<Seq<char>>, Seq<char>>(e),
            },
            match end {
                Some(e) => name_skip(msg@, offset as int) == Some(e as int) && offset < e
                    <= msg@.len(),
                None => offset <= pos && name_skip(msg@, offset as int) == name_skip(
                    msg@,
                    pos as int,
                ),
            },
        decreases 9 - jumps, msg@.len() - pos,
    {
        if pos >= msg.len() {
            return Err("name out of bounds");
        }
        let len: u8 = msg[pos];
        if len >= 0xc0 {
            if msg.len() - pos < 2 {
                return Err("compression pointer truncated");
            }
            let pointer: usize = (len as usize - 0xc0) * 256 + msg[pos + 1] as usize;
            if end.is_none() {
                end = Some(pos + 2);
            }
            if jumps + 1 > 8 {
                return Err("too many compression jumps");
            }
            pos = pointer;
            jumps += 1;
        } else if len == 0 {
            let after: usize = match end {
                Some(e) => e,
                None => pos + 1,
            };
            assert(texts(labels@) + Seq::<Seq<char>>::empty() =~= texts(labels@));
            return Ok((join(&labels, "."), after));
        } else if len >= 0x40 {
            return Err("invalid label length");
        } else {
            let size: usize = len as usize;
            if msg.len() - pos - 1 < size {
                return Err("label out of bounds");
            }
            let next: usize = pos + 1 + size;
            let ghost before = texts(labels@);
            match utf8_text(slice_subrange(msg, pos + 1, next)) {
                Some(label) => {
                    let ghost one = label@;
                    labels.push(label);
                    proof {
                        assert(texts(labels@) =~= before.push(one));
                        if let Ok(rest) = labels_at(msg@, next as int, jumps as int) {
                            assert(before + (seq![one] + rest) =~= texts(labels@) + rest);
                        }
                    }
                },
                None => {
                    return Err("label is not utf-8");
                },
            }
            if next >= msg.len() {
                return Err("name out of bounds");
            }
            pos = next;
        }
    }
}

/// A query.
#[derive(Debug)]
pub struct Query {
    pub id: u16,
    pub rd: bool,
    pub domain: String,
    pub qtype: u16,
    /// Where the question ends.
    pub question_end: usize,
}

/// A query.
pub struct QueryView {
    pub id: u16,
    pub rd: bool,
    pub domain: Seq<char>,
    pub qtype: u16,
    pub question_end: int,
}

impl View for Query {
    type V = QueryView;

    open spec fn view(&self) -> QueryView {
        QueryView {
            id: self.id,
            rd: self.rd,
            domain: self.domain@,
            qtype: self.qtype,
            question_end: self.question_end as int,
        }
    }
}

/// The query in a message, by its first question; or what is wrong with it.
pub open spec fn query_of(msg: Seq<u8>) -> Result<QueryView, Seq<char>> {
    if msg.len() < 12 {
        Err("packet too short"@)
    } else if at16(msg, 4) == 0 {
        Err("packet has no question"@)
    } else {
        match labels_at(msg, 12, 0) {
            Err(e) => Err(e),
            Ok(labels) => {
                let end = name_skip(msg, 12)->0;
                if end + 4 > msg.len() {
                    Err("question truncated"@)
                } else {
                    Ok(
                        QueryView {
                            id: at16(msg, 0),
                            rd: msg[2] % 2 == 1,
                            domain: plain_domain(joined(labels, "."@)),
                            qtype: at16(msg, end),
                            question_end: end + 4,
                        },
                    )
                }
            },
        }
    }
}

fn read16(msg: &[u8], p: usize) -> (n: u16)
    requires
        p + 2 <= msg@.len(),
    ensures
        n == at16(msg@, p as int),
{
    msg[p] as u16 * 256 + msg[p + 1] as u16
}

/// The query in a message; or what is wrong with it.
pub fn parse_query(msg: &[u8]) -> (r: Result<Query, &'static str>)
    ensures
        match (r, query_of(msg@)) {
            (Ok(q), Ok(v)) => q@ == v && 16 < q.question_end <= msg@.len(),
            (Err(e), Err(x)) => e@ == x,
            _ => false,
        },
{
    if msg.len() < 12 {
        return Err("packet too short");
    }
    if read16(msg, 4) == 0 {
        return Err("packet has no question");
    }
    let (name, end) = match read_name(msg, 12) {
        Ok(p) => p,
        Err(e) => {
            return Err(e);
        },
    };
    if msg.len() - end < 4 {
        return Err("question truncated");
    }
    Ok(
        Query {
            id: read16(msg, 0),
            rd: msg[2] % 2 == 1,
            domain: normalize_domain(name.as_str()),
            qtype: read16(msg, end),
            question_end: end + 4,
        },
    )
}

/// What a query comes to.
#[derive(Debug, Clone, Copy, PartialEq, Eq, Structural)]
pub enum QueryResult {
    A(Ipv4Addr),
    Empty,
    NxDomain,
}

/// What a query comes to: the address of its domain where that is asked for, and
/// nothing else.
pub open spec fn result_of(entries: Map<Seq<char>, Ipv4Addr>, domain: Seq<char>, qtype: u16) -> QueryResult {
    if !entries.contains_key(domain) {
        QueryResult::NxDomain
    } else if qtype == 1 {
        QueryResult::A(entries[domain])
    } else {
        QueryResult::Empty
    }
}

/// The header of a response: authoritative, with the wish for recursion of the
/// query, an outcome, and the numbers of questions and answers.
pub open spec fn header_bytes(id: u16, rd: bool, rcode: u8, questions: u16, answers: u16) -> Seq<u8> {
    be16(id) + seq![
        if rd {
            0x85u8
        } else {
            0x84u8
        },
        (rcode % 16) as u8,
    ] + be16(questions) + be16(answers) + be16(0) + be16(0)
}

fn put16(out: &mut Vec<u8>, n: u16)
    ensures
        final(out)@ == old(out)@ + be16(n),
{
    out.push((n / 256) as u8);
    out.push((n % 256) as u8);
    assert(out@ =~= old(out)@ + be16(n));
}

fn put32(out: &mut Vec<u8>, n: u32)
    ensures
        final(out)@ == old(out)@ + be32(n),
{
    out.push((n / 16777216) as u8);
    out.push((n / 65536 % 256) as u8);
    out.push((n / 256 % 256) as u8);
    out.push((n % 256) as u8);
    assert(out@ =~= old(out)@ + be32(n));
}

fn put_slice(out: &mut Vec<u8>, b: &[u8])
    ensures
        final(out)@ == old(out)@ + b@,
{
    let ghost start = out@;
    let mut i: usize = 0;
    assert(out@ =~= start + b@.subrange(0, 0));
    while i < b.len()
        invariant
            i <= b.len(),
            out@ == start + b@.subrange(0, i as int),
        decreases b.len() - i,
    {
        out.push(b[i]);
        assert(out@ =~= start + b@.subrange(0, i + 1));
        i += 1;
    }
    assert(b@.subrange(0, b@.len() as int) =~= b@);
}

/// Writes the header of a response.
pub fn write_header(out: &mut Vec<u8>, id: u16, rd: bool, rcode: u8, questions: u16, answers: u16)
    ensures
        final(out)@ == old(out)@ + header_bytes(id, rd, rcode, questions, answers),
{
    put16(out, id);
    out.push(
        if rd {
            0x85
        } else {
            0x84
        },
    );
    out.push(rcode % 16);
    put16(out, questions);
    put16(out, answers);
    put16(out, 0);
    put16(out, 0);
    assert(out@ =~= old(out)@ + header_bytes(id, rd, rcode, questions, answers));
}

/// The bytes of an answer with an address, for the name of the question.
pub open spec fn answer_bytes(ip: Ipv4Addr, ttl: u32) -> Seq<u8> {
    seq![0xc0u8, 0x0cu8] + be16(1) + be16(1) + be32(ttl) + be16(4) + be32(ip.bits)
}

/// The bytes of a response to a query.
pub open spec fn response_bytes(msg: Seq<u8>, q: QueryView, result: QueryResult, ttl: u32) -> Seq<u8> {
    let question = msg.subrange(12, q.question_end);
    match result {
        QueryResult::A(ip) => header_bytes(q.id, q.rd, 0, 1, 1) + question + answer_bytes(ip, ttl),
        QueryResult::Empty => header_bytes(q.id, q.rd, 0, 1, 0) + question,
        QueryResult::NxDomain => header_bytes(q.id, q.rd, 3, 1, 0) + question,
    }
}

/// The response to a query. Nothing where its question is not in the message.
pub fn build_response(msg: &[u8], query: &Query, result: QueryResult, ttl: u32) -> (r: Option<
    Vec<u8>,
>)
    ensures
        match r {
            Some(v) => 12 <= query.question_end <= msg@.len() && v@ == response_bytes(
                msg@,
                query@,
                result,
                ttl,
            ),
            None => query.question_end < 12 || query.question_end > msg@.len(),
        },
{
    if query.question_end < 12 || query.question_end > msg.len() {
        return None;
    }
    let rcode: u8 = match result {
        QueryResult::NxDomain => 3,
        _ => 0,
    };
    let answers: u16 = match result {
        QueryResult::A(_) => 1,
        _ => 0,
    };
    let mut out: Vec<u8> = Vec::new();
    write_header(&mut out, query.id, query.rd, rcode, 1, answers);
    put_slice(&mut out, slice_subrange(msg, 12, query.question_end));
    if let QueryResult::A(ip) = result {
        out.push(0xc0);
        out.push(0x0c);
        put16(&mut out, 1);
        put16(&mut out, 1);
        put32(&mut out, ttl);
        put16(&mut out, 4);
        put32(&mut out, ip.bits);
    }
    assert(out@ =~= response_bytes(msg@, query@, result, ttl));
    Some(out)
}

/// A server failure for a message. Nothing where it is no message.
pub fn build_servfail(msg: &[u8], id: u16, rd: bool) -> (r: Option<Vec<u8>>)
    ensures
        match r {
            Some(v) => msg@.len() >= 12 && v@ == header_bytes(id, rd, 2, 1, 0) + msg@.subrange(
                12,
                msg@.len() as int,
            ),
            None => msg@.len() < 12,
        },
{
    if msg.len() < 12 {
        return None;
    }
    let mut out: Vec<u8> = Vec::new();
    write_header(&mut out, id, rd, 2, 1, 0);
    put_slice(&mut out, slice_subrange(msg, 12, msg.len()));
    assert(out@ =~= header_bytes(id, rd, 2, 1, 0) + msg@.subrange(12, msg@.len() as int));
    Some(out)
}

/// A message that was answered.
#[derive(Debug)]
pub struct Handled {
    pub response: Vec<u8>,
    pub domain: String,
    pub qtype: u16,
    pub result: QueryResult,
}

/// Answers a message; or says what is wrong with it, and nothing goes back.
pub fn handle_dns_message(msg: &[u8], entries: &DomainMap, ttl: u32) -> (r: Result<
    Handled,
    &'static str,
>)
    requires
        entries.wf(),
    ensures
        match (r, query_of(msg@)) {
            (Ok(h), Ok(q)) => {
                &&& h.domain@ == q.domain
                &&& h.qtype == q.qtype
                &&& h.result == result_of(entries@, q.domain, q.qtype)
                &&& h.response@ == response_bytes(msg@, q, h.result, ttl)
            },
            (Err(e), Err(x)) => e@ == x,
            _ => false,
        },
{
    let query = match parse_query(msg) {
        Ok(q) => q,
        Err(e) => {
            return Err(e);
        },
    };
    let result = match entries.get(query.domain.as_str()) {
        Some(ip) => if query.qtype == 1 {
            QueryResult::A(ip)
        } else {
            QueryResult::Empty
        },
        None => QueryResult::NxDomain,
    };
    let response = match build_response(msg, &query, result, ttl) {
        Some(v) => v,
        None => match build_servfail(msg, query.id, query.rd) {
            Some(v) => v,
            None => Vec::new(),
        },
    };
    Ok(Handled { response, domain: query.domain, qtype: query.qtype, result })
}

/// The name of a type.
pub open spec fn type_shown(qtype: u16) -> Seq<char> {
    if qtype == 1 {
        "A"@
    } else if qtype == 28 {
        "AAAA"@
    } else {
        "TYPE"@ + decimal(qtype as nat)
    }
}

/// The name of a type.
pub fn qtype_name(qtype: u16) -> (s: String)
    ensures
        s@ == type_shown(qtype),
{
    if qtype == 1 {
        "A".to_owned()
    } else if qtype == 28 {
        "AAAA".to_owned()
    } else {
        concat("TYPE", decimal_string(qtype as u64).as_str())
    }
}

/// The name of what a query came to.
pub fn result_name(result: QueryResult) -> (s: &'static str)
    ensures
        s@ == (match result {
            QueryResult::A(_) => "LOCAL A"@,
            QueryResult::Empty => "NOERROR EMPTY"@,
            QueryResult::NxDomain => "NXDOMAIN"@,
        }),
{
    match result {
        QueryResult::A(_) => "LOCAL A",
        QueryResult::Empty => "NOERROR EMPTY",
        QueryResult::NxDomain => "NXDOMAIN",
    }
}

/// A response goes back under the id of its query, is marked as a response, and
/// repeats its question.
pub proof fn responses_echo_the_query(msg: Seq<u8>, result: QueryResult, ttl: u32)
    requires
        query_of(msg) matches Ok(q) && 12 <= q.question_end <= msg.len(),
    ensures
        ({
            let q = query_of(msg)->Ok_0;
            let r = response_bytes(msg, q, result, ttl);
            &&& r.len() >= q.question_end
            &&& at16(r, 0) == q.id
            &&& r[2] >= 0x80
            &&& r.subrange(12, q.question_end) == msg.subrange(12, q.question_end)
        }),
{
    let q = query_of(msg)->Ok_0;
    let r = response_bytes(msg, q, result, ttl);
    assert(be16(q.id).len() == 2);
    assert(r[0] == (q.id / 256) as u8);
    assert(r[1] == (q.id % 256) as u8);
    assert(r.subrange(12, q.question_end) =~= msg.subrange(12, q.question_end));
}

} // verus!
