//! The relay of oblivious DNS over HTTPS: it forwards sealed queries without
//! reading them, and keeps no trace of a request but counters.
use vstd::prelude::*;

use crate::text::{
    chars_of, concat3, decimal, decimal_string, has_prefix, split, split_parts, starts_with, str_eq,
    trim, trimmed,
};

verus! {

/// The longest body that is taken from a client.
pub const MAX_BODY_BYTES: usize = 4096;

/// The longest body that is taken from a target.
pub const MAX_TARGET_RESPONSE_BYTES: usize = 8192;

/// The counters of the relay. They start anew after the last number.
#[derive(Clone, Copy, Debug, PartialEq, Eq, Structural)]
pub struct RelayState {
    pub total_requests: u64,
    pub forwarded_ok: u64,
    pub forwarded_err: u64,
    pub rejected_bad_request: u64,
}

/// A counter after one more.
pub open spec fn next_count(n: u64) -> u64 {
    if n == u64::MAX {
        0
    } else {
        (n + 1) as u64
    }
}

/// What is done with a request.
#[derive(Debug)]
pub enum RelayStep {
    /// It is refused, with a status and a text.
    Refuse(u16, &'static str),
    /// Its body goes to an address.
    Forward(String),
}

/// Whether a header holds a type, whatever parameters follow.
pub open spec fn content_type_is(value: Option<Seq<char>>, expected: Seq<char>) -> bool {
    value matches Some(v) && trimmed(split_parts(v, ';')[0]) == expected
}

/// Whether a header holds a type, whatever parameters follow.
pub fn content_type_matches(value: Option<&str>, expected: &str) -> (b: bool)
    ensures
        b == content_type_is(
            match value {
                Some(v) => Some(v@),
                None => None,
            },
            expected@,
        ),
{
    match value {
        None => false,
        Some(v) => {
            let parts = split(v, ';');
            assert(split_parts(v@, ';')[0] == parts@[0]@);
            str_eq(trim(parts[0].as_str()).as_str(), expected)
        },
    }
}

/// Whether a character may stand in a host name.
pub open spec fn host_char(c: char) -> bool {
    ('a' <= c && c <= 'z') || ('A' <= c && c <= 'Z') || ('0' <= c && c <= '9') || c == '.' || c
        == '-'
}

/// Whether a text is a host name with a dot: letters, digits, dots and dashes,
/// with neither a dot nor a dash at its ends, and at most 253 of them.
pub open spec fn hostname(h: Seq<char>) -> bool {
    &&& 0 < h.len() <= 253
    &&& h.contains('.')
    &&& h[0] != '.' && h[0] != '-'
    &&& h.last() != '.' && h.last() != '-'
    &&& forall|i: int| 0 <= i < h.len() ==> host_char(#[trigger] h[i])
}

/// Whether a text is a host name with a dot.
pub fn is_valid_hostname(h: &str) -> (b: bool)
    ensures
        b == hostname(h@),
{
    let x = chars_of(h);
    if x.len() == 0 || x.len() > 253 {
        return false;
    }
    let n: usize = x.len();
    if x[0] == '.' || x[0] == '-' || x[n - 1] == '.' || x[n - 1] == '-' {
        return false;
    }
    let mut dot = false;
    let mut i: usize = 0;
    while i < n
        invariant
            i <= n,
            n == x.len(),
            x@ == h@,
            dot == (exists|j: int| 0 <= j < i && h@[j] == '.'),
            forall|j: int| 0 <= j < i ==> host_char(#[trigger] h@[j]),
        decreases n - i,
    {
        let c = x[i];
        if c == '.' {
            assert(h@[i as int] == '.');
            dot = true;
        }
        if !(('a' <= c && c <= 'z') || ('A' <= c && c <= 'Z') || ('0' <= c && c <= '9') || c == '.'
            || c == '-') {
            assert(!host_char(h@[i as int]));
            return false;
        }
        i += 1;
    }
    assert(dot == h@.contains('.'));
    dot
}

/// The number of a counter after a label, on a line of its own.
pub open spec fn count_line(label: Seq<char>, n: u64) -> Seq<char> {
    label + decimal(n as nat) + "\n"@
}

fn put_line(s: &mut String, label: &str, n: u64)
    ensures
        final(s)@ == old(s)@ + count_line(label@, n),
{
    s.append(label);
    s.append(decimal_string(n).as_str());
    s.append("\n");
    assert(s@ =~= old(s)@ + count_line(label@, n));
}

/// How a request is refused, if it is.
pub open spec fn refusal(
    content_type: Option<Seq<char>>,
    body_len: usize,
    targethost: Seq<char>,
    targetpath: Seq<char>,
) -> Option<(u16, Seq<char>)> {
    if !content_type_is(content_type, "application/oblivious-dns-message"@) {
        Some((415, "expected application/oblivious-dns-message"@))
    } else if body_len > MAX_BODY_BYTES {
        Some((413, "body exceeds 4 KiB cap"@))
    } else if !hostname(targethost) || !has_prefix(targetpath, "/"@) {
        Some((400, "invalid targethost or targetpath"@))
    } else {
        None
    }
}

impl RelayState {
    /// Counters at zero.
    pub fn new() -> (r: Self)
        ensures
            r == (RelayState {
                total_requests: 0,
                forwarded_ok: 0,
                forwarded_err: 0,
                rejected_bad_request: 0,
            }),
    {
        RelayState {
            total_requests: 0,
            forwarded_ok: 0,
            forwarded_err: 0,
            rejected_bad_request: 0,
        }
    }

    /// Takes a request: decides whether it goes on to its target, and counts it.
    pub fn handle_relay(
        &mut self,
        content_type: Option<&str>,
        body_len: usize,
        targethost: &str,
        targetpath: &str,
    ) -> (r: RelayStep)
        ensures
            match refusal(
                match content_type {
                    Some(v) => Some(v@),
                    None => None,
                },
                body_len,
                targethost@,
                targetpath@,
            ) {
                Some((code, text)) => {
                    &&& r matches RelayStep::Refuse(c, t)
                    &&& c == code
                    &&& t@ == text
                    &&& *final(self) == (RelayState {
                        total_requests: next_count(old(self).total_requests),
                        rejected_bad_request: next_count(old(self).rejected_bad_request),
                        ..*old(self)
                    })
                },
                None => {
                    &&& r matches RelayStep::Forward(url)
                    &&& url@ == "https://"@ + targethost@ + targetpath@
                    &&& *final(self) == (RelayState {
                        total_requests: next_count(old(self).total_requests),
                        ..*old(self)
                    })
                },
            },
    {
        self.total_requests = self.total_requests.wrapping_add(1);
        if !content_type_matches(content_type, "application/oblivious-dns-message") {
            self.rejected_bad_request = self.rejected_bad_request.wrapping_add(1);
            return RelayStep::Refuse(415, "expected application/oblivious-dns-message");
        }
        if body_len > MAX_BODY_BYTES {
            self.rejected_bad_request = self.rejected_bad_request.wrapping_add(1);
            return RelayStep::Refuse(413, "body exceeds 4 KiB cap");
        }
        if !is_valid_hostname(targethost) || !starts_with(targetpath, "/") {
            self.rejected_bad_request = self.rejected_bad_request.wrapping_add(1);
            return RelayStep::Refuse(400, "invalid targethost or targetpath");
        }
        RelayStep::Forward(concat3("https://", targethost, targetpath))
    }

    /// Takes up what came of forwarding: the length of the target's reply, or
    /// nothing where it was not reached. A refusal tells the client nothing of
    /// the reason; no refusal means that the reply goes back.
    pub fn forwarded(&mut self, reply_len: Option<usize>) -> (r: Option<(u16, &'static str)>)
        ensures
            match reply_len {
                Some(n) => if n <= MAX_TARGET_RESPONSE_BYTES {
                    r is None && *final(self) == (RelayState {
                        forwarded_ok: next_count(old(self).forwarded_ok),
                        ..*old(self)
                    })
                } else {
                    r matches Some((502, t)) && t@ == "target unreachable"@ && *final(self) == (
                    RelayState {
                        forwarded_err: next_count(old(self).forwarded_err),
                        ..*old(self)
                    })
                },
                None => r matches Some((502, t)) && t@ == "target unreachable"@ && *final(self) == (
                RelayState {
                    forwarded_err: next_count(old(self).forwarded_err),
                    ..*old(self)
                }),
            },
    {
        let ok = match reply_len {
            Some(n) => n <= MAX_TARGET_RESPONSE_BYTES,
            None => false,
        };
        if ok {
            self.forwarded_ok = self.forwarded_ok.wrapping_add(1);
            None
        } else {
            self.forwarded_err = self.forwarded_err.wrapping_add(1);
            Some((502, "target unreachable"))
        }
    }

    /// The text that reports the counters.
    pub fn handle_health(&self) -> (s: String)
        ensures
            s@ == "ok\n"@ + count_line("total "@, self.total_requests) + count_line(
                "forwarded_ok "@,
                self.forwarded_ok,
            ) + count_line("forwarded_err "@, self.forwarded_err) + count_line(
                "rejected_bad_request "@,
                self.rejected_bad_request,
            ),
    {
        let mut s = "ok\n".to_owned();
        put_line(&mut s, "total ", self.total_requests);
        put_line(&mut s, "forwarded_ok ", self.forwarded_ok);
        put_line(&mut s, "forwarded_err ", self.forwarded_err);
        put_line(&mut s, "rejected_bad_request ", self.rejected_bad_request);
        s
    }
}

/// The target of a request that goes on is named by letters, digits, dots and
/// dashes alone: no user, port or path can stand in the host.
pub proof fn forwarded_host_is_plain(
    content_type: Option<Seq<char>>,
    body_len: usize,
    targethost: Seq<char>,
    targetpath: Seq<char>,
)
    requires
        refusal(content_type, body_len, targethost, targetpath) is None,
    ensures
        !targethost.contains('@'),
        !targethost.contains('/'),
        !targethost.contains(':'),
        targetpath.len() > 0 && targetpath[0] == '/',
{
    reveal_strlit("/");
    assert(targetpath.subrange(0, 1)[0] == "/"@[0]);
}

} // verus!
