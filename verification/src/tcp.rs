//! Messages over a stream: each comes behind its length in two bytes.
use vstd::prelude::*;

use crate::buffer::{at16, be16};
use crate::doh::{format_error, query_id};
use crate::header::ResultCode;
use crate::packet::{packet_emission, DnsPacket};
use crate::shape::{failed, shape_response_for_client, to_wire, written};

verus! {

/// The longest message that is taken.
pub const MAX_MSG_LEN: usize = 4096;

/// The most connections that are served at a time.
pub const MAX_CONNECTIONS: usize = 512;

/// The length of the message that follows its two bytes, where it is not too long.
pub fn frame_len(prefix: [u8; 2]) -> (r: Option<usize>)
    ensures
        r == (if at16(prefix@, 0) <= MAX_MSG_LEN {
            Some(at16(prefix@, 0) as usize)
        } else {
            None
        }),
{
    let n: usize = prefix[0] as usize * 256 + prefix[1] as usize;
    if n > MAX_MSG_LEN {
        None
    } else {
        Some(n)
    }
}

/// A message behind its length.
pub open spec fn framed(msg: Seq<u8>) -> Seq<u8> {
    be16((msg.len() % 65536) as u16) + msg
}

/// A message behind its length.
pub fn frame(msg: &[u8]) -> (v: Vec<u8>)
    ensures
        v@ == framed(msg@),
{
    let n: usize = msg.len() % 65536;
    let mut v: Vec<u8> = Vec::new();
    v.push((n / 256) as u8);
    v.push((n % 256) as u8);
    assert(v@ =~= be16((msg@.len() % 65536) as u16));
    let ghost head = v@;
    let mut i: usize = 0;
    assert(v@ =~= head + msg@.subrange(0, 0));
    while i < msg.len()
        invariant
            i <= msg.len(),
            v@ == head + msg@.subrange(0, i as int),
        decreases msg.len() - i,
    {
        v.push(msg[i]);
        assert(v@ =~= head + msg@.subrange(0, i + 1));
        i += 1;
    }
    assert(msg@.subrange(0, msg@.len() as int) =~= msg@);
    v
}

/// A response behind its length, where it can be written.
pub fn send_response(resp: &DnsPacket) -> (r: Option<Vec<u8>>)
    ensures
        match written(packet_emission(resp@)) {
            Ok(b) => r matches Some(v) && v@ == framed(b),
            Err(_) => r is None,
        },
{
    match to_wire(resp) {
        Ok(buf) => Some(frame(buf.filled())),
        Err(_) => None,
    }
}

/// What goes back for a message that cannot be read: an error under its id.
/// Nothing where the connection is closed instead.
pub fn unreadable(msg: &[u8]) -> (r: Option<Vec<u8>>)
    ensures
        match written(packet_emission(format_error(msg@))) {
            Ok(b) => r matches Some(v) && v@ == framed(b),
            Err(_) => r is None,
        },
{
    let mut resp = DnsPacket::new();
    resp.header.id = query_id(msg);
    resp.header.response = true;
    resp.header.rescode = ResultCode::FORMERR;
    send_response(&resp)
}

/// What goes back for a query: the bytes of its reply, or a server failure where
/// resolving failed. Nothing where the connection is closed instead.
pub fn reply(query: &DnsPacket, resolved: Option<&[u8]>, filter_aaaa: bool) -> (r: Option<Vec<u8>>)
    ensures
        match resolved {
            Some(w) => r matches Some(v) && v@ == framed(w@),
            None => match written(packet_emission(failed(query@, filter_aaaa))) {
                Ok(b) => r matches Some(v) && v@ == framed(b),
                Err(_) => r is None,
            },
        },
{
    match resolved {
        Some(w) => Some(frame(w)),
        None => {
            let mut resp = DnsPacket::response_from(query, ResultCode::SERVFAIL);
            shape_response_for_client(&mut resp, query, filter_aaaa);
            send_response(&resp)
        },
    }
}

/// A message of a length that is taken is found again behind its length.
pub proof fn frames_are_read_back(msg: Seq<u8>)
    requires
        msg.len() <= MAX_MSG_LEN,
    ensures
        at16(framed(msg), 0) == msg.len(),
        framed(msg).subrange(2, framed(msg).len() as int) == msg,
{
    assert(framed(msg).subrange(2, framed(msg).len() as int) =~= msg);
    assert(framed(msg)[0] == (msg.len() / 256) as u8);
    assert(framed(msg)[1] == (msg.len() % 256) as u8);
}

} // verus!
