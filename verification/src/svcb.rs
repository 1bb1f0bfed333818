//! The data of SVCB and HTTPS records (RFC 9460): a priority, a target name
//! and parameters. Two edits: dropping the `ipv6hint` parameter, and dropping
//! private addresses from the two address hints.
use vstd::prelude::*;
use vstd::slice::{slice_subrange, slice_to_vec};

use crate::acl::CidrMatcher;
use crate::buffer::{at16, at32, be16};
use crate::net::{IpAddr, Ipv4Addr, Ipv6Addr};
use crate::record::at128;

verus! {

/// The key of the parameter `ipv4hint`.
pub const IPV4_HINT_KEY: u16 = 4;

/// The key of the parameter `ipv6hint`.
pub const IPV6_HINT_KEY: u16 = 6;

/// A parameter: its key and its value.
pub struct SvcParam {
    pub key: u16,
    pub value: Seq<u8>,
}

/// Where the target name at `pos` ends. Nothing where it is cut off or holds a pointer.
pub open spec fn target_end(rdata: Seq<u8>, pos: int) -> Option<int>
    decreases rdata.len() - pos,
{
    if pos < 0 || pos >= rdata.len() {
        None
    } else {
        let len = rdata[pos];
        if len == 0 {
            Some(pos + 1)
        } else if len >= 0x40 || pos + 1 + len > rdata.len() {
            None
        } else {
            target_end(rdata, pos + 1 + len)
        }
    }
}

/// The parameters from `pos` on. Nothing where one is cut off.
pub open spec fn params_at(rdata: Seq<u8>, pos: int) -> Option<Seq<SvcParam>>
    decreases rdata.len() - pos,
{
    if pos < 0 || pos >= rdata.len() {
        Some(Seq::empty())
    } else if pos + 4 > rdata.len() {
        None
    } else {
        let end = pos + 4 + at16(rdata, pos + 2);
        if end > rdata.len() {
            None
        } else {
            match params_at(rdata, end) {
                None => None,
                Some(rest) => Some(
                    seq![SvcParam { key: at16(rdata, pos), value: rdata.subrange(pos + 4, end) }]
                        + rest,
                ),
            }
        }
    }
}

/// The data up to the end of the target name, and the parameters.
pub open spec fn svc_parts(rdata: Seq<u8>) -> Option<(Seq<u8>, Seq<SvcParam>)> {
    if rdata.len() < 2 {
        None
    } else {
        match target_end(rdata, 2) {
            None => None,
            Some(start) => match params_at(rdata, start) {
                None => None,
                Some(params) => Some((rdata.subrange(0, start), params)),
            },
        }
    }
}

/// The bytes of a parameter.
pub open spec fn param_bytes(p: SvcParam) -> Seq<u8> {
    be16(p.key) + be16(p.value.len() as u16) + p.value
}

/// The bytes of parameters.
pub open spec fn params_bytes(params: Seq<SvcParam>) -> Seq<u8>
    decreases params.len(),
{
    if params.len() == 0 {
        Seq::empty()
    } else {
        params_bytes(params.drop_last()) + param_bytes(params.last())
    }
}

/// What an edit makes of a parameter: nothing where it is malformed, else the
/// new value, or none where the value stays.
pub type Edited = Option<Option<Seq<u8>>>;

/// Whether an edit accepts each parameter.
pub open spec fn all_accepted(params: Seq<SvcParam>, edit: spec_fn(SvcParam) -> Edited) -> bool {
    forall|i: int| 0 <= i < params.len() ==> edit(#[trigger] params[i]) is Some
}

/// Whether an edit changes some parameter.
pub open spec fn some_changed(params: Seq<SvcParam>, edit: spec_fn(SvcParam) -> Edited) -> bool {
    exists|i: int| 0 <= i < params.len() && edit(#[trigger] params[i]) matches Some(Some(_))
}

/// The parameters that an edit leaves: each with its new value, those whose
/// new value is empty left out.
pub open spec fn edited_params(params: Seq<SvcParam>, edit: spec_fn(SvcParam) -> Edited) -> Seq<
    SvcParam,
>
    decreases params.len(),
{
    if params.len() == 0 {
        Seq::empty()
    } else {
        let before = edited_params(params.drop_last(), edit);
        let p = params.last();
        match edit(p) {
            Some(Some(v)) => if v.len() == 0 {
                before
            } else {
                before.push(SvcParam { key: p.key, value: v })
            },
            _ => before.push(p),
        }
    }
}

/// The data after an edit of its parameters. Nothing where it cannot be read,
/// the edit rejects a parameter, or nothing changes.
pub open spec fn edited_rdata(rdata: Seq<u8>, edit: spec_fn(SvcParam) -> Edited) -> Option<
    Seq<u8>,
> {
    match svc_parts(rdata) {
        None => None,
        Some((head, params)) => if all_accepted(params, edit) && some_changed(params, edit) {
            Some(head + params_bytes(edited_params(params, edit)))
        } else {
            None
        },
    }
}

/// The edit that drops `ipv6hint`.
pub open spec fn without_ipv6hint() -> spec_fn(SvcParam) -> Edited {
    |p: SvcParam|
        Some(
            if p.key == IPV6_HINT_KEY {
                Some(Seq::<u8>::empty())
            } else {
                None
            },
        )
}

/// The number of bytes of one address in a hint.
pub open spec fn stride_of(key: u16) -> Option<int> {
    if key == IPV4_HINT_KEY {
        Some(4int)
    } else if key == IPV6_HINT_KEY {
        Some(16int)
    } else {
        None
    }
}

/// The address in the bytes at `p`, 4 or 16 of them.
pub open spec fn addr_at(value: Seq<u8>, p: int, stride: int) -> IpAddr {
    if stride == 4 {
        IpAddr::V4(Ipv4Addr { bits: at32(value, p) })
    } else {
        IpAddr::V6(Ipv6Addr { bits: at128(value, p) })
    }
}

/// The first `n` addresses of a hint, without the private ones.
pub open spec fn public_part(
    value: Seq<u8>,
    stride: int,
    n: int,
    private: spec_fn(IpAddr) -> bool,
) -> Seq<u8>
    decreases n,
{
    if n <= 0 {
        Seq::empty()
    } else {
        let before = public_part(value, stride, n - 1, private);
        let at = (n - 1) * stride;
        if private(addr_at(value, at, stride)) {
            before
        } else {
            before + value.subrange(at, at + stride)
        }
    }
}

/// The edit that drops the private addresses of hints. A hint that is not made
/// of whole addresses is malformed.
pub open spec fn without_private(private: spec_fn(IpAddr) -> bool) -> spec_fn(SvcParam) -> Edited {
    |p: SvcParam|
        match stride_of(p.key) {
            None => Some(None),
            Some(stride) => if p.value.len() as int % stride != 0 {
                None
            } else {
                let kept = public_part(p.value, stride, p.value.len() as int / stride, private);
                Some(
                    if kept.len() == p.value.len() {
                        None
                    } else {
                        Some(kept)
                    },
                )
            },
        }
}

/// What an edit makes of one parameter.
enum Edit {
    /// The parameter stays.
    Keep,
    /// The parameter has a new value, or goes where that is empty.
    Rewrite(Vec<u8>),
}

impl Edit {
    spec fn edited(r: Option<Edit>) -> Edited {
        match r {
            None => None,
            Some(Edit::Keep) => Some(None),
            Some(Edit::Rewrite(v)) => Some(Some(v@)),
        }
    }
}

/// An edit of parameters.
trait ParamEdit {
    /// Whether the edit can be run.
    spec fn ready(&self) -> bool;

    /// What the edit makes of a parameter.
    spec fn rule(&self) -> spec_fn(SvcParam) -> Edited;

    /// What the edit makes of a parameter.
    fn edit(&self, key: u16, value: &[u8]) -> (r: Option<Edit>)
        requires
            self.ready(),
        ensures
            Edit::edited(r) == (self.rule())(SvcParam { key, value: value@ }),
            r matches Some(Edit::Rewrite(v)) ==> v@.len() <= value@.len(),
    ;
}

/// Drops `ipv6hint`.
struct DropIpv6Hint;

impl ParamEdit for DropIpv6Hint {
    spec fn ready(&self) -> bool {
        true
    }

    spec fn rule(&self) -> spec_fn(SvcParam) -> Edited {
        without_ipv6hint()
    }

    fn edit(&self, key: u16, value: &[u8]) -> (r: Option<Edit>) {
        if key == IPV6_HINT_KEY {
            let v: Vec<u8> = Vec::new();
            assert(v@ =~= Seq::<u8>::empty());
            Some(Edit::Rewrite(v))
        } else {
            Some(Edit::Keep)
        }
    }
}

/// Drops the addresses of hints that are in some private ranges.
struct DropPrivate<'a> {
    ranges: &'a CidrMatcher,
}

/// The addresses in some ranges.
pub open spec fn within(ranges: &CidrMatcher) -> spec_fn(IpAddr) -> bool {
    |ip: IpAddr| ranges.has(ip)
}

impl<'a> ParamEdit for DropPrivate<'a> {
    spec fn ready(&self) -> bool {
        self.ranges.wf()
    }

    spec fn rule(&self) -> spec_fn(SvcParam) -> Edited {
        without_private(within(self.ranges))
    }

    fn edit(&self, key: u16, value: &[u8]) -> (r: Option<Edit>) {
        let stride: usize = match hint_stride(key) {
            None => {
                return Some(Edit::Keep);
            },
            Some(s) => s,
        };
        if value.len() % stride != 0 {
            return None;
        }
        let kept = filter_hint(value, stride, self.ranges);
        if kept.len() == value.len() {
            Some(Edit::Keep)
        } else {
            Some(Edit::Rewrite(kept))
        }
    }
}

/// The number of bytes of one address in a hint.
fn hint_stride(key: u16) -> (r: Option<usize>)
    ensures
        match r {
            Some(s) => stride_of(key) == Some(s as int),
            None => stride_of(key) is None,
        },
{
    if key == IPV4_HINT_KEY {
        Some(4)
    } else if key == IPV6_HINT_KEY {
        Some(16)
    } else {
        None
    }
}

/// The number in four bytes of a slice.
fn word_at(value: &[u8], p: usize) -> (r: u32)
    requires
        p + 4 <= value@.len(),
    ensures
        r == at32(value@, p as int),
{
    value[p] as u32 * 16777216 + value[p + 1] as u32 * 65536 + value[p + 2] as u32 * 256 + value[p
        + 3] as u32
}

/// The address in the bytes at `p`, 4 or 16 of them.
fn hint_addr(value: &[u8], p: usize, stride: usize) -> (r: IpAddr)
    requires
        stride == 4 || stride == 16,
        p + stride <= value@.len(),
    ensures
        r == addr_at(value@, p as int, stride as int),
{
    assert(value@.len() == value.len());
    if stride == 4 {
        IpAddr::V4(Ipv4Addr { bits: word_at(value, p) })
    } else {
        let a: u128 = word_at(value, p) as u128;
        let b: u128 = word_at(value, p + 4) as u128;
        let c: u128 = word_at(value, p + 8) as u128;
        let d: u128 = word_at(value, p + 12) as u128;
        let m: u128 = 0x1_0000_0000;
        IpAddr::V6(Ipv6Addr { bits: ((a * m + b) * m + c) * m + d })
    }
}

/// The addresses of a hint that are not in the private ranges, in order.
fn filter_hint(value: &[u8], stride: usize, ranges: &CidrMatcher) -> (out: Vec<u8>)
    requires
        stride == 4 || stride == 16,
        value@.len() % stride as nat == 0,
        ranges.wf(),
    ensures
        out@ == public_part(
            value@,
            stride as int,
            value@.len() as int / stride as int,
            within(ranges),
        ),
        out@.len() <= value@.len(),
{
    let mut out: Vec<u8> = Vec::new();
    let n: usize = value.len() / stride;
    let mut i: usize = 0;
    let mut at: usize = 0;
    let ghost private = within(ranges);
    while i < n
        invariant
            i <= n,
            n == value@.len() as int / stride as int,
            value@.len() == n * stride,
            at == i * stride,
            stride == 4 || stride == 16,
            ranges.wf(),
            private == within(ranges),
            out@ == public_part(value@, stride as int, i as int, private),
            out@.len() <= at,
        decreases n - i,
    {
        assert(at + stride == (i + 1) * stride) by (nonlinear_arith)
            requires
                at == i * stride,
        ;
        assert(value@.len() == value.len());
        assert((i + 1) * stride <= n * stride) by (nonlinear_arith)
            requires
                i + 1 <= n,
        ;
        let ip = hint_addr(value, at, stride);
        let hidden = ranges.matches(ip);
        if !hidden {
            let part = slice_subrange(value, at, at + stride);
            push_all(&mut out, part);
        }
        i += 1;
        at += stride;
    }
    out
}

/// Appends bytes.
fn push_all(out: &mut Vec<u8>, part: &[u8])
    ensures
        final(out)@ == old(out)@ + part@,
{
    let mut i: usize = 0;
    assert(out@ =~= old(out)@ + part@.subrange(0, 0));
    while i < part.len()
        invariant
            i <= part@.len(),
            out@ == old(out)@ + part@.subrange(0, i as int),
        decreases part@.len() - i,
    {
        out.push(part[i]);
        i += 1;
        assert(out@ =~= old(out)@ + part@.subrange(0, i as int));
    }
    assert(part@.subrange(0, part@.len() as int) =~= part@);
}

/// Where the target name at `pos` ends.
fn skip_target_name(rdata: &[u8], pos: usize) -> (r: Option<usize>)
    ensures
        match r {
            Some(end) => target_end(rdata@, pos as int) == Some(end as int),
            None => target_end(rdata@, pos as int) is None,
        },
{
    let mut at: usize = pos;
    loop
        invariant
            target_end(rdata@, pos as int) == target_end(rdata@, at as int),
        decreases rdata@.len() - at,
    {
        if at >= rdata.len() {
            return None;
        }
        let len: usize = rdata[at] as usize;
        if len == 0 {
            return Some(at + 1);
        }
        if len >= 0x40 || len > rdata.len() - at - 1 {
            return None;
        }
        at = at + 1 + len;
    }
}

/// The end of a target name lies behind its beginning and within the data.
proof fn target_end_within(rdata: Seq<u8>, pos: int)
    ensures
        target_end(rdata, pos) matches Some(end) ==> pos < end <= rdata.len(),
    decreases rdata.len() - pos,
{
    if 0 <= pos < rdata.len() {
        let len = rdata[pos];
        if 0 < len < 0x40 && pos + 1 + len <= rdata.len() {
            target_end_within(rdata, pos + 1 + len);
        }
    }
}

/// The parameter at `pos`: its key, its value and where it ends.
fn read_param(rdata: &[u8], pos: usize) -> (r: Option<(u16, &[u8], usize)>)
    requires
        pos < rdata@.len(),
    ensures
        match r {
            Some((key, value, end)) => {
                &&& pos + 4 <= end <= rdata@.len()
                &&& end == pos + 4 + at16(rdata@, pos + 2)
                &&& key == at16(rdata@, pos as int)
                &&& value@ == rdata@.subrange(pos + 4, end as int)
            },
            None => params_at(rdata@, pos as int) is None,
        },
{
    if rdata.len() - pos < 4 {
        return None;
    }
    let key: u16 = rdata[pos] as u16 * 256 + rdata[pos + 1] as u16;
    let len: usize = rdata[pos + 2] as usize * 256 + rdata[pos + 3] as usize;
    if len > rdata.len() - pos - 4 {
        return None;
    }
    let end: usize = pos + 4 + len;
    Some((key, slice_subrange(rdata, pos + 4, end), end))
}

/// Applies an edit to the parameters. Nothing where the data cannot be read,
/// the edit rejects a parameter, or nothing changes.
fn edit_svcparams<E: ParamEdit>(rdata: &[u8], edit: &E) -> (r: Option<Vec<u8>>)
    requires
        edit.ready(),
    ensures
        match r {
            Some(v) => edited_rdata(rdata@, edit.rule()) == Some(v@),
            None => edited_rdata(rdata@, edit.rule()) is None,
        },
{
    if rdata.len() < 2 {
        return None;
    }
    let start: usize = match skip_target_name(rdata, 2) {
        None => {
            return None;
        },
        Some(s) => s,
    };
    proof {
        target_end_within(rdata@, 2);
    }
    let ghost rule = edit.rule();
    let ghost mut seen = Seq::<SvcParam>::empty();
    let mut out = slice_to_vec(slice_subrange(rdata, 0, start));
    let ghost head = out@;
    let mut pos: usize = start;
    let mut changed = false;
    assert(out@ =~= head + params_bytes(edited_params(seen, rule)));
    proof {
        if let Some(rest) = params_at(rdata@, start as int) {
            assert(seen + rest =~= rest);
        }
    }
    while pos < rdata.len()
        invariant
            start <= pos <= rdata@.len(),
            target_end(rdata@, 2) == Some(start as int),
            rdata@.len() >= 2,
            edit.ready(),
            rule == edit.rule(),
            head == rdata@.subrange(0, start as int),
            all_accepted(seen, rule),
            changed == some_changed(seen, rule),
            out@ == head + params_bytes(edited_params(seen, rule)),
            match params_at(rdata@, pos as int) {
                None => params_at(rdata@, start as int) is None,
                Some(rest) => params_at(rdata@, start as int) == Some(seen + rest),
            },
        decreases rdata@.len() - pos,
    {
        let (key, value, end) = match read_param(rdata, pos) {
            None => {
                return None;
            },
            Some(p) => p,
        };
        let ghost p = SvcParam { key, value: value@ };
        let ghost more = seen.push(p);
        proof {
            assert(more.drop_last() =~= seen);
            match params_at(rdata@, end as int) {
                None => {},
                Some(rest) => {
                    assert(seen + (seq![p] + rest) =~= more + rest);
                },
            }
        }
        let ghost before = out@;
        match edit.edit(key, value) {
            None => {
                proof {
                    if let Some(rest) = params_at(rdata@, end as int) {
                        assert((more + rest)[seen.len() as int] == p);
                        assert(!all_accepted(more + rest, rule));
                    }
                }
                return None;
            },
            Some(Edit::Keep) => {
                push_all(&mut out, slice_subrange(rdata, pos, end));
                proof {
                    assert(rdata@.subrange(pos as int, end as int) =~= param_bytes(p)) by {
                        assert(be16(key) =~= rdata@.subrange(pos as int, pos + 2));
                        assert(be16(value@.len() as u16) =~= rdata@.subrange(pos + 2, pos + 4));
                    }
                    let kept = edited_params(seen, rule).push(p);
                    assert(edited_params(more, rule) == kept);
                    assert(kept.drop_last() =~= edited_params(seen, rule));
                    assert(out@ =~= head + params_bytes(kept));
                }
            },
            Some(Edit::Rewrite(v)) => {
                changed = true;
                if v.len() > 0 {
                    let len: usize = v.len();
                    out.push((key / 256) as u8);
                    out.push((key % 256) as u8);
                    out.push((len / 256) as u8);
                    out.push((len % 256) as u8);
                    push_all(&mut out, v.as_slice());
                    proof {
                        let q = SvcParam { key, value: v@ };
                        let kept = edited_params(seen, rule).push(q);
                        assert(edited_params(more, rule) == kept);
                        assert(kept.drop_last() =~= edited_params(seen, rule));
                        assert(out@ =~= before + param_bytes(q));
                        assert(out@ =~= head + params_bytes(kept));
                    }
                }
                assert(rule(more[seen.len() as int]) matches Some(Some(_)));
            },
        }
        proof {
            assert(all_accepted(more, rule)) by {
                assert forall|i: int| 0 <= i < more.len() implies rule(#[trigger] more[i]) is Some by {
                    if i < seen.len() {
                        assert(more[i] == seen[i]);
                    }
                }
            }
            if some_changed(seen, rule) {
                let i = choose|i: int|
                    0 <= i < seen.len() && rule(#[trigger] seen[i]) matches Some(Some(_));
                assert(more[i] == seen[i]);
            }
            if some_changed(more, rule) {
                let i = choose|i: int|
                    0 <= i < more.len() && rule(#[trigger] more[i]) matches Some(Some(_));
                if i < seen.len() {
                    assert(more[i] == seen[i]);
                }
            }
            seen = more;
        }
        pos = end;
    }
    assert(seen + Seq::<SvcParam>::empty() =~= seen);
    if changed {
        Some(out)
    } else {
        None
    }
}

/// Drops the addresses in the private ranges from the hints, keeping the
/// others and all other parameters. Nothing where nothing changes or the data
/// cannot be read.
pub fn strip_private_hints(rdata: &[u8], private_ranges: &CidrMatcher) -> (r: Option<Vec<u8>>)
    requires
        private_ranges.wf(),
    ensures
        match r {
            Some(v) => edited_rdata(rdata@, without_private(within(private_ranges))) == Some(v@),
            None => edited_rdata(rdata@, without_private(within(private_ranges))) is None,
        },
{
    let edit = DropPrivate { ranges: private_ranges };
    edit_svcparams(rdata, &edit)
}

/// Drops the parameter `ipv6hint`. Nothing where there is none or the data
/// cannot be read.
pub fn strip_ipv6hint(rdata: &[u8]) -> (r: Option<Vec<u8>>)
    ensures
        match r {
            Some(v) => edited_rdata(rdata@, without_ipv6hint()) == Some(v@),
            None => edited_rdata(rdata@, without_ipv6hint()) is None,
        },
{
    edit_svcparams(rdata, &DropIpv6Hint)
}

// ---------------------------------------------------------------------------
// What an edit leaves
// ---------------------------------------------------------------------------

/// Whether an edit never makes a value longer.
pub open spec fn shrinks(edit: spec_fn(SvcParam) -> Edited) -> bool {
    forall|p: SvcParam|
        (#[trigger] edit(p)) matches Some(Some(v)) ==> v.len() <= p.value.len()
}

/// Whether each value fits the two bytes of its length.
pub open spec fn values_fit(params: Seq<SvcParam>) -> bool {
    forall|i: int| 0 <= i < params.len() ==> (#[trigger] params[i]).value.len() <= 65535
}

proof fn params_at_fit(rdata: Seq<u8>, pos: int)
    ensures
        params_at(rdata, pos) matches Some(params) ==> values_fit(params),
    decreases rdata.len() - pos,
{
    if 0 <= pos && pos + 4 <= rdata.len() {
        let end = pos + 4 + at16(rdata, pos + 2);
        if end <= rdata.len() {
            params_at_fit(rdata, end);
        }
    }
}

proof fn params_bytes_front(p: SvcParam, rest: Seq<SvcParam>)
    ensures
        params_bytes(seq![p] + rest) == param_bytes(p) + params_bytes(rest),
    decreases rest.len(),
{
    let all = seq![p] + rest;
    if rest.len() == 0 {
        assert(all.drop_last() =~= Seq::<SvcParam>::empty());
        assert(params_bytes(Seq::<SvcParam>::empty()) =~= Seq::<u8>::empty());
        assert(params_bytes(all) =~= param_bytes(p) + params_bytes(rest));
    } else {
        params_bytes_front(p, rest.drop_last());
        assert(all.drop_last() =~= seq![p] + rest.drop_last());
        assert(params_bytes(all) =~= param_bytes(p) + params_bytes(rest));
    }
}

/// Parameters that were written are read back.
pub proof fn params_read_back(rdata: Seq<u8>, pos: int, params: Seq<SvcParam>)
    requires
        0 <= pos <= rdata.len(),
        rdata.subrange(pos, rdata.len() as int) == params_bytes(params),
        values_fit(params),
    ensures
        params_at(rdata, pos) == Some(params),
    decreases params.len(),
{
    let n = rdata.len() as int;
    if params.len() == 0 {
        assert(rdata.subrange(pos, n).len() == 0);
        assert(params =~= Seq::<SvcParam>::empty());
    } else {
        let p = params[0];
        let rest = params.drop_first();
        assert(params =~= seq![p] + rest);
        params_bytes_front(p, rest);
        let pb = param_bytes(p);
        let whole = pb + params_bytes(rest);
        assert forall|i: int| 0 <= i < whole.len() implies rdata[pos + i] == whole[i] by {
            assert(rdata.subrange(pos, n)[i] == whole[i]);
        }
        assert(rdata.subrange(pos, n).len() == whole.len());
        let end = pos + pb.len();
        assert(rdata[pos + 0] == whole[0] && rdata[pos + 1] == whole[1] && rdata[pos + 2]
            == whole[2] && rdata[pos + 3] == whole[3]);
        assert(rdata[pos] == pb[0] && rdata[pos + 1] == pb[1] && rdata[pos + 2] == pb[2] && rdata[pos
            + 3] == pb[3]);
        assert(at16(rdata, pos) == p.key);
        assert(at16(rdata, pos + 2) == p.value.len());
        assert(rdata.subrange(pos + 4, end) =~= p.value) by {
            assert forall|i: int| 0 <= i < p.value.len() implies rdata[pos + 4 + i]
                == p.value[i] by {
                assert(whole[4 + i] == p.value[i]);
            }
        }
        assert(rdata.subrange(end, n) =~= params_bytes(rest)) by {
            assert forall|i: int| 0 <= i < params_bytes(rest).len() implies rdata[end + i]
                == params_bytes(rest)[i] by {
                assert(whole[pb.len() + i] == params_bytes(rest)[i]);
            }
        }
        assert(values_fit(rest)) by {
            assert forall|i: int| 0 <= i < rest.len() implies (#[trigger] rest[i]).value.len()
                <= 65535 by {
                assert(rest[i] == params[i + 1]);
            }
        }
        params_read_back(rdata, end, rest);
    }
}

proof fn target_end_prefix(a: Seq<u8>, b: Seq<u8>, pos: int, end: int)
    requires
        target_end(a, pos) == Some(end),
        end <= a.len(),
        end <= b.len(),
        a.subrange(0, end) == b.subrange(0, end),
    ensures
        target_end(b, pos) == Some(end),
    decreases a.len() - pos,
{
    target_end_within(a, pos);
    assert(a.subrange(0, end)[pos] == a[pos]);
    assert(b.subrange(0, end)[pos] == b[pos]);
    let len = a[pos];
    if len != 0 {
        target_end_within(a, pos + 1 + len);
        target_end_prefix(a, b, pos + 1 + len, end);
    }
}

proof fn edited_params_fit(params: Seq<SvcParam>, edit: spec_fn(SvcParam) -> Edited)
    requires
        shrinks(edit),
        values_fit(params),
    ensures
        values_fit(edited_params(params, edit)),
    decreases params.len(),
{
    if params.len() > 0 {
        let before = params.drop_last();
        assert(values_fit(before)) by {
            assert forall|i: int| 0 <= i < before.len() implies (#[trigger] before[i]).value.len()
                <= 65535 by {
                assert(before[i] == params[i]);
            }
        }
        edited_params_fit(before, edit);
        let last = params[params.len() - 1];
        assert(last.value.len() <= 65535);
        assert(edit(last) matches Some(Some(v)) ==> v.len() <= last.value.len());
    }
}

/// What an edit leaves can be read again: the priority and target name as they
/// were, and the parameters that the edit left.
pub proof fn edited_rdata_reads_back(rdata: Seq<u8>, edit: spec_fn(SvcParam) -> Edited)
    requires
        shrinks(edit),
        edited_rdata(rdata, edit) is Some,
    ensures
        svc_parts(rdata) matches Some((head, params)) && svc_parts(edited_rdata(rdata, edit)->0)
            == Some((head, edited_params(params, edit))),
{
    let start = target_end(rdata, 2)->0;
    target_end_within(rdata, 2);
    let params = params_at(rdata, start)->0;
    params_at_fit(rdata, start);
    edited_params_fit(params, edit);
    let left = edited_params(params, edit);
    let head = rdata.subrange(0, start);
    let out = head + params_bytes(left);
    assert(out.subrange(0, start) =~= head);
    assert(out.subrange(start, out.len() as int) =~= params_bytes(left));
    target_end_prefix(rdata, out, 2, start);
    params_read_back(out, start, left);
}

proof fn no_ipv6hint_left(params: Seq<SvcParam>)
    ensures
        forall|i: int|
            0 <= i < edited_params(params, without_ipv6hint()).len() ==> (#[trigger] edited_params(
                params,
                without_ipv6hint(),
            )[i]).key != IPV6_HINT_KEY,
    decreases params.len(),
{
    let edit = without_ipv6hint();
    if params.len() > 0 {
        no_ipv6hint_left(params.drop_last());
        let before = edited_params(params.drop_last(), edit);
        let left = edited_params(params, edit);
        assert forall|i: int| 0 <= i < left.len() implies (#[trigger] left[i]).key
            != IPV6_HINT_KEY by {
            if i < before.len() {
                assert(left[i] == before[i]);
            }
        }
    }
}

/// Dropping `ipv6hint` leaves no such parameter: there is nothing to drop a
/// second time.
pub proof fn strip_ipv6hint_once(rdata: Seq<u8>)
    requires
        edited_rdata(rdata, without_ipv6hint()) is Some,
    ensures
        edited_rdata(edited_rdata(rdata, without_ipv6hint())->0, without_ipv6hint()) is None,
{
    edited_rdata_reads_back(rdata, without_ipv6hint());
    let (head, params) = svc_parts(rdata)->0;
    no_ipv6hint_left(params);
    let left = edited_params(params, without_ipv6hint());
    assert(!some_changed(left, without_ipv6hint()));
}

/// Whether the first `n` addresses of a hint are public.
spec fn public_chunks(
    value: Seq<u8>,
    stride: int,
    n: int,
    private: spec_fn(IpAddr) -> bool,
) -> bool {
    forall|j: int|
        0 <= j < n ==> !private(addr_at(value, #[trigger] (j * stride), stride))
}

proof fn addr_same(a: Seq<u8>, p: int, b: Seq<u8>, q: int, stride: int)
    requires
        stride == 4 || stride == 16,
        0 <= p && p + stride <= a.len(),
        0 <= q && q + stride <= b.len(),
        a.subrange(p, p + stride) == b.subrange(q, q + stride),
    ensures
        addr_at(a, p, stride) == addr_at(b, q, stride),
{
    word_same(a, p, b, q, stride, 0);
    if stride == 16 {
        word_same(a, p, b, q, stride, 4);
        word_same(a, p, b, q, stride, 8);
        word_same(a, p, b, q, stride, 12);
    }
}

proof fn word_same(a: Seq<u8>, p: int, b: Seq<u8>, q: int, n: int, k: int)
    requires
        0 <= p && p + n <= a.len(),
        0 <= q && q + n <= b.len(),
        a.subrange(p, p + n) == b.subrange(q, q + n),
        0 <= k && k + 4 <= n,
    ensures
        at32(a, p + k) == at32(b, q + k),
{
    let c = a.subrange(p, p + n);
    let d = b.subrange(q, q + n);
    assert(c[k] == d[k] && c[k + 1] == d[k + 1] && c[k + 2] == d[k + 2] && c[k + 3] == d[k + 3]);
    assert(a[p + k] == c[k] && b[q + k] == d[k]);
    assert(a[p + k + 1] == c[k + 1] && b[q + k + 1] == d[k + 1]);
    assert(a[p + k + 2] == c[k + 2] && b[q + k + 2] == d[k + 2]);
    assert(a[p + k + 3] == c[k + 3] && b[q + k + 3] == d[k + 3]);
}

/// What is kept of a hint is whole addresses, all of them public.
proof fn public_part_is_public(
    value: Seq<u8>,
    stride: int,
    n: int,
    private: spec_fn(IpAddr) -> bool,
) -> (k: int)
    requires
        stride == 4 || stride == 16,
        0 <= n,
        n * stride <= value.len(),
    ensures
        0 <= k <= n,
        public_part(value, stride, n, private).len() == k * stride,
        public_chunks(public_part(value, stride, n, private), stride, k, private),
    decreases n,
{
    let kept = public_part(value, stride, n, private);
    if n == 0 {
        0
    } else {
        assert((n - 1) * stride + stride == n * stride) by (nonlinear_arith);
        let before = public_part(value, stride, n - 1, private);
        let k = public_part_is_public(value, stride, n - 1, private);
        let at = (n - 1) * stride;
        assert(at >= 0) by (nonlinear_arith)
            requires
                n >= 1,
                stride >= 4,
                at == (n - 1) * stride,
        ;
        if private(addr_at(value, at, stride)) {
            k
        } else {
            let chunk = value.subrange(at, at + stride);
            assert(kept == before + chunk);
            assert(k * stride + stride == (k + 1) * stride) by (nonlinear_arith);
            assert(k * stride >= 0) by (nonlinear_arith)
                requires
                    k >= 0,
                    stride >= 4,
            ;
            assert forall|j: int| 0 <= j < k + 1 implies !private(
                addr_at(kept, #[trigger] (j * stride), stride),
            ) by {
                if j < k {
                    assert(0 <= j * stride && j * stride + stride <= k * stride)
                        by (nonlinear_arith)
                        requires
                            0 <= j < k,
                            stride >= 4,
                    ;
                    assert(kept.subrange(j * stride, j * stride + stride) =~= before.subrange(
                        j * stride,
                        j * stride + stride,
                    ));
                    addr_same(kept, j * stride, before, j * stride, stride);
                } else {
                    assert(kept.subrange(k * stride, k * stride + stride) =~= chunk);
                    addr_same(kept, k * stride, value, at, stride);
                }
            }
            k + 1
        }
    }
}

/// Nothing is dropped of a hint of public addresses.
proof fn public_part_whole(value: Seq<u8>, stride: int, n: int, private: spec_fn(IpAddr) -> bool)
    requires
        stride == 4 || stride == 16,
        0 <= n,
        n * stride <= value.len(),
        public_chunks(value, stride, n, private),
    ensures
        public_part(value, stride, n, private).len() == n * stride,
    decreases n,
{
    if n > 0 {
        assert((n - 1) * stride + stride == n * stride) by (nonlinear_arith);
        assert((n - 1) * stride >= 0) by (nonlinear_arith)
            requires
                n >= 1,
                stride >= 4,
        ;
        public_part_whole(value, stride, n - 1, private);
        assert(!private(addr_at(value, (n - 1) * stride, stride)));
    }
}

proof fn hint_kept_once(p: SvcParam, private: spec_fn(IpAddr) -> bool)
    requires
        without_private(private)(p) is Some,
    ensures
        without_private(private)(p) matches Some(Some(v)) ==> v.len() <= p.value.len()
            && without_private(private)(SvcParam { key: p.key, value: v }) == Some(
            None::<Seq<u8>>,
        ),
{
    if let Some(stride) = stride_of(p.key) {
        let n = p.value.len() as int / stride;
        vstd::arithmetic::div_mod::lemma_fundamental_div_mod(p.value.len() as int, stride);
        assert(n * stride == p.value.len()) by (nonlinear_arith)
            requires
                p.value.len() as int == stride * n,
        ;
        let v = public_part(p.value, stride, n, private);
        let k = public_part_is_public(p.value, stride, n, private);
        public_part_whole(v, stride, k, private);
        assert(v.len() as int / stride == k && v.len() as int % stride == 0) by {
            vstd::arithmetic::div_mod::lemma_fundamental_div_mod_converse(
                v.len() as int,
                stride,
                k,
                0,
            );
        }
        assert(k * stride <= n * stride) by (nonlinear_arith)
            requires
                k <= n,
                stride >= 4,
        ;
    }
}

proof fn no_private_left(params: Seq<SvcParam>, private: spec_fn(IpAddr) -> bool)
    requires
        all_accepted(params, without_private(private)),
    ensures
        forall|i: int|
            0 <= i < edited_params(params, without_private(private)).len() ==> without_private(
                private,
            )(#[trigger] edited_params(params, without_private(private))[i]) == Some(
                None::<Seq<u8>>,
            ),
    decreases params.len(),
{
    let edit = without_private(private);
    if params.len() > 0 {
        let before = params.drop_last();
        assert(all_accepted(before, edit)) by {
            assert forall|i: int| 0 <= i < before.len() implies edit(#[trigger] before[i]) is Some by {
                assert(before[i] == params[i]);
            }
        }
        no_private_left(before, private);
        assert(edit(params[params.len() - 1]) is Some);
        hint_kept_once(params.last(), private);
    }
}

/// Dropping private addresses leaves none: there is nothing to drop a second time.
pub proof fn strip_private_hints_once(rdata: Seq<u8>, private: spec_fn(IpAddr) -> bool)
    requires
        edited_rdata(rdata, without_private(private)) is Some,
    ensures
        edited_rdata(
            edited_rdata(rdata, without_private(private))->0,
            without_private(private),
        ) is None,
{
    let edit = without_private(private);
    assert(shrinks(edit)) by {
        assert forall|p: SvcParam|
            (#[trigger] edit(p)) is Some && edit(p)->0 is Some implies edit(p)->0->0.len()
            <= p.value.len() by {
            hint_kept_once(p, private);
        }
    }
    edited_rdata_reads_back(rdata, edit);
    let (head, params) = svc_parts(rdata)->0;
    no_private_left(params, private);
    assert(!some_changed(edited_params(params, edit), edit));
}

/// A parameter is its key, the length of its value and the value.
pub proof fn bytes_of_a_parameter(p: SvcParam, a: u8, b: u8, c: u8, d: u8)
    requires
        p.key == a * 0x100 + b,
        p.value.len() == c * 0x100 + d,
    ensures
        param_bytes(p) == seq![a, b, c, d] + p.value,
{
    assert(param_bytes(p) =~= seq![a, b, c, d] + p.value);
}

/// The name of a target is its labels, each of at most 63 bytes behind its
/// length, and ends with a length of zero; it leads nowhere else.
pub proof fn target_is_read_by_label(rdata: Seq<u8>, pos: int)
    requires
        0 <= pos < rdata.len(),
    ensures
        rdata[pos] == 0 ==> target_end(rdata, pos) == Some(pos + 1),
        1 <= rdata[pos] <= 63 && pos + 1 + rdata[pos] < rdata.len() ==> target_end(rdata, pos)
            == target_end(rdata, pos + 1 + rdata[pos]),
        rdata[pos] >= 64 ==> target_end(rdata, pos) is None,
{
}

/// Dropping `ipv6hint` leaves the priority, the target and every other parameter
/// as it was, in its order. Where there is none to drop, or the data cannot be
/// made out, nothing is changed.
pub proof fn only_ipv6hint_goes(
    rdata: Seq<u8>,
    head: Seq<u8>,
    params: Seq<SvcParam>,
    keep: spec_fn(SvcParam) -> bool,
)
    requires
        svc_parts(rdata) == Some((head, params)),
        forall|p: SvcParam| #[trigger] keep(p) <==> p.key != 6,
    ensures
        (exists|i: int| 0 <= i < params.len() && (#[trigger] params[i]).key == 6) ==> (edited_rdata(
            rdata,
            without_ipv6hint(),
        ) matches Some(d) && d == head + params_bytes(params.filter(keep)) && svc_parts(d) == Some(
            (head, params.filter(keep)),
        )),
        (forall|i: int| 0 <= i < params.len() ==> (#[trigger] params[i]).key != 6) ==> edited_rdata(
            rdata,
            without_ipv6hint(),
        ) is None,
{
    let edit = without_ipv6hint();
    other_params_stay(params, keep);
    assert(all_accepted(params, edit));
    if exists|i: int| 0 <= i < params.len() && (#[trigger] params[i]).key == 6 {
        let i = choose|i: int| 0 <= i < params.len() && (#[trigger] params[i]).key == 6;
        assert(edit(params[i]) matches Some(Some(_)));
        assert(shrinks(edit));
        edited_rdata_reads_back(rdata, edit);
    }
}

proof fn other_params_stay(params: Seq<SvcParam>, keep: spec_fn(SvcParam) -> bool)
    requires
        forall|p: SvcParam| #[trigger] keep(p) <==> p.key != 6,
    ensures
        edited_params(params, without_ipv6hint()) == params.filter(keep),
    decreases params.len(),
{
    reveal(Seq::filter);
    if params.len() > 0 {
        other_params_stay(params.drop_last(), keep);
        assert(keep(params.last()) == (params.last().key != 6));
    }
}

/// Data that cannot be made out is left as it is by every edit.
pub proof fn unreadable_data_is_left(rdata: Seq<u8>, edit: spec_fn(SvcParam) -> Edited)
    requires
        svc_parts(rdata) is None,
    ensures
        edited_rdata(rdata, edit) is None,
{
}

proof fn front_is_enough(
    front: Seq<u8>,
    more: Seq<u8>,
    stride: int,
    n: int,
    private: spec_fn(IpAddr) -> bool,
)
    requires
        stride == 4 || stride == 16,
        0 <= n,
        n * stride <= front.len(),
    ensures
        public_part(front + more, stride, n, private) == public_part(front, stride, n, private),
    decreases n,
{
    if n > 0 {
        assert((n - 1) * stride + stride == n * stride) by (nonlinear_arith);
        assert((n - 1) * stride >= 0) by (nonlinear_arith)
            requires
                n >= 1,
                stride >= 4,
        ;
        front_is_enough(front, more, stride, n - 1, private);
        let at = (n - 1) * stride;
        assert((front + more).subrange(at, at + stride) =~= front.subrange(at, at + stride));
        addr_same(front + more, at, front, at, stride);
    }
}

/// What is kept of a hint of addresses is each of them that is not private, in
/// their order: four bytes for each in `ipv4hint`, sixteen in `ipv6hint`.
pub proof fn public_addresses_are_kept(
    front: Seq<u8>,
    n: int,
    four: Seq<u8>,
    sixteen: Seq<u8>,
    private: spec_fn(IpAddr) -> bool,
)
    requires
        0 <= n,
        four.len() == 4,
        sixteen.len() == 16,
    ensures
        public_part(front, 4, 0, private).len() == 0,
        public_part(front, 16, 0, private).len() == 0,
        front.len() == 4 * n ==> public_part(front + four, 4, n + 1, private) == (if private(
            IpAddr::V4(Ipv4Addr { bits: at32(four, 0) }),
        ) {
            public_part(front, 4, n, private)
        } else {
            public_part(front, 4, n, private) + four
        }),
        front.len() == 16 * n ==> public_part(front + sixteen, 16, n + 1, private) == (if private(
            IpAddr::V6(Ipv6Addr { bits: at128(sixteen, 0) }),
        ) {
            public_part(front, 16, n, private)
        } else {
            public_part(front, 16, n, private) + sixteen
        }),
{
    if front.len() == 4 * n {
        front_is_enough(front, four, 4, n, private);
        assert((front + four).subrange(4 * n, 4 * n + 4) =~= four);
        assert(four.subrange(0, 4) =~= four);
        addr_same(front + four, 4 * n, four, 0, 4);
    }
    if front.len() == 16 * n {
        front_is_enough(front, sixteen, 16, n, private);
        assert((front + sixteen).subrange(16 * n, 16 * n + 16) =~= sixteen);
        assert(sixteen.subrange(0, 16) =~= sixteen);
        addr_same(front + sixteen, 16 * n, sixteen, 0, 16);
    }
}

/// Only the hints of addresses lose anything to the filter for private ones: a
/// parameter of another key stays, a hint that is not made of whole addresses
/// spoils the whole, and any other keeps its public addresses.
pub proof fn only_hints_are_filtered(key: u16, value: Seq<u8>, private: spec_fn(IpAddr) -> bool)
    ensures
        ({
            let e = without_private(private)(SvcParam { key, value });
            let four = public_part(value, 4, value.len() as int / 4, private);
            let sixteen = public_part(value, 16, value.len() as int / 16, private);
            &&& key != 4 && key != 6 ==> e == Some(None::<Seq<u8>>)
            &&& key == 4 && value.len() as int % 4 != 0 ==> e is None
            &&& key == 6 && value.len() as int % 16 != 0 ==> e is None
            &&& key == 4 && value.len() as int % 4 == 0 ==> e == Some(
                if four.len() == value.len() {
                    None
                } else {
                    Some(four)
                },
            )
            &&& key == 6 && value.len() as int % 16 == 0 ==> e == Some(
                if sixteen.len() == value.len() {
                    None
                } else {
                    Some(sixteen)
                },
            )
        }),
{
}

/// A parameter that an edit leaves empty goes, one that it changes has its new
/// value under its key, and any other stays, each in its place.
pub proof fn params_in_their_place(
    params: Seq<SvcParam>,
    p: SvcParam,
    edit: spec_fn(SvcParam) -> Edited,
)
    requires
        edit(p) is Some,
    ensures
        edit(p)->0 is None ==> edited_params(params.push(p), edit) == edited_params(
            params,
            edit,
        ).push(p),
        edit(p)->0 matches Some(v) ==> (v.len() > 0 ==> edited_params(params.push(p), edit)
            == edited_params(params, edit).push(SvcParam { key: p.key, value: v })) && (v.len() == 0
            ==> edited_params(params.push(p), edit) == edited_params(params, edit)),
        edited_params(Seq::empty(), edit).len() == 0,
{
    assert(params.push(p).drop_last() =~= params);
}

} // verus!
