//! The output of `scutil --dns`: the default upstream and the domains that
//! other resolvers are for.
use vstd::prelude::*;
use vstd::utf8::encode_utf8;

use crate::net::parse_ipv4;
use crate::net::{ip_text, IpAddr};
use crate::service_store::text_in;
use crate::system_dns::{
    all_trimmed, is_loopback_or_stub, make_rule, rule_for, rules, stub_address, trimmed_lines,
    ForwardingRule, RuleView, SystemDnsInfo,
};
use crate::text::{
    contains, contains_char, ends_with, has_part, has_prefix, has_suffix, lowercase, split,
    split_parts, starts_with, str_eq, text_lines, texts, to_lowercase, trim, trim_end_char, trimmed,
    without_trailing,
};

verus! {

/// What has been read so far: the rules and the default upstream that were
/// found, and what is known of the resolver that is being described.
pub struct ScutilView {
    pub rules: Seq<RuleView>,
    pub default_upstream: Option<Seq<char>>,
    pub current_domain: Option<Seq<char>>,
    pub current_nameserver: Option<Seq<char>>,
    pub is_supplemental: bool,
}

/// What follows the first colon of a line, up to the next.
pub open spec fn field_of(line: Seq<char>) -> Option<Seq<char>> {
    let parts = split_parts(line, ':');
    if parts.len() >= 2 {
        Some(parts[1])
    } else {
        None
    }
}

impl ScutilView {
    /// Nothing has been read.
    pub open spec fn start() -> ScutilView {
        ScutilView {
            rules: Seq::empty(),
            default_upstream: None,
            current_domain: None,
            current_nameserver: None,
            is_supplemental: false,
        }
    }

    /// The resolver that was described is done with: it makes a rule where it
    /// is supplemental and has a domain and a nameserver.
    pub open spec fn flushed(self) -> ScutilView {
        let found = match (self.current_domain, self.current_nameserver) {
            (Some(d), Some(n)) => if self.is_supplemental {
                rule_for(d, n)
            } else {
                None
            },
            _ => None,
        };
        ScutilView {
            rules: match found {
                Some(r) => self.rules.push(r),
                None => self.rules,
            },
            default_upstream: self.default_upstream,
            current_domain: None,
            current_nameserver: None,
            is_supplemental: false,
        }
    }

    /// A line names the domain of the resolver. Local names and reverse zones
    /// do not count.
    pub open spec fn with_domain(self, line: Seq<char>) -> ScutilView {
        match field_of(line) {
            None => self,
            Some(v) => {
                let d = lowercase(without_trailing(trimmed(v), '.'));
                if d.len() > 0 && d != "local"@ && !has_suffix(d, "in-addr.arpa"@) && !has_suffix(
                    d,
                    "ip6.arpa"@,
                ) {
                    ScutilView { current_domain: Some(d), ..self }
                } else {
                    self
                }
            },
        }
    }

    /// A line names the nameserver of the resolver, an IPv4 address. The first
    /// real one of a resolver that is not supplemental is the default upstream.
    pub open spec fn with_nameserver(self, line: Seq<char>) -> ScutilView {
        match field_of(line) {
            None => self,
            Some(v) => {
                let ns = trimmed(v);
                if !(ip_text(ns) matches Some(IpAddr::V4(_))) {
                    self
                } else {
                    ScutilView {
                        default_upstream: if !self.is_supplemental && self.default_upstream is None
                            && !stub_address(ns) {
                            Some(ns)
                        } else {
                            self.default_upstream
                        },
                        current_nameserver: Some(ns),
                        ..self
                    }
                }
            },
        }
    }

    /// What a line adds, and whether it ends the reading.
    pub open spec fn handled(self, line: Seq<char>) -> (ScutilView, bool) {
        if has_prefix(line, "resolver #"@) {
            (self.flushed(), false)
        } else if has_prefix(line, "domain"@) && line.contains(':') {
            (self.with_domain(line), false)
        } else if has_prefix(line, "nameserver[0]"@) && line.contains(':') {
            (self.with_nameserver(line), false)
        } else if has_prefix(line, "flags"@) && has_part(line, "Supplemental"@) {
            (ScutilView { is_supplemental: true, ..self }, false)
        } else if has_prefix(line, "DNS configuration (for scoped"@) {
            (self.flushed(), true)
        } else {
            (self, false)
        }
    }

    /// What lines add, up to the one that ends the reading.
    pub open spec fn read(self, lines: Seq<Seq<char>>) -> ScutilView
        decreases lines.len(),
    {
        if lines.len() == 0 {
            self
        } else {
            let (next, done) = self.handled(lines[0]);
            if done {
                next
            } else {
                next.read(lines.drop_first())
            }
        }
    }
}

/// What has been read so far.
pub struct ScutilState {
    pub rules: Vec<ForwardingRule>,
    pub default_upstream: Option<String>,
    pub current_domain: Option<String>,
    pub current_nameserver: Option<String>,
    pub is_supplemental: bool,
}

impl View for ScutilState {
    type V = ScutilView;

    open spec fn view(&self) -> ScutilView {
        ScutilView {
            rules: rules(self.rules@),
            default_upstream: text_in(self.default_upstream),
            current_domain: text_in(self.current_domain),
            current_nameserver: text_in(self.current_nameserver),
            is_supplemental: self.is_supplemental,
        }
    }
}

/// What follows the first colon of a line, up to the next.
fn second_field(line: &str) -> (r: Option<String>)
    ensures
        text_in(r) == field_of(line@),
{
    let parts = split(line, ':');
    if parts.len() >= 2 {
        assert(split_parts(line@, ':')[1] == parts@[1]@);
        Some(parts[1].clone())
    } else {
        None
    }
}

impl ScutilState {
    /// Nothing has been read.
    pub fn new() -> (r: Self)
        ensures
            r@ == ScutilView::start(),
    {
        let r = ScutilState {
            rules: Vec::new(),
            default_upstream: None,
            current_domain: None,
            current_nameserver: None,
            is_supplemental: false,
        };
        assert(rules(r.rules@) =~= Seq::<RuleView>::empty());
        r
    }

    /// The resolver that was described is done with.
    pub fn flush(&mut self)
        ensures
            final(self)@ == old(self)@.flushed(),
    {
        let domain = self.current_domain.take();
        let nameserver = self.current_nameserver.take();
        if self.is_supplemental {
            match (domain, nameserver) {
                (Some(d), Some(n)) => {
                    match make_rule(d.as_str(), n.as_str()) {
                        Some(r) => {
                            let ghost before = self.rules@;
                            let ghost view = r@;
                            self.rules.push(r);
                            assert(rules(self.rules@) =~= rules(before).push(view));
                        },
                        None => {},
                    }
                },
                _ => {},
            }
        }
        self.is_supplemental = false;
    }

    /// A line names the domain of the resolver.
    pub fn set_domain(&mut self, line: &str)
        ensures
            final(self)@ == old(self)@.with_domain(line@),
    {
        let v = match second_field(line) {
            Some(v) => v,
            None => {
                return;
            },
        };
        let t = trim(v.as_str());
        let cut = trim_end_char(t.as_str(), '.');
        let d = to_lowercase(cut.as_str());
        if !d.as_str().is_empty() && !str_eq(d.as_str(), "local") && !ends_with(
            d.as_str(),
            "in-addr.arpa",
        ) && !ends_with(d.as_str(), "ip6.arpa") {
            self.current_domain = Some(d);
        }
    }

    /// A line names the nameserver of the resolver.
    pub fn set_nameserver(&mut self, line: &str)
        ensures
            final(self)@ == old(self)@.with_nameserver(line@),
    {
        let v = match second_field(line) {
            Some(v) => v,
            None => {
                return;
            },
        };
        let ns = trim(v.as_str());
        if parse_ipv4(ns.as_str()).is_none() {
            return;
        }
        if !self.is_supplemental && self.default_upstream.is_none() && !is_loopback_or_stub(
            ns.as_str(),
        ) {
            self.default_upstream = Some(ns.clone());
        }
        self.current_nameserver = Some(ns);
    }

    /// Takes a line, and says whether it ends the reading.
    pub fn handle_line(&mut self, line: &str) -> (done: bool)
        ensures
            (final(self)@, done) == old(self)@.handled(line@),
    {
        if starts_with(line, "resolver #") {
            self.flush();
        } else if starts_with(line, "domain") && contains_char(line, ':') {
            self.set_domain(line);
        } else if starts_with(line, "nameserver[0]") && contains_char(line, ':') {
            self.set_nameserver(line);
        } else if starts_with(line, "flags") && contains(line, "Supplemental") {
            self.is_supplemental = true;
        } else if starts_with(line, "DNS configuration (for scoped") {
            self.flush();
            return true;
        }
        false
    }
}

/// The length of a text in bytes.
pub open spec fn byte_len(s: Seq<char>) -> nat {
    encode_utf8(s).len()
}

/// A rule put into a row of rules: before the first with a shorter domain.
pub open spec fn placed(sorted: Seq<RuleView>, r: RuleView) -> Seq<RuleView>
    decreases sorted.len(),
{
    if sorted.len() > 0 && byte_len(sorted.last().suffix) < byte_len(r.suffix) {
        placed(sorted.drop_last(), r).push(sorted.last())
    } else {
        sorted.push(r)
    }
}

/// Rules with the longest domains first, and otherwise in their order.
pub open spec fn longest_first(rs: Seq<RuleView>) -> Seq<RuleView>
    decreases rs.len(),
{
    if rs.len() == 0 {
        Seq::empty()
    } else {
        placed(longest_first(rs.drop_last()), rs.last())
    }
}

/// Whether no rule comes after one with a shorter domain.
pub open spec fn descending(rs: Seq<RuleView>) -> bool {
    forall|i: int, j: int|
        0 <= i < j < rs.len() ==> byte_len((#[trigger] rs[i]).suffix) >= byte_len(
            (#[trigger] rs[j]).suffix,
        )
}

/// Putting a rule into a row keeps the row descending.
proof fn placed_descends(sorted: Seq<RuleView>, r: RuleView)
    requires
        descending(sorted),
    ensures
        descending(placed(sorted, r)),
        placed(sorted, r).len() == sorted.len() + 1,
        forall|i: int|
            0 <= i < placed(sorted, r).len() ==> (#[trigger] placed(sorted, r)[i]) == r
                || sorted.contains(placed(sorted, r)[i]),
    decreases sorted.len(),
{
    let out = placed(sorted, r);
    if sorted.len() > 0 && byte_len(sorted.last().suffix) < byte_len(r.suffix) {
        let before = sorted.drop_last();
        assert(descending(before)) by {
            assert forall|i: int, j: int| 0 <= i < j < before.len() implies byte_len(
                (#[trigger] before[i]).suffix,
            ) >= byte_len((#[trigger] before[j]).suffix) by {
                assert(before[i] == sorted[i] && before[j] == sorted[j]);
            }
        }
        placed_descends(before, r);
        let inner = placed(before, r);
        assert forall|i: int| 0 <= i < out.len() implies (#[trigger] out[i]) == r || sorted.contains(
            out[i],
        ) by {
            if i < inner.len() {
                assert(out[i] == inner[i]);
                if inner[i] != r {
                    let k = choose|k: int| 0 <= k < before.len() && before[k] == inner[i];
                    assert(sorted[k] == out[i]);
                }
            } else {
                assert(out[i] == sorted[sorted.len() - 1]);
            }
        }
        assert forall|i: int, j: int| 0 <= i < j < out.len() implies byte_len(
            (#[trigger] out[i]).suffix,
        ) >= byte_len((#[trigger] out[j]).suffix) by {
            assert(out[i] == inner[i]);
            if j < inner.len() {
                assert(out[j] == inner[j]);
            } else if inner[i] != r {
                let k = choose|k: int| 0 <= k < before.len() && before[k] == inner[i];
                assert(sorted[k] == inner[i]);
                assert(byte_len(sorted[k].suffix) >= byte_len(sorted[sorted.len() - 1].suffix));
            }
        }
    } else {
        assert forall|i: int| 0 <= i < out.len() implies (#[trigger] out[i]) == r || sorted.contains(
            out[i],
        ) by {
            if i < sorted.len() {
                assert(out[i] == sorted[i]);
            }
        }
        assert forall|i: int, j: int| 0 <= i < j < out.len() implies byte_len(
            (#[trigger] out[i]).suffix,
        ) >= byte_len((#[trigger] out[j]).suffix) by {
            assert(out[i] == sorted[i]);
            if j < sorted.len() {
                assert(out[j] == sorted[j]);
            } else {
                assert(byte_len(sorted[i].suffix) >= byte_len(sorted[sorted.len() - 1].suffix)) by {
                    if i < sorted.len() - 1 {
                        assert(sorted[i] == sorted[i] && sorted[sorted.len() - 1]
                            == sorted[sorted.len() - 1]);
                    }
                }
            }
        }
    }
}

/// Of two rules that are for a domain, the one with the longer domain comes
/// first: no rule comes after one with a shorter domain.
pub proof fn longest_first_descends(rs: Seq<RuleView>)
    ensures
        descending(longest_first(rs)),
        longest_first(rs).len() == rs.len(),
    decreases rs.len(),
{
    if rs.len() > 0 {
        longest_first_descends(rs.drop_last());
        placed_descends(longest_first(rs.drop_last()), rs.last());
    }
}

/// Puts a rule into a row of rules, before the first with a shorter domain
/// among those at the end.
fn place(v: &mut Vec<ForwardingRule>, r: ForwardingRule)
    ensures
        rules(final(v)@) == placed(rules(old(v)@), r@),
{
    let ghost all = rules(v@);
    let ghost view = r@;
    let len: usize = r.suffix.as_str().as_bytes().len();
    let mut i: usize = v.len();
    assert(all.subrange(0, all.len() as int) =~= all);
    assert(all.subrange(all.len() as int, all.len() as int) =~= Seq::<RuleView>::empty());
    assert(placed(all, view) =~= placed(all.subrange(0, all.len() as int), view) + all.subrange(
        all.len() as int,
        all.len() as int,
    ));
    while i > 0 && v[i - 1].suffix.as_str().as_bytes().len() < len
        invariant
            i <= v.len(),
            v@ == old(v)@,
            all == rules(v@),
            len == byte_len(view.suffix),
            placed(all, view) == placed(all.subrange(0, i as int), view) + all.subrange(
                i as int,
                all.len() as int,
            ),
        decreases i,
    {
        proof {
            let part = all.subrange(0, i as int);
            assert(part.len() > 0);
            assert(part.last() == all[i - 1]);
            assert(all[i - 1] == v@[i - 1]@);
            assert(part.drop_last() =~= all.subrange(0, i - 1));
            assert(placed(part.drop_last(), view).push(part.last()) + all.subrange(
                i as int,
                all.len() as int,
            ) =~= placed(part.drop_last(), view) + all.subrange(i - 1, all.len() as int));
        }
        i -= 1;
    }
    proof {
        let part = all.subrange(0, i as int);
        if i > 0 {
            assert(part.last() == all[i - 1]);
            assert(all[i - 1] == v@[i - 1]@);
        }
        assert(part.len() == i);
        assert(placed(part, view) == part.push(view));
    }
    v.insert(i, r);
    assert(rules(v@) =~= all.insert(i as int, view));
    assert(all.insert(i as int, view) =~= all.subrange(0, i as int).push(view) + all.subrange(
        i as int,
        all.len() as int,
    ));
}

/// What the output of `scutil --dns` says: the default upstream, and the rules
/// with the longest domains first.
pub fn discover_macos(text: &str) -> (r: SystemDnsInfo)
    ensures
        ({
            let s = ScutilView::start().read(all_trimmed(text_lines(text@))).flushed();
            &&& text_in(r.default_upstream) == s.default_upstream
            &&& rules(r.forwarding_rules@) == longest_first(s.rules)
        }),
{
    let v = trimmed_lines(text);
    let ghost all = texts(v@);
    let mut state = ScutilState::new();
    let ghost whole = ScutilView::start().read(all);
    let mut i: usize = 0;
    let mut done = false;
    assert(all.subrange(0, all.len() as int) =~= all);
    while i < v.len() && !done
        invariant
            i <= v.len(),
            all == texts(v@),
            done ==> state@ == whole,
            !done ==> state@.read(all.subrange(i as int, all.len() as int)) == whole,
        decreases v.len() - i,
    {
        let ghost rest = all.subrange(i as int, all.len() as int);
        assert(rest.len() > 0 && rest[0] == v@[i as int]@);
        assert(rest.drop_first() =~= all.subrange(i + 1, all.len() as int));
        done = state.handle_line(v[i].as_str());
        i += 1;
    }
    assert(all.subrange(all.len() as int, all.len() as int).len() == 0);
    state.flush();
    let found = state.rules;
    let ghost views = rules(found@);
    let mut sorted: Vec<ForwardingRule> = Vec::new();
    let mut rest = found;
    let n: usize = rest.len();
    let mut k: usize = 0;
    assert(views.subrange(0, 0) =~= Seq::<RuleView>::empty());
    assert(rules(sorted@) =~= Seq::<RuleView>::empty());
    while k < n
        invariant
            k <= n,
            n == views.len(),
            views == rules(found@),
            rest@ == found@.subrange(k as int, n as int),
            rules(sorted@) == longest_first(views.subrange(0, k as int)),
        decreases n - k,
    {
        let one = rest.remove(0);
        proof {
            assert(rest@ =~= found@.subrange(k + 1, n as int));
            let more = views.subrange(0, k + 1);
            assert(more.drop_last() =~= views.subrange(0, k as int));
            assert(more.last() == one@);
        }
        place(&mut sorted, one);
        k += 1;
    }
    assert(views.subrange(0, n as int) =~= views);
    SystemDnsInfo { default_upstream: state.default_upstream, forwarding_rules: sorted }
}

} // verus!
