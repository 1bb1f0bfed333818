//! `/etc/resolv.conf`: what it says, and whether it is worth keeping.
use vstd::prelude::*;

use crate::system_dns::{
    all_trimmed, is_loopback_or_stub, resolvectl_dns_server, resolvectl_upstream, stub_address,
    trimmed_lines, SystemDnsInfo,
};
use crate::service_store::text_in;
use crate::text::{
    contains, has_part, has_prefix, lines, split_whitespace, starts_with, str_eq, text_lines, texts,
    trim_end_char, without_trailing, words,
};

verus! {

/// The address that a line names as a nameserver.
pub open spec fn nameserver_of(line: Seq<char>) -> Option<Seq<char>> {
    let w = words(line);
    if w.len() >= 2 && w[0] == "nameserver"@ {
        Some(w[1])
    } else {
        None
    }
}

/// The nameservers that lines name.
pub open spec fn nameservers(lines: Seq<Seq<char>>) -> Seq<Seq<char>>
    decreases lines.len(),
{
    if lines.len() == 0 {
        Seq::empty()
    } else {
        let before = nameservers(lines.drop_last());
        match nameserver_of(lines.last()) {
            Some(s) => before.push(s),
            None => before,
        }
    }
}

/// The nameservers that a text names, in their order.
pub fn iter_nameservers(content: &str) -> (r: Vec<String>)
    ensures
        texts(r@) == nameservers(text_lines(content@)),
{
    let v = lines(content);
    let ghost all = text_lines(content@);
    let mut r: Vec<String> = Vec::new();
    let mut i: usize = 0;
    assert(all.subrange(0, 0) =~= Seq::<Seq<char>>::empty());
    assert(texts(r@) =~= Seq::<Seq<char>>::empty());
    while i < v.len()
        invariant
            i <= v.len(),
            all == texts(v@),
            texts(r@) == nameservers(all.subrange(0, i as int)),
        decreases v.len() - i,
    {
        proof {
            let more = all.subrange(0, i + 1);
            assert(more.drop_last() =~= all.subrange(0, i as int));
            assert(more.last() == v@[i as int]@);
        }
        let w = split_whitespace(v[i].as_str());
        let ghost before = r@;
        if w.len() >= 2 && str_eq(w[0].as_str(), "nameserver") {
            assert(words(v@[i as int]@)[0] == w@[0]@);
            assert(words(v@[i as int]@)[1] == w@[1]@);
            r.push(w[1].clone());
            assert(texts(r@) =~= texts(before).push(w@[1]@));
        } else if w.len() >= 2 {
            assert(words(v@[i as int]@)[0] == w@[0]@);
        }
        i += 1;
    }
    assert(all.subrange(0, all.len() as int) =~= all);
    r
}

/// The first of some addresses that is a real upstream.
pub open spec fn first_real(servers: Seq<Seq<char>>) -> Option<Seq<char>>
    decreases servers.len(),
{
    if servers.len() == 0 {
        None
    } else if !stub_address(servers[0]) {
        Some(servers[0])
    } else {
        first_real(servers.drop_first())
    }
}

/// The first of some addresses that is a real upstream.
fn find_real(servers: &Vec<String>) -> (r: Option<String>)
    ensures
        text_in(r) == first_real(texts(servers@)),
{
    let ghost all = texts(servers@);
    let mut i: usize = 0;
    assert(all.subrange(0, all.len() as int) =~= all);
    while i < servers.len()
        invariant
            i <= servers.len(),
            all == texts(servers@),
            first_real(all) == first_real(all.subrange(i as int, all.len() as int)),
        decreases servers.len() - i,
    {
        let ghost rest = all.subrange(i as int, all.len() as int);
        assert(rest.len() > 0 && rest[0] == servers@[i as int]@);
        assert(rest.drop_first() =~= all.subrange(i + 1, all.len() as int));
        if !is_loopback_or_stub(servers[i].as_str()) {
            return Some(servers[i].clone());
        }
        i += 1;
    }
    assert(all.subrange(all.len() as int, all.len() as int).len() == 0);
    None
}

/// Whether some of these addresses is a real upstream.
pub open spec fn any_real(servers: Seq<Seq<char>>) -> bool {
    exists|i: int| 0 <= i < servers.len() && !stub_address(#[trigger] servers[i])
}

proof fn first_real_any(servers: Seq<Seq<char>>)
    ensures
        first_real(servers) is Some <==> any_real(servers),
    decreases servers.len(),
{
    if servers.len() > 0 {
        let rest = servers.drop_first();
        first_real_any(rest);
        if stub_address(servers[0]) {
            if any_real(servers) {
                let i = choose|i: int| 0 <= i < servers.len() && !stub_address(#[trigger] servers[i]);
                assert(rest[i - 1] == servers[i]);
            }
            if any_real(rest) {
                let i = choose|i: int| 0 <= i < rest.len() && !stub_address(#[trigger] rest[i]);
                assert(servers[i + 1] == rest[i]);
            }
        }
    }
}

/// Whether the nameservers of a text are worth restoring: one is a real upstream.
pub open spec fn has_real(content: Seq<char>) -> bool {
    any_real(nameservers(text_lines(content)))
}

/// Whether one of the nameservers of a text is a real upstream.
pub fn resolv_conf_has_real_upstream(content: &str) -> (b: bool)
    ensures
        b == has_real(content@),
{
    let v = iter_nameservers(content);
    proof {
        first_real_any(texts(v@));
    }
    find_real(&v).is_some()
}

/// Whether a `resolv.conf` is the server's own: it says so, or names no real
/// upstream.
pub open spec fn managed(content: Seq<char>) -> bool {
    has_part(content, "Generated by Numa"@) || !has_real(content)
}

/// Whether a text was written by the server itself, or has no real upstream:
/// either way it is nothing to go back to.
pub fn resolv_conf_is_numa_managed(content: &str) -> (b: bool)
    ensures
        b == managed(content@),
{
    contains(content, "Generated by Numa") || !resolv_conf_has_real_upstream(content)
}

/// Domains without dots at their ends, those left out of which nothing remains.
pub open spec fn kept_domains(v: Seq<Seq<char>>) -> Seq<Seq<char>>
    decreases v.len(),
{
    if v.len() == 0 {
        Seq::empty()
    } else {
        let before = kept_domains(v.drop_last());
        let d = without_trailing(v.last(), '.');
        if d.len() == 0 {
            before
        } else {
            before.push(d)
        }
    }
}

/// The domains that a line says to search.
pub open spec fn searched(line: Seq<char>) -> Seq<Seq<char>> {
    if has_prefix(line, "search"@) || has_prefix(line, "domain"@) {
        let w = words(line);
        if w.len() == 0 {
            Seq::empty()
        } else {
            kept_domains(w.drop_first())
        }
    } else {
        Seq::empty()
    }
}

/// The domains that lines say to search.
pub open spec fn search_list(lines: Seq<Seq<char>>) -> Seq<Seq<char>>
    decreases lines.len(),
{
    if lines.len() == 0 {
        Seq::empty()
    } else {
        search_list(lines.drop_last()) + searched(lines.last())
    }
}

/// Appends the domains that a line says to search.
fn add_searched(line: &str, out: &mut Vec<String>)
    ensures
        texts(final(out)@) == texts(old(out)@) + searched(line@),
{
    if !starts_with(line, "search") && !starts_with(line, "domain") {
        assert(texts(out@) =~= texts(old(out)@) + searched(line@));
        return;
    }
    let w = split_whitespace(line);
    let ghost all = words(line@);
    if w.len() == 0 {
        assert(texts(out@) =~= texts(old(out)@) + searched(line@));
        return;
    }
    let ghost tail = all.drop_first();
    let ghost start = texts(out@);
    let mut i: usize = 1;
    assert(tail.subrange(0, 0) =~= Seq::<Seq<char>>::empty());
    assert(start =~= start + kept_domains(tail.subrange(0, 0)));
    while i < w.len()
        invariant
            1 <= i <= w.len(),
            all == texts(w@),
            tail == all.drop_first(),
            texts(out@) == start + kept_domains(tail.subrange(0, i - 1)),
        decreases w.len() - i,
    {
        proof {
            let more = tail.subrange(0, i as int);
            assert(more.drop_last() =~= tail.subrange(0, i - 1));
            assert(more.last() == w@[i as int]@);
        }
        let d = trim_end_char(w[i].as_str(), '.');
        let ghost before = out@;
        let ghost text = d@;
        if !d.as_str().is_empty() {
            out.push(d);
            assert(texts(out@) =~= texts(before).push(text));
            assert(start + kept_domains(tail.subrange(0, i - 1)).push(text) =~= (start
                + kept_domains(tail.subrange(0, i - 1))).push(text));
        }
        i += 1;
    }
    assert(tail.subrange(0, tail.len() as int) =~= tail);
}

/// The first real nameserver of a text and the domains that it says to search.
/// A text that could not be read says nothing.
pub fn parse_resolv_conf(content: Option<&str>) -> (r: (Option<String>, Vec<String>))
    ensures
        match content {
            None => r.0 is None && r.1@.len() == 0,
            Some(t) => {
                &&& text_in(r.0) == first_real(nameservers(text_lines(t@)))
                &&& texts(r.1@) == search_list(all_trimmed(text_lines(t@)))
            },
        },
{
    let text = match content {
        None => {
            return (None, Vec::new());
        },
        Some(t) => t,
    };
    let servers = iter_nameservers(text);
    let upstream = find_real(&servers);
    let v = trimmed_lines(text);
    let ghost all = texts(v@);
    let mut domains: Vec<String> = Vec::new();
    let mut i: usize = 0;
    assert(all.subrange(0, 0) =~= Seq::<Seq<char>>::empty());
    assert(texts(domains@) =~= Seq::<Seq<char>>::empty());
    while i < v.len()
        invariant
            i <= v.len(),
            all == texts(v@),
            texts(domains@) == search_list(all.subrange(0, i as int)),
        decreases v.len() - i,
    {
        proof {
            let more = all.subrange(0, i + 1);
            assert(more.drop_last() =~= all.subrange(0, i as int));
            assert(more.last() == v@[i as int]@);
        }
        add_searched(v[i].as_str(), &mut domains);
        i += 1;
    }
    assert(all.subrange(0, all.len() as int) =~= all);
    (upstream, domains)
}

/// The upstream that the output of `resolvectl` names, if there is any output.
pub open spec fn resolvectl_says(output: Option<&str>) -> Option<Seq<char>> {
    match output {
        Some(t) => resolvectl_upstream(t@),
        None => None,
    }
}

/// The upstream that a text of `resolv.conf` names, if there is one.
pub open spec fn resolv_says(content: Option<&str>) -> Option<Seq<char>> {
    match content {
        Some(t) => first_real(nameservers(text_lines(t@))),
        None => None,
    }
}

/// What is known of DNS from `resolv.conf`, the output of `resolvectl`, and the
/// `resolv.conf` that was kept when the server was installed. The upstream is
/// the first that one of them names, in this order. No rules follow from them.
pub fn discover_linux(
    resolv: Option<&str>,
    resolvectl: Option<&str>,
    backup: Option<&str>,
) -> (r: SystemDnsInfo)
    ensures
        text_in(r.default_upstream) == (if resolv_says(resolv) is Some {
            resolv_says(resolv)
        } else if resolvectl_says(resolvectl) is Some {
            resolvectl_says(resolvectl)
        } else {
            resolv_says(backup)
        }),
        r.forwarding_rules@.len() == 0,
{
    let named: Option<String> = match resolvectl {
        Some(t) => resolvectl_dns_server(t),
        None => None,
    };
    let default_upstream: Option<String> = match parse_resolv_conf(resolv).0 {
        Some(s) => Some(s),
        None => match named {
            Some(s) => Some(s),
            None => parse_resolv_conf(backup).0,
        },
    };
    SystemDnsInfo { default_upstream, forwarding_rules: Vec::new() }
}

/// What to do about the backup of `resolv.conf` before it is overwritten.
#[derive(Debug, Clone, Copy, PartialEq, Eq, Structural)]
pub enum BackupAction {
    /// Keep the backup that is there.
    Preserve,
    /// Write none: what is there is the server's own.
    Skip,
    /// Write what is there.
    Save,
    /// There is nothing to write.
    Nothing,
}

/// What to do about the backup, given the `resolv.conf` that is there and the
/// backup that is there. A useful backup is never overwritten, and the server's
/// own file is never taken for one.
pub fn backup_action(current: Option<&str>, existing: Option<&str>) -> (a: BackupAction)
    ensures
        a == if existing matches Some(b) && has_real(b@) {
            BackupAction::Preserve
        } else {
            match current {
                None => BackupAction::Nothing,
                Some(c) => if managed(c@) {
                    BackupAction::Skip
                } else {
                    BackupAction::Save
                },
            }
        },
{
    let useful = match existing {
        Some(b) => resolv_conf_has_real_upstream(b),
        None => false,
    };
    if useful {
        return BackupAction::Preserve;
    }
    match current {
        None => BackupAction::Nothing,
        Some(c) => if resolv_conf_is_numa_managed(c) {
            BackupAction::Skip
        } else {
            BackupAction::Save
        },
    }
}

} // verus!
