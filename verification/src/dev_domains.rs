//! The file of domains of the server for developers: lines of an address and the
//! domains that have it.
use vstd::prelude::*;

use crate::net::{ip_text, parse_ipv4, IpAddr, Ipv4Addr};
use crate::service_store::text_in;
use crate::text::{
    ascii_lowercase, concat, concat3, contains_char, decimal, lines, split, split_parts,
    split_whitespace, str_eq, text_lines, texts, to_ascii_lowercase, trim,
    trim_end_char, trimmed, wide_decimal_string, without_trailing, words,
};

verus! {

/// A domain and its address.
#[derive(Debug)]
pub struct DomainEntry {
    pub domain: String,
    pub ip: Ipv4Addr,
}

/// The addresses of domains.
#[derive(Debug)]
pub struct DomainMap {
    pub items: Vec<DomainEntry>,
}

/// The addresses of domains, by entries of which the last for a domain counts.
pub open spec fn map_of(items: Seq<DomainEntry>) -> Map<Seq<char>, Ipv4Addr>
    decreases items.len(),
{
    if items.len() == 0 {
        Map::empty()
    } else {
        map_of(items.drop_last()).insert(items.last().domain@, items.last().ip)
    }
}

/// Whether no domain stands twice.
pub open spec fn domains_differ(items: Seq<DomainEntry>) -> bool {
    forall|i: int, j: int|
        0 <= i < j < items.len() ==> (#[trigger] items[i]).domain@ != (
        #[trigger] items[j]).domain@
}

impl View for DomainMap {
    type V = Map<Seq<char>, Ipv4Addr>;

    open spec fn view(&self) -> Map<Seq<char>, Ipv4Addr> {
        map_of(self.items@)
    }
}

proof fn map_has(items: Seq<DomainEntry>, i: int)
    requires
        domains_differ(items),
        0 <= i < items.len(),
    ensures
        map_of(items).contains_key(items[i].domain@),
        map_of(items)[items[i].domain@] == items[i].ip,
    decreases items.len(),
{
    if i < items.len() - 1 {
        map_has(items.drop_last(), i);
        assert(items.drop_last()[i] == items[i]);
        assert(items[i].domain@ != items[items.len() - 1].domain@);
    }
}

proof fn map_lacks(items: Seq<DomainEntry>, k: Seq<char>)
    requires
        forall|i: int| 0 <= i < items.len() ==> (#[trigger] items[i]).domain@ != k,
    ensures
        !map_of(items).contains_key(k),
    decreases items.len(),
{
    if items.len() > 0 {
        assert forall|i: int| 0 <= i < items.drop_last().len() implies (
        #[trigger] items.drop_last()[i]).domain@ != k by {
            assert(items.drop_last()[i] == items[i]);
        }
        map_lacks(items.drop_last(), k);
        assert(items[items.len() - 1].domain@ != k);
    }
}

proof fn map_without(items: Seq<DomainEntry>, i: int)
    requires
        domains_differ(items),
        0 <= i < items.len(),
    ensures
        map_of(items.remove(i)) == map_of(items).remove(items[i].domain@),
        domains_differ(items.remove(i)),
    decreases items.len(),
{
    let k = items[i].domain@;
    let left = items.remove(i);
    assert forall|a: int, b: int| 0 <= a < b < left.len() implies (#[trigger] left[a]).domain@ != (
    #[trigger] left[b]).domain@ by {
        let x = if a < i {
            a
        } else {
            a + 1
        };
        let y = if b < i {
            b
        } else {
            b + 1
        };
        assert(left[a] == items[x] && left[b] == items[y]);
    }
    let before = items.drop_last();
    let last = items.last();
    if i == items.len() - 1 {
        assert(left =~= before);
        assert forall|j: int| 0 <= j < before.len() implies (#[trigger] before[j]).domain@ != k by {
            assert(before[j] == items[j]);
        }
        map_lacks(before, k);
        assert(map_of(items).remove(k) =~= map_of(before));
    } else {
        assert(before[i] == items[i]);
        map_without(before, i);
        assert(left.drop_last() =~= before.remove(i));
        assert(left.last() == last);
        assert(items[items.len() - 1] == last);
        assert(last.domain@ != k);
        assert(map_of(left) =~= map_of(items).remove(k));
    }
}

proof fn map_size(items: Seq<DomainEntry>)
    requires
        domains_differ(items),
    ensures
        map_of(items).dom().finite(),
        map_of(items).len() == items.len(),
    decreases items.len(),
{
    if items.len() > 0 {
        let before = items.drop_last();
        map_size(before);
        assert forall|j: int| 0 <= j < before.len() implies (#[trigger] before[j]).domain@
            != items.last().domain@ by {
            assert(before[j] == items[j]);
            assert(items[j].domain@ != items[items.len() - 1].domain@);
        }
        map_lacks(before, items.last().domain@);
    }
}

impl DomainMap {
    /// Whether no domain stands twice.
    pub open spec fn wf(&self) -> bool {
        domains_differ(self.items@)
    }

    /// No domains.
    pub fn new() -> (r: Self)
        ensures
            r.wf(),
            r@ == Map::<Seq<char>, Ipv4Addr>::empty(),
    {
        DomainMap { items: Vec::new() }
    }

    fn find(&self, domain: &str) -> (r: Option<usize>)
        ensures
            match r {
                Some(i) => i < self.items@.len() && self.items@[i as int].domain@ == domain@,
                None => forall|i: int|
                    0 <= i < self.items@.len() ==> (#[trigger] self.items@[i]).domain@ != domain@,
            },
    {
        let mut i: usize = 0;
        while i < self.items.len()
            invariant
                i <= self.items.len(),
                forall|j: int| 0 <= j < i ==> (#[trigger] self.items@[j]).domain@ != domain@,
            decreases self.items.len() - i,
        {
            if str_eq(self.items[i].domain.as_str(), domain) {
                return Some(i);
            }
            i += 1;
        }
        None
    }

    /// The address of a domain.
    pub fn get(&self, domain: &str) -> (r: Option<Ipv4Addr>)
        requires
            self.wf(),
        ensures
            r == (if self@.contains_key(domain@) {
                Some(self@[domain@])
            } else {
                None
            }),
    {
        match self.find(domain) {
            Some(i) => {
                proof {
                    map_has(self.items@, i as int);
                }
                Some(self.items[i].ip)
            },
            None => {
                proof {
                    map_lacks(self.items@, domain@);
                }
                None
            },
        }
    }

    /// Gives a domain an address, in place of one it has.
    pub fn insert(&mut self, domain: String, ip: Ipv4Addr)
        requires
            old(self).wf(),
        ensures
            final(self).wf(),
            final(self)@ == old(self)@.insert(domain@, ip),
    {
        let ghost before = self.items@;
        if let Some(i) = self.find(domain.as_str()) {
            proof {
                map_without(self.items@, i as int);
            }
            let _gone = self.items.remove(i);
            assert forall|j: int| 0 <= j < self.items@.len() implies (
            #[trigger] self.items@[j]).domain@ != domain@ by {
                let x = if j < i {
                    j
                } else {
                    j + 1
                };
                assert(self.items@[j] == before[x]);
                assert(before[i as int].domain@ == domain@);
            }
        }
        let ghost rest = self.items@;
        let ghost entry = DomainEntry { domain, ip };
        self.items.push(DomainEntry { domain, ip });
        proof {
            assert(self.items@.drop_last() =~= rest);
            assert(self.items@.last() == entry);
            assert(map_of(self.items@) =~= map_of(before).insert(domain@, ip));
        }
    }

    /// The number of domains.
    pub fn len(&self) -> (n: usize)
        requires
            self.wf(),
        ensures
            n == self@.len(),
            self@.dom().finite(),
    {
        proof {
            map_size(self.items@);
        }
        self.items.len()
    }

    /// Whether there are no domains.
    pub fn is_empty(&self) -> (b: bool)
        requires
            self.wf(),
        ensures
            b == (self@ == Map::<Seq<char>, Ipv4Addr>::empty()),
    {
        if self.items.len() == 0 {
            true
        } else {
            proof {
                map_has(self.items@, 0);
            }
            false
        }
    }
}

/// A domain in the form in which it is looked up: without white space around it,
/// without dots at its end, with ASCII letters in lower case.
pub open spec fn plain_domain(d: Seq<char>) -> Seq<char> {
    ascii_lowercase(without_trailing(trimmed(d), '.'))
}

/// A domain in the form in which it is looked up.
pub fn normalize_domain(domain: &str) -> (s: String)
    ensures
        s@ == plain_domain(domain@),
{
    let t = trim(domain);
    to_ascii_lowercase(trim_end_char(t.as_str(), '.').as_str())
}

/// A place in a file, before a remark on it.
pub open spec fn at_line(path: Seq<char>, line: nat) -> Seq<char> {
    path + ":"@ + decimal(line)
}

fn show_line(path: &str, line: usize) -> (s: String)
    requires
        line < usize::MAX,
    ensures
        s@ == at_line(path@, (line + 1) as nat),
{
    concat3(path, ":", wide_decimal_string(line as u128 + 1).as_str())
}

/// The addresses after domains were given one; or the remark on the first that
/// cannot be used.
pub open spec fn with_domains(
    place: Seq<char>,
    ip: Ipv4Addr,
    ds: Seq<Seq<char>>,
    map: Map<Seq<char>, Ipv4Addr>,
) -> Result<Map<Seq<char>, Ipv4Addr>, Seq<char>>
    decreases ds.len(),
{
    if ds.len() == 0 {
        Ok(map)
    } else {
        match with_domains(place, ip, ds.drop_last(), map) {
            Err(m) => Err(m),
            Ok(before) => {
                let d = plain_domain(ds.last());
                if d.len() == 0 || d.contains('*') {
                    Err(place + " numa-dev supports exact IPv4 domains only: "@ + d)
                } else {
                    Ok(before.insert(d, ip))
                }
            },
        }
    }
}

/// What counts of a line: what stands before a comment.
pub open spec fn line_content(raw: Seq<char>) -> Seq<char> {
    trimmed(split_parts(raw, '#')[0])
}

/// The addresses after a line; or the remark on it.
pub open spec fn with_line(
    path: Seq<char>,
    number: nat,
    raw: Seq<char>,
    map: Map<Seq<char>, Ipv4Addr>,
) -> Result<Map<Seq<char>, Ipv4Addr>, Seq<char>> {
    let parts = words(line_content(raw));
    let place = at_line(path, number);
    if line_content(raw).len() == 0 {
        Ok(map)
    } else if parts.len() < 2 {
        Err(place + " must be '<ip> <domain> [domain...]'"@)
    } else {
        match ip_text(parts[0]) {
            Some(IpAddr::V4(ip)) => with_domains(
                place,
                ip,
                parts.subrange(1, parts.len() as int),
                map,
            ),
            _ => Err(
                place + " invalid IPv4 '"@ + parts[0] + "': "@ + "invalid IPv4 address syntax"@,
            ),
        }
    }
}

/// The addresses in lines; or the remark on the first that cannot be used.
pub open spec fn with_lines(path: Seq<char>, ls: Seq<Seq<char>>) -> Result<
    Map<Seq<char>, Ipv4Addr>,
    Seq<char>,
>
    decreases ls.len(),
{
    if ls.len() == 0 {
        Ok(Map::empty())
    } else {
        match with_lines(path, ls.drop_last()) {
            Err(m) => Err(m),
            Ok(before) => with_line(path, ls.len(), ls.last(), before),
        }
    }
}

/// The addresses in a file, of which there must be one; or the remark.
pub open spec fn loaded(path: Seq<char>, contents: Seq<char>) -> Result<
    Map<Seq<char>, Ipv4Addr>,
    Seq<char>,
> {
    match with_lines(path, text_lines(contents)) {
        Err(m) => Err(m),
        Ok(map) => if map == Map::<Seq<char>, Ipv4Addr>::empty() {
            Err("no domains found in "@ + path)
        } else {
            Ok(map)
        },
    }
}

/// The outcome as a contract has it.
pub open spec fn outcome(r: Result<(), String>, map: DomainMap) -> Result<
    Map<Seq<char>, Ipv4Addr>,
    Seq<char>,
> {
    match r {
        Ok(_) => Ok(map@),
        Err(m) => Err(m@),
    }
}

fn add_domains(place: &str, ip: Ipv4Addr, parts: &Vec<String>, map: &mut DomainMap) -> (r: Result<
    (),
    String,
>)
    requires
        old(map).wf(),
        parts@.len() >= 1,
    ensures
        final(map).wf(),
        outcome(r, *final(map)) == with_domains(
            place@,
            ip,
            texts(parts@).subrange(1, parts@.len() as int),
            old(map)@,
        ),
{
    let ghost all = texts(parts@).subrange(1, parts@.len() as int);
    let ghost start = map@;
    let mut i: usize = 1;
    assert(all.subrange(0, 0) =~= Seq::<Seq<char>>::empty());
    while i < parts.len()
        invariant
            1 <= i <= parts.len(),
            map.wf(),
            all == texts(parts@).subrange(1, parts@.len() as int),
            start == old(map)@,
            with_domains(place@, ip, all.subrange(0, i - 1), start) == Ok::<
                Map<Seq<char>, Ipv4Addr>,
                Seq<char>,
            >(map@),
        decreases parts.len() - i,
    {
        proof {
            let more = all.subrange(0, i as int);
            assert(more.drop_last() =~= all.subrange(0, i - 1));
            assert(more.last() == parts@[i as int]@);
        }
        let d = normalize_domain(parts[i].as_str());
        if d.as_str().is_empty() || contains_char(d.as_str(), '*') {
            let m = concat3(place, " numa-dev supports exact IPv4 domains only: ", d.as_str());
            proof {
                domains_fail(place@, ip, all, i as int, start);
            }
            return Err(m);
        }
        map.insert(d, ip);
        i += 1;
    }
    assert(all.subrange(0, all.len() as int) =~= all);
    Ok(())
}

proof fn domains_fail(
    place: Seq<char>,
    ip: Ipv4Addr,
    ds: Seq<Seq<char>>,
    i: int,
    map: Map<Seq<char>, Ipv4Addr>,
)
    requires
        0 <= i <= ds.len(),
        with_domains(place, ip, ds.subrange(0, i), map) is Err,
    ensures
        with_domains(place, ip, ds, map) == with_domains(place, ip, ds.subrange(0, i), map),
    decreases ds.len() - i,
{
    if i < ds.len() {
        assert(ds.subrange(0, i + 1).drop_last() =~= ds.subrange(0, i));
        domains_fail(place, ip, ds, i + 1, map);
    } else {
        assert(ds.subrange(0, i) =~= ds);
    }
}

proof fn lines_fail(path: Seq<char>, ls: Seq<Seq<char>>, i: int)
    requires
        0 <= i <= ls.len(),
        with_lines(path, ls.subrange(0, i)) is Err,
    ensures
        with_lines(path, ls) == with_lines(path, ls.subrange(0, i)),
    decreases ls.len() - i,
{
    if i < ls.len() {
        assert(ls.subrange(0, i + 1).drop_last() =~= ls.subrange(0, i));
        lines_fail(path, ls, i + 1);
    } else {
        assert(ls.subrange(0, i) =~= ls);
    }
}

fn add_line(path: &str, line: usize, raw: &str, map: &mut DomainMap) -> (r: Result<(), String>)
    requires
        old(map).wf(),
        line < usize::MAX,
    ensures
        final(map).wf(),
        outcome(r, *final(map)) == with_line(path@, (line + 1) as nat, raw@, old(map)@),
{
    let halves = split(raw, '#');
    assert(split_parts(raw@, '#')[0] == halves@[0]@);
    let content = trim(halves[0].as_str());
    if content.as_str().is_empty() {
        return Ok(());
    }
    let parts = split_whitespace(content.as_str());
    assert(texts(parts@).len() == parts@.len());
    let place = show_line(path, line);
    if parts.len() < 2 {
        return Err(concat(place.as_str(), " must be '<ip> <domain> [domain...]'"));
    }
    assert(texts(parts@)[0] == parts@[0]@);
    let ip = match parse_ipv4(parts[0].as_str()) {
        Some(ip) => ip,
        None => {
            let head = concat3(place.as_str(), " invalid IPv4 '", parts[0].as_str());
            return Err(concat3(head.as_str(), "': ", "invalid IPv4 address syntax"));
        },
    };
    add_domains(place.as_str(), ip, &parts, map)
}

/// The addresses in the contents of a file; or the remark on what cannot be used.
pub fn load_domains(path: &str, contents: &str) -> (r: Result<DomainMap, String>)
    ensures
        match r {
            Ok(m) => m.wf() && loaded(path@, contents@) == Ok::<
                Map<Seq<char>, Ipv4Addr>,
                Seq<char>,
            >(m@),
            Err(e) => loaded(path@, contents@) == Err::<Map<Seq<char>, Ipv4Addr>, Seq<char>>(e@),
        },
{
    let v = lines(contents);
    let ghost all = text_lines(contents@);
    let mut map = DomainMap::new();
    let mut i: usize = 0;
    assert(all.subrange(0, 0) =~= Seq::<Seq<char>>::empty());
    while i < v.len()
        invariant
            i <= v.len(),
            map.wf(),
            all == text_lines(contents@),
            all == texts(v@),
            with_lines(path@, all.subrange(0, i as int)) == Ok::<
                Map<Seq<char>, Ipv4Addr>,
                Seq<char>,
            >(map@),
        decreases v.len() - i,
    {
        proof {
            let more = all.subrange(0, i + 1);
            assert(more.drop_last() =~= all.subrange(0, i as int));
            assert(more.last() == v@[i as int]@);
        }
        if let Err(m) = add_line(path, i, v[i].as_str(), &mut map) {
            proof {
                lines_fail(path@, all, i + 1);
            }
            return Err(m);
        }
        i += 1;
    }
    assert(all.subrange(0, all.len() as int) =~= all);
    if map.is_empty() {
        return Err(concat("no domains found in ", path));
    }
    Ok(map)
}

/// The domains that are served, and the last remark on loading them anew.
#[derive(Debug)]
pub struct Reloader {
    pub entries: DomainMap,
    pub last_error: Option<String>,
}

impl Reloader {
    /// Takes up what came of loading the domains anew, and gives the line to log,
    /// if there is one. A file that cannot be used changes nothing, and each
    /// remark is logged once.
    pub fn reload(&mut self, path: &str, result: Result<DomainMap, String>) -> (log: Option<String>)
        requires
            old(self).entries.wf(),
            result matches Ok(m) ==> m.wf(),
        ensures
            final(self).entries.wf(),
            match result {
                Ok(m) => {
                    &&& final(self).entries == m
                    &&& final(self).last_error is None
                    &&& text_in(log) == (if old(self).last_error is Some {
                        Some(
                            "domains reloaded from "@ + path@ + ": "@ + decimal(m@.len())
                                + " entries"@,
                        )
                    } else {
                        None
                    })
                },
                Err(e) => {
                    &&& final(self).entries == old(self).entries
                    &&& text_in(final(self).last_error) == Some(e@)
                    &&& text_in(log) == (if text_in(old(self).last_error) == Some(e@) {
                        None
                    } else {
                        Some("domain reload failed; keeping previous entries: "@ + e@)
                    })
                },
            },
    {
        match result {
            Ok(m) => {
                let n: usize = m.len();
                self.entries = m;
                let had = self.last_error.take();
                if had.is_some() {
                    let mut s = concat3("domains reloaded from ", path, ": ");
                    s.append(wide_decimal_string(n as u128).as_str());
                    s.append(" entries");
                    Some(s)
                } else {
                    None
                }
            },
            Err(e) => {
                let known = match &self.last_error {
                    Some(x) => str_eq(x.as_str(), e.as_str()),
                    None => false,
                };
                if known {
                    return None;
                }
                let log = concat("domain reload failed; keeping previous entries: ", e.as_str());
                self.last_error = Some(e);
                Some(log)
            },
        }
    }
}

/// Every domain that is loaded is an exact one: it is not empty, and holds no
/// wildcard.
pub proof fn loaded_domains_are_exact(path: Seq<char>, ls: Seq<Seq<char>>)
    ensures
        with_lines(path, ls) matches Ok(map) ==> forall|d: Seq<char>| #[trigger]
            map.contains_key(d) ==> d.len() > 0 && !d.contains('*'),
    decreases ls.len(),
{
    if ls.len() > 0 {
        loaded_domains_are_exact(path, ls.drop_last());
        if let Ok(before) = with_lines(path, ls.drop_last()) {
            let parts = words(line_content(ls.last()));
            if line_content(ls.last()).len() > 0 && parts.len() >= 2 {
                if let Some(IpAddr::V4(ip)) = ip_text(parts[0]) {
                    added_domains_are_exact(
                        at_line(path, ls.len()),
                        ip,
                        parts.subrange(1, parts.len() as int),
                        before,
                    );
                }
            }
        }
    }
}

proof fn added_domains_are_exact(
    place: Seq<char>,
    ip: Ipv4Addr,
    ds: Seq<Seq<char>>,
    map: Map<Seq<char>, Ipv4Addr>,
)
    requires
        forall|d: Seq<char>| #[trigger]
            map.contains_key(d) ==> d.len() > 0 && !d.contains('*'),
    ensures
        with_domains(place, ip, ds, map) matches Ok(m) ==> forall|d: Seq<char>| #[trigger]
            m.contains_key(d) ==> d.len() > 0 && !d.contains('*'),
    decreases ds.len(),
{
    if ds.len() > 0 {
        added_domains_are_exact(place, ip, ds.drop_last(), map);
    }
}

} // verus!
