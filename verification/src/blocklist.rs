//! Lists of domains to block, and the exceptions to them.
use vstd::prelude::*;

use crate::domain_list::{find_in_set, nearest, normalize, normalized, PersistedDomainList};
use crate::name_set::{ascending, NameSet};
use crate::text::{
    chars_of, contains_char, cut_at, drop_prefix, lines, split_whitespace, str_eq, text_lines,
    texts, up_to, without_prefix, words,
};

verus! {

/// Whether a word is the address that a hosts file gives to a blocked name.
pub open spec fn sink_address(w: Seq<char>) -> bool {
    w == "0.0.0.0"@ || w == "127.0.0.1"@ || w == "::"@ || w == "::1"@
}

/// The domain that a line of a blocklist names: a bare domain, a line of a
/// hosts file, or a filter of the form `||domain^`, with or without a
/// wildcard before it and options after it. Comments and names without a dot
/// name nothing.
pub open spec fn listed_domain(line: Seq<char>) -> Option<Seq<char>> {
    let w = words(line);
    if w.len() == 0 || w[0][0] == '#' || w[0][0] == '!' {
        None
    } else {
        let word = if w.len() >= 2 && sink_address(w[0]) {
            w[1]
        } else {
            w[0]
        };
        let bare = up_to(up_to(without_prefix(word, "||"@), '^'), '$');
        let d = normalized(without_prefix(bare, "*."@));
        if d.contains('.') {
            Some(d)
        } else {
            None
        }
    }
}

/// The domains that the lines of a blocklist name.
pub open spec fn listed_domains(lines: Seq<Seq<char>>) -> Set<Seq<char>>
    decreases lines.len(),
{
    if lines.len() == 0 {
        Set::empty()
    } else {
        let before = listed_domains(lines.drop_last());
        match listed_domain(lines.last()) {
            Some(d) => before.insert(d),
            None => before,
        }
    }
}

/// The domain that a line of a blocklist names.
fn parse_line(line: &str) -> (r: Option<String>)
    ensures
        match r {
            Some(d) => listed_domain(line@) == Some(d@),
            None => listed_domain(line@) is None,
        },
{
    let w = split_whitespace(line);
    proof {
        crate::text::words_nonempty(line@);
    }
    if w.len() == 0 {
        return None;
    }
    assert(words(line@)[0] == w@[0]@);
    let first = chars_of(w[0].as_str());
    if first[0] == '#' || first[0] == '!' {
        return None;
    }
    let sink = str_eq(w[0].as_str(), "0.0.0.0") || str_eq(w[0].as_str(), "127.0.0.1") || str_eq(
        w[0].as_str(),
        "::",
    ) || str_eq(w[0].as_str(), "::1");
    let word: &String = if w.len() >= 2 && sink {
        assert(words(line@)[1] == w@[1]@);
        &w[1]
    } else {
        &w[0]
    };
    let a = drop_prefix(word.as_str(), "||");
    let b = cut_at(a.as_str(), '^');
    let c = cut_at(b.as_str(), '$');
    let d = normalize(drop_prefix(c.as_str(), "*.").as_str());
    if contains_char(d.as_str(), '.') {
        Some(d)
    } else {
        None
    }
}

/// The domains that the text of a blocklist names.
pub fn parse_blocklist(text: &str) -> (set: NameSet)
    ensures
        set@ == listed_domains(text_lines(text@)),
{
    let v = lines(text);
    let ghost all = text_lines(text@);
    let mut set = NameSet::new();
    let mut i: usize = 0;
    assert(all.subrange(0, 0) =~= Seq::<Seq<char>>::empty());
    while i < v.len()
        invariant
            i <= v.len(),
            all == texts(v@),
            set@ == listed_domains(all.subrange(0, i as int)),
        decreases v.len() - i,
    {
        proof {
            let more = all.subrange(0, i + 1);
            assert(more.drop_last() =~= all.subrange(0, i as int));
            assert(more.last() == v@[i as int]@);
        }
        match parse_line(v[i].as_str()) {
            Some(d) => {
                let _new = set.insert(d);
            },
            None => {},
        }
        i += 1;
    }
    assert(all.subrange(0, all.len() as int) =~= all);
    set
}

/// What is known of a domain: whether it is blocked, and the entry that says
/// so or makes an exception.
pub struct Verdict {
    pub blocked: bool,
    pub rule: Option<Seq<char>>,
}

/// Whether a domain is blocked, and the entry that says so or makes an exception.
#[derive(Debug)]
pub struct BlockCheckResult {
    pub blocked: bool,
    pub matched_rule: Option<String>,
}

impl View for BlockCheckResult {
    type V = Verdict;

    open spec fn view(&self) -> Verdict {
        Verdict {
            blocked: self.blocked,
            rule: match self.matched_rule {
                Some(s) => Some(s@),
                None => None,
            },
        }
    }
}

/// The domains to block and the exceptions to them.
#[derive(Debug)]
pub struct BlocklistStore {
    pub enabled: bool,
    pub domains: NameSet,
    pub exceptions: PersistedDomainList,
    pub extra: PersistedDomainList,
}

impl BlocklistStore {
    /// What is known of a domain. An exception wins over an entry, and nothing
    /// is blocked where blocking is off.
    pub open spec fn verdict(&self, domain: Seq<char>) -> Verdict {
        let d = normalized(domain);
        if !self.enabled {
            Verdict { blocked: false, rule: None }
        } else if self.exceptions@.found(d) is Some {
            Verdict { blocked: false, rule: self.exceptions@.found(d) }
        } else if self.extra@.found(d) is Some {
            Verdict { blocked: true, rule: self.extra@.found(d) }
        } else {
            Verdict { blocked: nearest(d, self.domains@) is Some, rule: nearest(d, self.domains@) }
        }
    }

    /// A store with these exceptions and entries, with blocking on.
    pub fn new(exceptions: PersistedDomainList, extra: PersistedDomainList) -> (r: Self)
        ensures
            r.enabled,
            r.domains@ == Set::<Seq<char>>::empty(),
            r.exceptions@ == exceptions@,
            r.extra@ == extra@,
    {
        BlocklistStore { enabled: true, domains: NameSet::new(), exceptions, extra }
    }

    /// Turns blocking on or off.
    pub fn set_enabled(&mut self, enabled: bool)
        ensures
            *final(self) == (BlocklistStore { enabled, ..*old(self) }),
    {
        self.enabled = enabled;
    }

    /// Replaces the domains that were loaded from lists.
    pub fn swap_domains(&mut self, domains: NameSet)
        ensures
            *final(self) == (BlocklistStore { domains, ..*old(self) }),
    {
        self.domains = domains;
    }

    /// What is known of a domain.
    pub fn check(&self, domain: &str) -> (r: BlockCheckResult)
        ensures
            r@ == self.verdict(domain@),
    {
        if !self.enabled {
            return BlockCheckResult { blocked: false, matched_rule: None };
        }
        let d = normalize(domain);
        match self.exceptions.find_normalized(d.as_str()) {
            Some(e) => {
                return BlockCheckResult { blocked: false, matched_rule: Some(e.to_owned()) };
            },
            None => {},
        }
        match self.extra.find_normalized(d.as_str()) {
            Some(e) => {
                return BlockCheckResult { blocked: true, matched_rule: Some(e.to_owned()) };
            },
            None => {},
        }
        match find_in_set(d.as_str(), &self.domains) {
            Some(e) => BlockCheckResult { blocked: true, matched_rule: Some(e.to_owned()) },
            None => BlockCheckResult { blocked: false, matched_rule: None },
        }
    }

    /// The exceptions, in order.
    pub fn allowlist(&self) -> (v: Vec<String>)
        ensures
            ascending(texts(v@)),
            texts(v@).to_set() == self.exceptions@.all(),
    {
        self.exceptions.entries()
    }

    /// Makes an exception from now on, and says whether the entries to keep have
    /// changed.
    pub fn add_to_allowlist(&mut self, domain: &str) -> (changed: bool)
        ensures
            final(self).exceptions@ == old(self).exceptions@.with_user(domain@),
            changed <==> final(self).exceptions@.user != old(self).exceptions@.user,
            *final(self) == (BlocklistStore { exceptions: final(self).exceptions, ..*old(self) }),
    {
        self.exceptions.insert(domain)
    }

    /// Takes back an exception that was made while running, and says whether there
    /// was one.
    pub fn remove_from_allowlist(&mut self, domain: &str) -> (removed: bool)
        ensures
            final(self).exceptions@ == old(self).exceptions@.without_user(domain@),
            removed == old(self).exceptions@.user.contains(normalized(domain@)),
            *final(self) == (BlocklistStore { exceptions: final(self).exceptions, ..*old(self) }),
    {
        self.exceptions.remove(domain)
    }

    /// Whether a domain is blocked.
    pub fn is_blocked(&self, domain: &str) -> (b: bool)
        ensures
            b == self.verdict(domain@).blocked,
    {
        self.check(domain).blocked
    }
}

} // verus!
