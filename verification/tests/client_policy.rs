//! Policies for single clients.
use numa::client_policy::{ClientPolicyConfig, ClientPolicySet, Decision};
use numa::net::parse_ip;
use Decision::{Allow, Block, Passthrough};

fn cfg(from: &[&str], block: &[&str], allow: &[&str]) -> ClientPolicyConfig {
    cfg_ex(from, &[], block, allow)
}

fn cfg_ex(
    from: &[&str],
    exclude: &[&str],
    block: &[&str],
    allow: &[&str],
) -> ClientPolicyConfig {
    ClientPolicyConfig {
        from: from.iter().map(|s| s.to_string()).collect(),
        exclude: exclude.iter().map(|s| s.to_string()).collect(),
        block: block.iter().map(|s| s.to_string()).collect(),
        allow: allow.iter().map(|s| s.to_string()).collect(),
        filter_aaaa: None,
    }
}

fn cfg_aaaa(from: &[&str], filter_aaaa: Option<bool>) -> ClientPolicyConfig {
    ClientPolicyConfig {
        from: from.iter().map(|s| s.to_string()).collect(),
        filter_aaaa,
        ..Default::default()
    }
}

fn policy(rules: Vec<ClientPolicyConfig>) -> ClientPolicySet {
    ClientPolicySet::from_configs(&rules).unwrap()
}

/// Assert `(peer, qname) -> Decision` for each case against one rule set.
fn check(set: &ClientPolicySet, cases: &[(&str, &str, Decision)]) {
    for (peer, qname, want) in cases {
        let got = set.evaluate(parse_ip(peer).unwrap(), qname);
        assert_eq!(got, *want, "{peer} / {qname}");
    }
}

#[test]
fn empty_set_passes_through() {
    let set = ClientPolicySet::default();
    assert!(!set.is_enabled());
    check(&set, &[("192.168.1.50", "example.com", Passthrough)]);
}

#[test]
fn blocks_matching_client() {
    let set = policy(vec![cfg(&["192.168.1.50/32"], &["youtube.com"], &[])]);
    check(
        &set,
        &[
            ("192.168.1.50", "m.youtube.com", Block),
            ("192.168.1.99", "m.youtube.com", Passthrough),
        ],
    );
}

#[test]
fn adblock_syntax_is_parsed_like_global_list() {
    // `||host^`, `*.host`, and `$options` must all be stripped to the bare
    // domain, matching parse_blocklist: and the *apex* ends up blocked, not
    // just subdomains (so `*.tiktok.com` is not subdomain-only).
    let set = policy(vec![cfg(
        &["10.0.0.0/8"],
        &["||tracker.com^", "*.tiktok.com", "ads.net$third-party"],
        &[],
    )]);
    check(
        &set,
        &[
            ("10.0.0.5", "tracker.com", Block),
            ("10.0.0.5", "sub.tracker.com", Block),
            ("10.0.0.5", "tiktok.com", Block),
            ("10.0.0.5", "ads.net", Block),
        ],
    );
}

#[test]
fn dotless_entry_does_not_blanket_block_a_tld() {
    // `*.com` normalizes to bare `com`, which parse_blocklist drops (no dot),
    // so it must NOT sinkhole the whole TLD; a valid sibling still blocks.
    let set = policy(vec![cfg(&["192.168.1.0/24"], &["*.com", "ads.example"], &[])]);
    check(
        &set,
        &[
            ("192.168.1.5", "youtube.com", Passthrough),
            ("192.168.1.5", "ads.example", Block),
        ],
    );
}

#[test]
fn rule_with_only_invalid_domains_is_rejected() {
    // A rule whose lists parse to nothing (junk / dotless) errors at load
    // instead of silently becoming a no-op.
    assert!(
        ClientPolicySet::from_configs(&vec![cfg(&["10.0.0.0/8"], &["*", "com"], &[])]).is_err()
    );
}

#[test]
fn allow_overrides_block_within_rule() {
    let set = policy(vec![cfg(
        &["192.168.1.50"],
        &["example.com"],
        &["safe.example.com"],
    )]);
    check(
        &set,
        &[
            ("192.168.1.50", "safe.example.com", Allow),
            ("192.168.1.50", "ads.example.com", Block),
        ],
    );
}

#[test]
fn silent_rule_falls_through_to_later_rule() {
    // Rule 0 matches .50 but is silent on reddit -> falls through to rule 1
    // (the /24), which blocks it. Rule 0 still owns its own domain.
    // .99 only matches rule 1, which is silent on youtube -> passthrough.
    let set = policy(vec![
        cfg(&["192.168.1.50"], &["youtube.com"], &[]),
        cfg(&["192.168.1.0/24"], &["reddit.com"], &[]),
    ]);
    check(
        &set,
        &[
            ("192.168.1.50", "reddit.com", Block),
            ("192.168.1.50", "youtube.com", Block),
            ("192.168.1.99", "youtube.com", Passthrough),
        ],
    );
}

#[test]
fn earlier_allow_beats_later_block() {
    // For an overlapping client, the earlier rule's explicit decision wins:
    // rule 0 allows the domain, the broader rule 1 blocks it -> Allow.
    let set = policy(vec![
        cfg(&["192.168.1.50"], &[], &["news.ycombinator.com"]),
        cfg(&["192.168.1.0/24"], &["news.ycombinator.com"], &[]),
    ]);
    check(
        &set,
        &[
            ("192.168.1.50", "news.ycombinator.com", Allow),
            ("192.168.1.99", "news.ycombinator.com", Block),
        ],
    );
}

#[test]
fn loopback_always_passthrough() {
    // Plain, v6, and IPv4-mapped loopback on a dual-stack bind all bypass.
    let set = policy(vec![cfg(&["127.0.0.0/8"], &["example.com"], &[])]);
    check(
        &set,
        &[
            ("127.0.0.1", "example.com", Passthrough),
            ("::1", "example.com", Passthrough),
            ("::ffff:127.0.0.1", "example.com", Passthrough),
        ],
    );
}

#[test]
fn client_policy_ipv4_mapped_client_matches_v4_rule() {
    // Dual-stack `[::]` binds deliver IPv4 peers as `::ffff:a.b.c.d`;
    // an IPv4 CIDR rule must still match.
    let set = policy(vec![cfg(&["192.168.1.50/32"], &["youtube.com"], &[])]);
    check(
        &set,
        &[
            ("::ffff:192.168.1.50", "m.youtube.com", Block),
            ("::ffff:192.168.1.99", "m.youtube.com", Passthrough),
        ],
    );
}

#[test]
fn ipv6_client_cidr() {
    let set = policy(vec![cfg(&["2001:db8::/32"], &["tracker.example"], &[])]);
    check(
        &set,
        &[
            ("2001:db8::abcd", "tracker.example", Block),
            ("2001:db9::abcd", "tracker.example", Passthrough),
        ],
    );
}

#[test]
fn rejects_empty_clients() {
    let err = ClientPolicySet::from_configs(&vec![cfg(&[], &["x.com"], &[])]).unwrap_err();
    assert!(err.contains("at least one CIDR"));
}

#[test]
fn rejects_empty_block_and_allow() {
    let err = ClientPolicySet::from_configs(&vec![cfg(&["192.168.1.0/24"], &[], &[])]).unwrap_err();
    assert!(err.contains("`block`/`allow`"));
}

#[test]
fn rejects_invalid_cidr() {
    let err =
        ClientPolicySet::from_configs(&vec![cfg(&["not-a-cidr"], &["x.com"], &[])]).unwrap_err();
    assert!(err.contains("invalid CIDR"));
}

#[test]
fn exclude_carves_a_host_out_of_the_range() {
    // "filter the whole /24 except my own device": the driving use case.
    // The excluded device matches no rule -> passthrough (unfiltered).
    let set = policy(vec![cfg_ex(
        &["192.168.1.0/24"],
        &["192.168.1.254"],
        &["youtube.com"],
        &[],
    )]);
    check(
        &set,
        &[
            ("192.168.1.50", "youtube.com", Block),
            ("192.168.1.254", "youtube.com", Passthrough),
        ],
    );
}

// Per-client filter of IPv6 addresses.

fn eff(set: &ClientPolicySet, peer: &str, global: bool) -> bool {
    set.effective_filter_aaaa(parse_ip(peer).unwrap(), global)
}

#[test]
fn filter_aaaa_inherits_global_when_no_rule_matches() {
    let set = policy(vec![cfg_aaaa(&["10.210.0.0/16"], Some(true))]);
    assert!(
        !eff(&set, "192.168.1.5", false),
        "unmatched inherits global"
    );
    assert!(eff(&set, "192.168.1.5", true), "unmatched inherits global");
}

#[test]
fn filter_aaaa_override_forces_on_over_global_false() {
    let set = policy(vec![cfg_aaaa(&["10.210.0.0/16"], Some(true))]);
    assert!(eff(&set, "10.210.0.5", false), "match forces filter on");
}

#[test]
fn filter_aaaa_override_forces_off_over_global_true() {
    let set = policy(vec![cfg_aaaa(&["2001:db8::/32"], Some(false))]);
    assert!(
        !eff(&set, "2001:db8::abcd", true),
        "match forces filter off"
    );
}

#[test]
fn filter_aaaa_unset_rule_inherits_global() {
    // A block/allow rule with no filter_aaaa key must not force-disable.
    let set = policy(vec![cfg(&["10.0.0.0/8"], &["ads.example"], &[])]);
    assert!(eff(&set, "10.0.0.5", true), "unset inherits global true");
    assert!(!eff(&set, "10.0.0.5", false), "unset inherits global false");
}

#[test]
fn filter_aaaa_first_explicit_override_wins() {
    let set = policy(vec![
        cfg(&["10.0.0.0/8"], &["ads.example"], &[]), // matches, silent on aaaa
        cfg_aaaa(&["10.0.0.0/8"], Some(true)),       // first explicit override
    ]);
    assert!(eff(&set, "10.0.0.5", false), "first explicit override wins");
}

#[test]
fn filter_aaaa_loopback_inherits_global() {
    let set = policy(vec![cfg_aaaa(&["127.0.0.0/8"], Some(true))]);
    for peer in ["127.0.0.1", "::1", "::ffff:127.0.0.1"] {
        assert!(!eff(&set, peer, false), "{peer} bypasses to global");
    }
}

#[test]
fn filter_aaaa_dual_stack_mapped_peer_matches_v4_rule() {
    let set = policy(vec![cfg_aaaa(&["10.210.0.0/16"], Some(true))]);
    assert!(eff(&set, "::ffff:10.210.0.5", false), "v4-mapped matches");
}

#[test]
fn filter_aaaa_only_rule_is_accepted() {
    // No block/allow domains, just a filter_aaaa override -> valid.
    assert!(ClientPolicySet::from_configs(&vec![cfg_aaaa(&["10.0.0.0/8"], Some(true))]).is_ok());
}

#[test]
fn rule_with_nothing_is_rejected() {
    // No block, no allow, no filter_aaaa -> still an error.
    let err = ClientPolicySet::from_configs(&vec![cfg_aaaa(&["10.0.0.0/8"], None)]).unwrap_err();
    assert!(err.contains("filter_aaaa"), "got: {err}");
}

#[test]
fn filter_aaaa_only_rule_still_requires_from() {
    let mut c = cfg_aaaa(&[], Some(true));
    c.from.clear();
    let err = ClientPolicySet::from_configs(&vec![c]).unwrap_err();
    assert!(err.contains("at least one CIDR"), "got: {err}");
}
