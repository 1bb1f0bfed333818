//! What the host says and what is done to it: which servers its files name, and
//! what the steps of an installation come to.
use vstd::prelude::*;

use crate::linux_install::{
    linux_dns_plan, linux_removal_plan, linux_restore_plan, linux_service_plan, linux_start_plan,
    linux_stop_plan,
};
use crate::macos_install::{led_services, restored_services};
use crate::net::{ip_text, IpAddr};
use crate::resolv_conf::{
    first_real, has_real, kept_domains, managed, nameserver_of, nameservers, search_list, searched,
};
use crate::scutil::{longest_first, placed, ScutilView};
use crate::service_control::{
    known_dns, only_real, replaced, ServiceServers, SystemReport,
};
use crate::steps::{
    default_config_plan, dns_plan, may, must, next_of, run, should, ActionView, Attempt,
    DefaultConfig, NextView,
};
use crate::system_dns::{
    after_last_colon, marked_address, real_address, rule_for, stub_address, RuleView,
};
use crate::text::{
    has_part, has_prefix, lowercase, occurs_at, split_parts, text_lines, texts, trimmed,
    without_trailing, words,
};
use crate::text_laws::{parts_on_both_sides, prefix_and_rest, trailing_run_is_cut};

verus! {

// ---------------------------------------------------------------------------
// The resolver's file
// ---------------------------------------------------------------------------

/// A line names a server where its first word is `nameserver` and a second
/// follows: that one.
pub proof fn server_of_a_line(line: Seq<char>)
    ensures
        words(line).len() >= 2 && words(line)[0] == "nameserver"@ ==> nameserver_of(line) == Some(
            words(line)[1],
        ),
        words(line).len() < 2 || words(line)[0] != "nameserver"@ ==> nameserver_of(line) is None,
{
}

/// The servers of a file are those of its lines, one after the other.
pub proof fn servers_of_lines(a: Seq<Seq<char>>, b: Seq<Seq<char>>)
    ensures
        nameservers(a + b) == nameservers(a) + nameservers(b),
        a.len() == 0 ==> nameservers(a).len() == 0,
        a.len() == 1 ==> nameservers(a) == (match nameserver_of(a[0]) {
            Some(s) => seq![s],
            None => Seq::empty(),
        }),
    decreases b.len(),
{
    if b.len() == 0 {
        assert(a + b =~= a);
        assert(nameservers(a) + nameservers(b) =~= nameservers(a));
    } else {
        let s = a + b;
        assert(s.drop_last() =~= a + b.drop_last());
        assert(s.last() == b.last());
        servers_of_lines(a, b.drop_last());
        assert(nameservers(s) =~= nameservers(a) + nameservers(b));
    }
    if a.len() == 1 {
        assert(a.drop_last() =~= Seq::<Seq<char>>::empty());
        assert(nameservers(a.drop_last()) =~= Seq::<Seq<char>>::empty());
        assert(nameservers(a) =~= match nameserver_of(a[0]) {
            Some(s) => seq![s],
            None => Seq::empty(),
        });
    }
}

/// The addresses that lead back to this machine, or nowhere, are no servers to
/// ask.
pub proof fn addresses_of_stubs(s: Seq<char>)
    ensures
        stub_address(s) <==> {
            ||| s.len() == 0
            ||| s == "127.0.0.1"@
            ||| s == "127.0.0.53"@
            ||| s == "::1"@
            ||| s == "0.0.0.0"@
            ||| s == "fec0:0:0:ffff::1"@
            ||| s == "fec0:0:0:ffff::2"@
            ||| s == "fec0:0:0:ffff::3"@
        },
{
    reveal_strlit("");
    if s.len() == 0 {
        assert(s =~= ""@);
    }
}

/// The server that is asked is the first that is no stub.
pub proof fn first_server_to_ask(servers: Seq<Seq<char>>, i: int)
    requires
        0 <= i <= servers.len(),
        forall|j: int| 0 <= j < i ==> stub_address(#[trigger] servers[j]),
        i < servers.len() ==> !stub_address(servers[i]),
    ensures
        i < servers.len() ==> first_real(servers) == Some(servers[i]),
        i == servers.len() ==> first_real(servers) is None,
    decreases servers.len(),
{
    if servers.len() > 0 && i > 0 {
        let rest = servers.drop_first();
        assert(stub_address(servers[0]));
        assert forall|j: int| 0 <= j < i - 1 implies stub_address(#[trigger] rest[j]) by {
            assert(rest[j] == servers[j + 1]);
        }
        if i < servers.len() {
            assert(rest[i - 1] == servers[i]);
        }
        first_server_to_ask(rest, i - 1);
    }
}

/// A file is managed here where it says so or names no server to ask.
pub proof fn files_managed_here(content: Seq<char>)
    ensures
        has_real(content) <==> exists|i: int|
            0 <= i < nameservers(text_lines(content)).len() && !stub_address(
                #[trigger] nameservers(text_lines(content))[i],
            ),
        managed(content) <==> has_part(content, "Generated by Numa"@) || !has_real(content),
{
}

/// The domains that are searched are the words behind `search` or `domain` of
/// each line that starts so, without dots at their ends, line by line.
pub proof fn domains_that_are_searched(a: Seq<Seq<char>>, b: Seq<Seq<char>>, line: Seq<char>)
    ensures
        search_list(a + b) == search_list(a) + search_list(b),
        search_list(seq![line]) == searched(line),
        !has_prefix(line, "search"@) && !has_prefix(line, "domain"@) ==> searched(line).len() == 0,
        (has_prefix(line, "search"@) || has_prefix(line, "domain"@)) && words(line).len() > 0
            ==> searched(line) == kept_domains(words(line).subrange(1, words(line).len() as int)),
    decreases b.len(),
{
    let one = seq![line];
    assert(one.drop_last() =~= Seq::<Seq<char>>::empty());
    assert(search_list(one.drop_last()) =~= Seq::<Seq<char>>::empty());
    assert(search_list(one) =~= searched(line));
    assert(words(line).len() > 0 ==> words(line).drop_first() =~= words(line).subrange(
        1,
        words(line).len() as int,
    ));
    if b.len() == 0 {
        assert(a + b =~= a);
        assert(search_list(a) + search_list(b) =~= search_list(a));
    } else {
        let s = a + b;
        assert(s.drop_last() =~= a + b.drop_last());
        assert(s.last() == b.last());
        domains_that_are_searched(a, b.drop_last(), line);
        assert(search_list(s) =~= search_list(a) + search_list(b));
    }
}

/// A domain to search loses the dots at its end; where nothing else is left it
/// is passed over.
pub proof fn searched_domain_without_dots(
    v: Seq<Seq<char>>,
    domain: Seq<char>,
    dots: Seq<char>,
)
    requires
        forall|i: int| 0 <= i < dots.len() ==> #[trigger] dots[i] == '.',
        domain.len() == 0 || domain.last() != '.',
    ensures
        domain.len() > 0 ==> kept_domains(v.push(domain + dots)) == kept_domains(v).push(domain),
        domain.len() == 0 ==> kept_domains(v.push(domain + dots)) == kept_domains(v),
        kept_domains(Seq::empty()).len() == 0,
{
    trailing_run_is_cut(domain, dots, '.');
    assert(v.push(domain + dots).drop_last() =~= v);
}

// ---------------------------------------------------------------------------
// What programs print
// ---------------------------------------------------------------------------

/// An address that a program prints is that behind the last colon of the first
/// line that is marked so and has an address to ask there.
pub proof fn first_marked_address(
    lines: Seq<Seq<char>>,
    a: Seq<char>,
    b: Seq<char>,
    i: int,
)
    requires
        0 <= i <= lines.len(),
        forall|j: int|
            0 <= j < i ==> (!has_part(#[trigger] lines[j], a) && !has_part(lines[j], b)) || ip_text(
                after_last_colon(lines[j]),
            ) is None || stub_address(after_last_colon(lines[j])),
        i < lines.len() ==> (has_part(lines[i], a) || has_part(lines[i], b)) && ip_text(
            after_last_colon(lines[i]),
        ) is Some && !stub_address(after_last_colon(lines[i])),
    ensures
        i < lines.len() ==> marked_address(lines, a, b) == Some(after_last_colon(lines[i])),
        i == lines.len() ==> marked_address(lines, a, b) is None,
    decreases lines.len(),
{
    if lines.len() > 0 && i > 0 {
        let rest = lines.drop_first();
        assert(!real_address(after_last_colon(lines[0])) || (!has_part(lines[0], a) && !has_part(
            lines[0],
            b,
        )));
        assert forall|j: int| 0 <= j < i - 1 implies (!has_part(#[trigger] rest[j], a) && !has_part(
            rest[j],
            b,
        )) || ip_text(after_last_colon(rest[j])) is None || stub_address(
            after_last_colon(rest[j]),
        ) by {
            assert(rest[j] == lines[j + 1]);
        }
        if i < lines.len() {
            assert(rest[i - 1] == lines[i]);
        }
        first_marked_address(rest, a, b, i - 1);
    }
}

/// What stands behind the last colon of a line, without white space round it.
pub proof fn behind_the_last_colon(front: Seq<char>, rest: Seq<char>)
    requires
        !rest.contains(':'),
    ensures
        after_last_colon(front + seq![':'] + rest) == trimmed(rest),
{
    parts_on_both_sides(front, rest, ':');
    crate::text_laws::whole_is_one_part(rest, ':');
    let parts = split_parts(front + seq![':'] + rest, ':');
    assert(parts.last() == rest);
}

/// On Linux the server that is asked is the one that the resolver's file names;
/// where it names none, the one that the system's resolver prints; and where
/// that prints none, the one that the kept file names. There are no rules.
pub proof fn servers_known_on_linux(
    resolv: Option<&str>,
    resolvectl: Option<&str>,
    backup: Option<&str>,
)
    ensures
        ({
            let r = SystemReport::Linux { resolv, resolvectl, backup };
            let first = match resolv {
                Some(t) => first_real(nameservers(text_lines(t@))),
                None => None,
            };
            let second = match resolvectl {
                Some(t) => marked_address(text_lines(t@), "DNS Servers"@, "Current DNS Server"@),
                None => None,
            };
            let third = match backup {
                Some(t) => first_real(nameservers(text_lines(t@))),
                None => None,
            };
            &&& known_dns(r).1.len() == 0
            &&& first is Some ==> known_dns(r).0 == first
            &&& first is None && second is Some ==> known_dns(r).0 == second
            &&& first is None && second is None ==> known_dns(r).0 == third
        }),
{
}

/// A resolver that is printed with a domain, a server and the mark of being
/// supplemental becomes a rule for that domain, unless the domain is one that
/// stays on the link or of reverse names.
pub proof fn supplemental_resolver_is_a_rule(
    v: ScutilView,
    head: Seq<char>,
    domain_line: Seq<char>,
    server_line: Seq<char>,
    flags_line: Seq<char>,
    domain: Seq<char>,
    server: Seq<char>,
)
    requires
        has_prefix(head, "resolver #"@),
        has_prefix(domain_line, "domain"@),
        split_parts(domain_line, ':').len() == 2,
        lowercase(without_trailing(trimmed(split_parts(domain_line, ':')[1]), '.')) == domain,
        domain_line.contains(':'),
        has_prefix(server_line, "nameserver[0]"@),
        split_parts(server_line, ':').len() == 2,
        trimmed(split_parts(server_line, ':')[1]) == server,
        server_line.contains(':'),
        ip_text(server) matches Some(IpAddr::V4(_)),
        has_prefix(flags_line, "flags"@),
        has_part(flags_line, "Supplemental"@),
        domain.len() > 0,
        domain != "local"@,
        !crate::text::has_suffix(domain, "in-addr.arpa"@),
        !crate::text::has_suffix(domain, "ip6.arpa"@),
    ensures
        ({
            let after = v.read(seq![head, domain_line, server_line, flags_line]);
            rule_for(domain, server) matches Some(r) ==> after.flushed().rules
                == v.flushed().rules.push(r)
        }),
{
    reveal_strlit("resolver #");
    reveal_strlit("domain");
    reveal_strlit("nameserver[0]");
    reveal_strlit("flags");
    reveal_strlit("DNS configuration (for scoped");
    prefix_starts(head, "resolver #"@);
    prefix_starts(domain_line, "domain"@);
    prefix_starts(server_line, "nameserver[0]"@);
    prefix_starts(flags_line, "flags"@);
    other_start(domain_line, "resolver #"@);
    other_start(server_line, "resolver #"@);
    other_start(server_line, "domain"@);
    other_start(flags_line, "resolver #"@);
    other_start(flags_line, "domain"@);
    other_start(flags_line, "nameserver[0]"@);
    let all = seq![head, domain_line, server_line, flags_line];
    let three = seq![domain_line, server_line, flags_line];
    let two = seq![server_line, flags_line];
    let one = seq![flags_line];
    assert(all.drop_first() =~= three);
    assert(three.drop_first() =~= two);
    assert(two.drop_first() =~= one);
    assert(one.drop_first() =~= Seq::<Seq<char>>::empty());
    let a = v.handled(head).0;
    let b = a.handled(domain_line).0;
    let c = b.handled(server_line).0;
    let d = c.handled(flags_line).0;
    assert(v.handled(head) == (v.flushed(), false));
    assert(a.handled(domain_line) == (a.with_domain(domain_line), false));
    assert(b.handled(server_line) == (b.with_nameserver(server_line), false));
    assert(c.handled(flags_line) == (ScutilView { is_supplemental: true, ..c }, false));
    assert(v.read(all) == a.read(three));
    assert(a.read(three) == b.read(two));
    assert(b.read(two) == c.read(one));
    assert(c.read(one) == d.read(Seq::empty()));
    assert(d.read(Seq::empty()) == d);
}

proof fn prefix_starts(s: Seq<char>, p: Seq<char>)
    requires
        has_prefix(s, p),
        p.len() > 0,
    ensures
        s.len() > 0,
        s[0] == p[0],
{
    assert(s.subrange(0, p.len() as int)[0] == p[0]);
}

proof fn other_start(s: Seq<char>, p: Seq<char>)
    requires
        s.len() > 0,
        p.len() > 0,
        s[0] != p[0],
    ensures
        !has_prefix(s, p),
{
    if has_prefix(s, p) {
        prefix_starts(s, p);
    }
}

/// Putting the longest suffixes first loses no rule and adds none.
pub proof fn sorted_rules_are_the_same(rs: Seq<RuleView>)
    ensures
        longest_first(rs).to_multiset() =~= rs.to_multiset(),
    decreases rs.len(),
{
    if rs.len() > 0 {
        sorted_rules_are_the_same(rs.drop_last());
        placed_is_added(longest_first(rs.drop_last()), rs.last());
        rs.drop_last().to_multiset_ensures();
        assert(rs.drop_last().push(rs.last()) =~= rs);
    } else {
        assert(rs =~= Seq::<RuleView>::empty());
    }
}

proof fn placed_is_added(sorted: Seq<RuleView>, r: RuleView)
    ensures
        placed(sorted, r).to_multiset() =~= sorted.to_multiset().insert(r),
    decreases sorted.len(),
{
    sorted.to_multiset_ensures();
    if sorted.len() > 0 {
        let before = sorted.drop_last();
        placed_is_added(before, r);
        before.to_multiset_ensures();
        placed(before, r).to_multiset_ensures();
        assert(before.push(sorted.last()) =~= sorted);
    }
}

/// Of the servers of a service those are kept that are no stubs, in their order.
pub proof fn real_servers_are_kept(v: Seq<Seq<char>>, keep: spec_fn(Seq<char>) -> bool)
    requires
        forall|s: Seq<char>| #[trigger] keep(s) <==> !stub_address(s),
    ensures
        only_real(v) == v.filter(keep),
    decreases v.len(),
{
    reveal(Seq::filter);
    if v.len() > 0 {
        real_servers_are_kept(v.drop_last(), keep);
        assert(keep(v.last()) == !stub_address(v.last()));
    }
}

/// A mark in a template is replaced wherever it stands, and nothing else is
/// changed.
pub proof fn marks_are_replaced(a: Seq<char>, mark: Seq<char>, b: Seq<char>, with: Seq<char>)
    requires
        mark.len() > 0,
        !a.contains(mark[0]),
    ensures
        replaced(a, mark, with) == a,
        replaced(a + mark + b, mark, with) == a + with + replaced(b, mark, with),
    decreases a.len(),
{
    let s = a + mark + b;
    if a.len() == 0 {
        assert(s =~= mark + b);
        prefix_and_rest(mark, b);
        assert(s.subrange(mark.len() as int, s.len() as int) =~= b);
        assert(a + with + replaced(b, mark, with) =~= with + replaced(b, mark, with));
    } else {
        let r = a.drop_first();
        assert(a.contains(a[0]));
        assert(!r.contains(mark[0])) by {
            if r.contains(mark[0]) {
                let i = choose|i: int| 0 <= i < r.len() && r[i] == mark[0];
                assert(a[i + 1] == mark[0]);
            }
        }
        marks_are_replaced(r, mark, b, with);
        assert(s[0] == a[0]);
        if occurs_at(s, mark, 0) {
            assert(s.subrange(0, mark.len() as int)[0] == mark[0]);
        }
        if occurs_at(a, mark, 0) {
            assert(a.subrange(0, mark.len() as int)[0] == mark[0]);
        }
        assert(s.drop_first() =~= r + mark + b);
        assert(seq![a[0]] + r =~= a);
        assert(seq![s[0]] + (r + with + replaced(b, mark, with)) =~= a + with + replaced(
            b,
            mark,
            with,
        ));
    }
}

// ---------------------------------------------------------------------------
// Steps
// ---------------------------------------------------------------------------

/// What is done goes on without a word. What must be done and is not stops the
/// whole, what should be done is warned about, and what may be done is passed
/// over; in these the whole goes on.
pub proof fn what_follows_a_step(a: ActionView, how: Attempt)
    requires
        !(a is RemoveFile),
    ensures
        how is Done ==> next_of(must(a), how) == (NextView::GoOn { warn: false }) && next_of(
            should(a),
            how,
        ) == (NextView::GoOn { warn: false }) && next_of(may(a), how) == (NextView::GoOn {
            warn: false,
        }),
        !(how is Done) ==> next_of(must(a), how) == (NextView::Stop { last: None }) && next_of(
            should(a),
            how,
        ) == (NextView::GoOn { warn: true }) && next_of(may(a), how) == (NextView::GoOn {
            warn: false,
        }),
{
}

/// The system is led here unless that is to be skipped, and a failure of that is
/// warned about.
pub proof fn system_is_led_here_or_not()
    ensures
        dns_plan(true).len() == 0,
        dns_plan(false) == seq![should(ActionView::ConfigureDns)],
{
}

/// A configuration that is there is left alone. Where there is none, the default
/// is written to its place, in a directory that is made for it, and a failure of
/// either is warned about.
pub proof fn default_configuration_is_written(c: DefaultConfig)
    ensures
        c.exists ==> default_config_plan(c).len() == 0,
        !c.exists ==> ({
            let p = default_config_plan(c);
            &&& p.len() == 2
            &&& p[0].action == ActionView::MakeDir(c.dir@)
            &&& p[1].action == (ActionView::WriteFile { path: c.path@, contents: c.template@ })
            &&& next_of(p[0], Attempt::Failed) == (NextView::Leave { warn: true })
            &&& next_of(p[1], Attempt::Failed) == (NextView::GoOn { warn: true })
        }),
{
}

/// On Linux the unit is written with the path of the program, read in, enabled
/// and started last, each of which must be done. A program that the service
/// cannot reach is put where it can.
pub proof fn service_on_linux(exe: Seq<char>, traversable: bool, unit: Seq<char>, skip: bool)
    ensures
        ({
            let p = linux_service_plan(exe, traversable, unit, skip);
            let n = p.len();
            let k = n - (if skip {
                4int
            } else {
                5
            });
            let path = if traversable {
                exe
            } else {
                "/usr/local/bin/numa"@
            };
            &&& k >= 0
            &&& p[k] == must(
                ActionView::WriteFile {
                    path: "/etc/systemd/system/numa.service"@,
                    contents: replaced(unit, "{{exe_path}}"@, path),
                },
            )
            &&& p[k + 1] == must(run(seq!["systemctl"@, "daemon-reload"@]))
            &&& p[k + 2] == must(run(seq!["systemctl"@, "enable"@, "numa"@]))
            &&& !skip ==> p[k + 3] == should(ActionView::ConfigureDns)
            &&& p[n - 1] == must(run(seq!["systemctl"@, "restart"@, "numa"@]))
            &&& traversable || exe == "/usr/local/bin/numa"@ ==> k == 0
            &&& !traversable && exe != "/usr/local/bin/numa"@ ==> k == 3 && p[1].action == (
            ActionView::CopyFile { from: exe, to: "/usr/local/bin/numa.new"@ }) && p[2].action == (
            ActionView::RenameFile {
                from: "/usr/local/bin/numa.new"@,
                to: "/usr/local/bin/numa"@,
            })
        }),
{
}

/// On Linux the service is started and stopped by name. To remove it, the system
/// is led back first; it is stopped and disabled, and its unit is removed, which
/// must be done.
pub proof fn service_off_linux()
    ensures
        linux_start_plan() == seq![must(run(seq!["systemctl"@, "start"@, "numa"@]))],
        linux_stop_plan() == seq![must(run(seq!["systemctl"@, "stop"@, "numa"@]))],
        linux_removal_plan().len() == 5,
        linux_removal_plan()[0] == should(ActionView::RestoreDns),
        linux_removal_plan()[1] == should(run(seq!["systemctl"@, "stop"@, "numa"@])),
        linux_removal_plan()[2] == should(run(seq!["systemctl"@, "disable"@, "numa"@])),
        linux_removal_plan()[3].action matches ActionView::RemoveFile { path, .. } && path
            == "/etc/systemd/system/numa.service"@,
        next_of(linux_removal_plan()[3], Attempt::Failed) is Stop,
        next_of(linux_removal_plan()[3], Attempt::Missing) == (NextView::GoOn { warn: false }),
{
}

/// Each network service of a Mac is led here, one after the other: its server is
/// this machine, and the domain of the services is searched.
pub proof fn network_services_are_led_here(services: Seq<Seq<char>>, name: Seq<char>)
    ensures
        led_services(services.push(name)).len() == led_services(services).len() + 2,
        led_services(services.push(name)).subrange(0, led_services(services).len() as int)
            == led_services(services),
        led_services(services.push(name))[led_services(services).len() as int].action == run(
            seq!["networksetup"@, "-setdnsservers"@, name, "127.0.0.1"@],
        ),
        led_services(services.push(name))[led_services(services).len() as int + 1].action == run(
            seq!["networksetup"@, "-setsearchdomains"@, name, "numa"@],
        ),
        led_services(Seq::empty()).len() == 0,
{
    let s = services.push(name);
    assert(s.drop_last() =~= services);
    assert(led_services(s).subrange(0, led_services(services).len() as int) =~= led_services(
        services,
    ));
    assert(seq!["networksetup"@] + seq!["-setdnsservers"@, name, "127.0.0.1"@] =~= seq![
        "networksetup"@,
        "-setdnsservers"@,
        name,
        "127.0.0.1"@,
    ]);
}

/// Each network service of a Mac gets back the servers that it had, or none.
pub proof fn network_services_are_led_back(kept: Seq<ServiceServers>, s: ServiceServers)
    ensures
        ({
            let n = restored_services(kept).len() as int;
            let all = restored_services(kept.push(s));
            &&& all.len() == n + 2
            &&& all.subrange(0, n) == restored_services(kept)
            &&& s.servers@.len() > 0 ==> all[n].action == run(
                seq!["networksetup"@, "-setdnsservers"@, s.service@] + texts(s.servers@),
            )
            &&& s.servers@.len() == 0 ==> all[n].action == run(
                seq!["networksetup"@, "-setdnsservers"@, s.service@, "Empty"@],
            )
            &&& all[n + 1].action == run(
                seq!["networksetup"@, "-setsearchdomains"@, s.service@, "Empty"@],
            )
        }),
{
    let n = restored_services(kept).len() as int;
    let all = restored_services(kept.push(s));
    assert(kept.push(s).drop_last() =~= kept);
    assert(all.subrange(0, n) =~= restored_services(kept));
    let two = seq!["-setdnsservers"@, s.service@];
    assert(seq!["networksetup"@] + (two + texts(s.servers@)) =~= seq![
        "networksetup"@,
        "-setdnsservers"@,
        s.service@,
    ] + texts(s.servers@));
    assert(seq!["networksetup"@] + (two + seq!["Empty"@]) =~= seq![
        "networksetup"@,
        "-setdnsservers"@,
        s.service@,
        "Empty"@,
    ]);
}

/// Where the system's resolver runs, it is told to ask this machine for every
/// name and to leave the port free, and is started anew; to lead back, what it
/// was told is removed.
pub proof fn system_resolver_is_led_here(
    current: Option<Seq<char>>,
    existing: Option<Seq<char>>,
    dir: Seq<char>,
    backup: Seq<char>,
    kept: bool,
)
    ensures
        ({
            let p = linux_dns_plan(true, current, existing, dir, backup);
            let q = linux_restore_plan(true, backup, kept);
            let anew = may(run(seq!["systemctl"@, "restart"@, "systemd-resolved"@]));
            &&& p.len() == 3
            &&& p[1] == must(
                ActionView::WriteFile {
                    path: "/etc/systemd/resolved.conf.d/numa.conf"@,
                    contents: "[Resolve]\nDNS=127.0.0.1\nDomains=~. numa\nDNSStubListener=no\n"@,
                },
            )
            &&& p[2] == anew
            &&& q.len() == 2
            &&& q[0].action matches ActionView::RemoveFile { path, .. } && path
                == "/etc/systemd/resolved.conf.d/numa.conf"@
            &&& q[1] == anew
        }),
{
}

/// Where it does not run, the resolver's file is written last, and before that
/// kept where it is the system's own and nothing useful is kept yet.
pub proof fn resolver_file_is_led_here(
    current: Seq<char>,
    existing: Option<Seq<char>>,
    dir: Seq<char>,
    backup: Seq<char>,
)
    ensures
        ({
            let p = linux_dns_plan(false, Some(current), existing, dir, backup);
            let useful = existing is Some && has_real(existing->0);
            &&& p.len() > 0
            &&& p.last().action matches ActionView::WriteFile { path, .. } && path
                == "/etc/resolv.conf"@
            &&& !useful && !managed(current) ==> p.len() == 3 && p[1] == must(
                ActionView::WriteFile { path: backup, contents: current },
            )
            &&& useful || managed(current) ==> p.len() == 2
        }),
{
}

/// The upstream of a Mac is the first server of a resolver that is not
/// supplemental, is IPv4 and is no stub; later ones do not count instead.
pub proof fn default_server_of_a_mac(v: ScutilView, line: Seq<char>, server: Seq<char>)
    requires
        split_parts(line, ':').len() >= 2,
        trimmed(split_parts(line, ':')[1]) == server,
        ip_text(server) matches Some(IpAddr::V4(_)),
    ensures
        ({
            let w = v.with_nameserver(line);
            &&& w.current_nameserver == Some(server)
            &&& w.rules == v.rules
            &&& w.current_domain == v.current_domain
            &&& v.default_upstream is Some ==> w.default_upstream == v.default_upstream
            &&& v.default_upstream is None && !v.is_supplemental && !stub_address(server)
                ==> w.default_upstream == Some(server)
            &&& v.is_supplemental || stub_address(server) ==> w.default_upstream
                == v.default_upstream
        }),
{
}

/// On a Mac what is known is what its resolvers say, with the longest suffixes
/// first; on Windows it is the first server that is printed; and where nothing
/// was printed nothing is known.
pub proof fn servers_known_on_other_systems(printed: &str)
    ensures
        ({
            let lines = text_lines(printed@);
            let trim = |s: Seq<char>| trimmed(s);
            let s = ScutilView::start().read(lines.map_values(trim)).flushed();
            &&& known_dns(SystemReport::Macos { scutil: Some(printed) }) == (
                s.default_upstream,
                longest_first(s.rules),
            )
            &&& known_dns(SystemReport::Windows { ipconfig: Some(printed) }) == (
                marked_address(lines.map_values(trim), "DNS Servers"@, "DNS-Server"@),
                Seq::<RuleView>::empty(),
            )
        }),
        known_dns(SystemReport::Macos { scutil: None }) == (
            None::<Seq<char>>,
            Seq::<RuleView>::empty(),
        ),
        known_dns(SystemReport::Windows { ipconfig: None }) == (
            None::<Seq<char>>,
            Seq::<RuleView>::empty(),
        ),
{
    let lines = text_lines(printed@);
    let trim = |s: Seq<char>| trimmed(s);
    assert(lines.map_values(trim) =~= crate::system_dns::all_trimmed(lines));
}

} // verus!
