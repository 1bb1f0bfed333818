//! What a server is set up with: the values that hold where nothing is said, the
//! places of its files, and the lists that it loads.
use vstd::prelude::*;
use vstd::utf8::{decode_utf8, valid_utf8};

use crate::acl::entry_net;
use crate::api::{lists, stats_are, url_of, ServiceListing, StatsInputs, StatsResponse};
use crate::blocklist::{listed_domain, BlocklistStore};
use crate::config::{Config, UpstreamMode};
use crate::ctx::ServerCtx;
use crate::domain_list::{no_domains, normalized, DomainListView};
use crate::health::{feature_names, hex, hex_digit};
use crate::list_laws::{list_holds_what_lines_name, seeds_are_configured};
use crate::macos_install::{
    macos_removal_plan, macos_service_plan, macos_start_plan, macos_stop_plan,
};
use crate::net::{ip_text, socket_text, v4_bits, IpAddr, Ipv4Addr};
use crate::paths::{
    candidates, host_name, joined_path, system_data_dir, unix_config_dir, Platform,
};
use crate::name_set::text_less;
use crate::odoh_config::OdohView;
use crate::rebind::{default_ranges, RebindFilter};
use crate::runtime::{all_listed, bind_or_loopback, detected};
use crate::serve::{blocklist_as_configured, rebind_as_configured, rebind_ranges};
use crate::service_control::{first_with, named_program, named_services, replaced, sc_state};
use crate::service_store::{ServiceView, StoreView};
use crate::steps::{may, must, next_of, run, should, ActionView, Attempt, NextView};
use crate::system_dns::{dhcp_server, first_v4, port_53, stub_address};
use crate::text::{has_part, has_prefix, split_parts, text_lines, texts, trimmed};
use crate::text_laws::{
    leading_run_is_cut, parts_on_both_sides, prefix_and_rest, trailing_run_is_cut,
    whole_is_one_part,
};
use crate::trust::fingerprints;
use crate::windows_install::{
    nrpt_removal_script, nrpt_rule_script, powershell, registration_plan, sc_start, sc_stop,
    WindowsHost,
};

verus! {

// ---------------------------------------------------------------------------
// Where nothing is said
// ---------------------------------------------------------------------------

/// Where nothing is said, the server is asked at port 53, its API at port 5380
/// of this machine, it forwards, blocks, keeps answers for a minute to a day,
/// and serves names under `numa` at the usual ports. IPv6 and private addresses
/// are not filtered, answers are not validated, and no one is shut out.
pub proof fn values_of_a_fresh_configuration(c: Config)
    requires
        c.at_defaults(),
    ensures
        texts(c.server.bind_addr@) == seq!["0.0.0.0:53"@],
        c.server.api_port == 5380,
        c.server.api_bind_addr@ == "127.0.0.1"@,
        !c.server.filter_aaaa,
        !c.server.rebind_protect,
        c.server.allow_from@.len() == 0,
        c.server.rebind_allowlist@.len() == 0,
        c.upstream.mode is Forward,
        c.upstream.address@.len() == 0,
        c.upstream.fallback@.len() == 0,
        c.upstream.port == 53,
        c.upstream.timeout_ms == 5000,
        c.upstream.srtt,
        c.cache.max_entries == 100_000,
        c.cache.min_ttl == 60,
        c.cache.max_ttl == 86_400,
        c.blocking.enabled,
        c.blocking.refresh_hours == 24,
        c.blocking.lists@.len() == 1,
        c.proxy.enabled,
        c.proxy.port == 80,
        c.proxy.tls_port == 443,
        c.proxy.tld@ == "numa"@,
        c.proxy.bind_addr@ == "127.0.0.1"@,
        !c.lan.enabled,
        c.lan.broadcast_interval_secs == 30,
        c.lan.peer_timeout_secs == 90,
        !c.dnssec.enabled,
        !c.dnssec.strict,
        c.dot.enabled,
        c.dot.port == 853,
        !c.mobile.enabled,
        c.mobile.port == 8765,
        c.zones@.len() == 0,
        c.services@.len() == 0,
        c.forwarding@.len() == 0,
        c.client_policy@.len() == 0,
{
    assert(texts(c.blocking.lists@).len() == c.blocking.lists@.len());
}

/// The ranges that are private are those that are configured, and the usual ones
/// where none are.
pub proof fn ranges_as_configured(c: &Config)
    ensures
        c.server.rebind_private_ranges@.len() > 0 ==> rebind_ranges(c) == texts(
            c.server.rebind_private_ranges@,
        ),
        c.server.rebind_private_ranges@.len() == 0 ==> rebind_ranges(c) == default_ranges(),
{
}

// ---------------------------------------------------------------------------
// What a server finds
// ---------------------------------------------------------------------------

/// The upstream that is found is the one of the system, or else that of the
/// network, or else one that is known to all.
pub proof fn upstream_that_is_found(system: Option<Seq<char>>, network: Option<Seq<char>>)
    ensures
        system matches Some(s) ==> detected(system, network) == s,
        system is None && network is Some ==> detected(system, network) == network->0,
        system is None && network is None ==> detected(system, network) == "9.9.9.9"@,
{
}

/// An address to listen at that is not IPv4 is the loopback address.
pub proof fn address_to_listen_at(s: Seq<char>)
    ensures
        match ip_text(s) {
            Some(IpAddr::V4(a)) => bind_or_loopback(s) == a,
            _ => bind_or_loopback(s) == (Ipv4Addr { bits: v4_bits(127, 0, 0, 1) }),
        },
{
}

/// Whether port 53 is listened at is told by the address.
pub proof fn address_with_port_53(s: Seq<char>)
    ensures
        port_53(s) <==> socket_text(s) is Some && socket_text(s)->0.port == 53,
{
}

/// The domains that are loaded are those that any line of any list names.
pub proof fn every_list_is_loaded(lists: Seq<Seq<char>>, d: Seq<char>)
    ensures
        all_listed(lists).contains(d) <==> exists|i: int, j: int|
            0 <= i < lists.len() && 0 <= j < text_lines(#[trigger] lists[i]).len()
                && listed_domain(#[trigger] text_lines(lists[i])[j]) == Some(d),
    decreases lists.len(),
{
    if lists.len() > 0 {
        let before = lists.drop_last();
        let k = lists.len() - 1;
        every_list_is_loaded(before, d);
        list_holds_what_lines_name(text_lines(lists[k]), d);
        if all_listed(before).contains(d) {
            let (i, j) = choose|i: int, j: int|
                0 <= i < before.len() && 0 <= j < text_lines(#[trigger] before[i]).len()
                    && listed_domain(#[trigger] text_lines(before[i])[j]) == Some(d);
            assert(before[i] == lists[i]);
            assert(listed_domain(text_lines(lists[i])[j]) == Some(d));
        }
        if exists|i: int, j: int|
            0 <= i < lists.len() && 0 <= j < text_lines(#[trigger] lists[i]).len() && listed_domain(
                #[trigger] text_lines(lists[i])[j],
            ) == Some(d) {
            let (i, j) = choose|i: int, j: int|
                0 <= i < lists.len() && 0 <= j < text_lines(#[trigger] lists[i]).len()
                    && listed_domain(#[trigger] text_lines(lists[i])[j]) == Some(d);
            if i < k {
                assert(before[i] == lists[i]);
                assert(listed_domain(text_lines(before[i])[j]) == Some(d));
            } else {
                assert(listed_domain(text_lines(lists[k])[j]) == Some(d));
            }
        }
    }
}

/// The bytes of a fingerprint are written two digits each, the high one first.
pub proof fn bytes_in_hexadecimal(bytes: Seq<u8>, i: int)
    requires
        0 <= i < bytes.len(),
    ensures
        hex(bytes).len() == 2 * bytes.len(),
        hex(bytes)[2 * i] == "0123456789abcdef"@[bytes[i] as int / 16],
        hex(bytes)[2 * i + 1] == "0123456789abcdef"@[bytes[i] as int % 16],
    decreases bytes.len(),
{
    reveal_strlit("0123456789abcdef");
    crate::health::hex_is_twice_as_long(bytes);
    crate::health::hex_is_twice_as_long(bytes.drop_last());
    if i < bytes.len() - 1 {
        bytes_in_hexadecimal(bytes.drop_last(), i);
        assert(bytes.drop_last()[i] == bytes[i]);
    } else {
        digit_is_in_the_row(bytes[i] as int / 16);
        digit_is_in_the_row(bytes[i] as int % 16);
    }
}

proof fn digit_is_in_the_row(n: int)
    requires
        0 <= n < 16,
    ensures
        hex_digit(n) == "0123456789abcdef"@[n],
{
    reveal_strlit("0123456789abcdef");
}

/// A feature is named where it is on, and only there.
pub proof fn features_that_are_on(
    doh: bool,
    dot: bool,
    recursive: bool,
    blocking: bool,
    mdns: bool,
    dnssec: bool,
    name: Seq<char>,
)
    ensures
        feature_names(doh, dot, recursive, blocking, mdns, dnssec).contains(name) <==> {
            ||| doh && name == "doh"@
            ||| dot && name == "dot"@
            ||| recursive && name == "recursive"@
            ||| blocking && name == "blocking"@
            ||| mdns && name == "mdns"@
            ||| dnssec && name == "dnssec"@
        },
{
    let a = Seq::<Seq<char>>::empty();
    let b = crate::health::with_feature(a, doh, "doh"@);
    let c = crate::health::with_feature(b, dot, "dot"@);
    let d = crate::health::with_feature(c, recursive, "recursive"@);
    let e = crate::health::with_feature(d, blocking, "blocking"@);
    let f = crate::health::with_feature(e, mdns, "mdns"@);
    feature_is_added(a, doh, "doh"@, name);
    feature_is_added(b, dot, "dot"@, name);
    feature_is_added(c, recursive, "recursive"@, name);
    feature_is_added(d, blocking, "blocking"@, name);
    feature_is_added(e, mdns, "mdns"@, name);
    feature_is_added(f, dnssec, "dnssec"@, name);
}

proof fn feature_is_added(s: Seq<Seq<char>>, on: bool, feature: Seq<char>, name: Seq<char>)
    ensures
        crate::health::with_feature(s, on, feature).contains(name) <==> s.contains(name) || (on
            && name == feature),
{
    let t = s.push(feature);
    if s.contains(name) {
        let i = choose|i: int| 0 <= i < s.len() && s[i] == name;
        assert(t[i] == name);
    }
    assert(t[s.len() as int] == feature);
}

// ---------------------------------------------------------------------------
// Places
// ---------------------------------------------------------------------------

/// A file in a directory stands behind one slash.
pub proof fn file_behind_a_slash(dir: Seq<char>, name: Seq<char>)
    requires
        dir.len() > 0,
    ensures
        dir.last() == '/' ==> joined_path(dir, name) == dir + name,
        dir.last() != '/' ==> joined_path(dir, name) == dir + seq!['/'] + name,
        joined_path(Seq::empty(), name) == name,
{
    reveal_strlit("/");
    assert("/"@ =~= seq!['/']);
    assert(Seq::<char>::empty() + name =~= name);
}

/// The configuration is that of the user who called for the rights of the
/// system's, or else of the user at home, and of the system where that is no
/// one's home.
pub proof fn configuration_of_the_user(user: Seq<char>, home: Seq<char>, system: Seq<char>)
    requires
        user.len() > 0,
        user.last() != '/',
        home.len() > 0,
        home.last() != '/',
    ensures
        unix_config_dir(Some(user), Some(home), false, system) == "/home/"@ + user
            + "/.config/numa"@,
        unix_config_dir(Some(user), Some(home), true, system) == "/Users/"@ + user
            + "/.config/numa"@,
        !has_prefix(home, "/root"@) && !has_prefix(home, "/var/root"@) ==> unix_config_dir(
            None,
            Some(home),
            false,
            system,
        ) == home + "/.config/numa"@,
        has_prefix(home, "/root"@) || has_prefix(home, "/var/root"@) ==> unix_config_dir(
            None,
            Some(home),
            false,
            system,
        ) == system,
        unix_config_dir(None, None, false, system) == system,
{
    directory_of_a_user("/home/"@ + user);
    directory_of_a_user("/Users/"@ + user);
    directory_of_a_user(home);
}

proof fn directory_of_a_user(home: Seq<char>)
    requires
        home.len() > 0,
        home.last() != '/',
    ensures
        crate::paths::user_dir(home) == home + "/.config/numa"@,
{
    reveal_strlit("/");
    reveal_strlit(".config");
    reveal_strlit("numa");
    reveal_strlit("/.config/numa");
    let dir = home + "/"@ + ".config"@;
    assert(dir.last() == 'g');
    assert(dir + "/"@ + "numa"@ =~= home + "/.config/numa"@);
}

/// The data of a server is in the place that its system has for it; on Linux an
/// older place counts where it is there and the newer one is not.
pub proof fn data_of_the_system(dir: Seq<char>, legacy: bool, fhs: bool)
    ensures
        system_data_dir(Platform::Linux, None, legacy, fhs) == (if legacy && !fhs {
            "/usr/local/var/numa"@
        } else {
            "/var/lib/numa"@
        }),
        system_data_dir(Platform::Macos, None, legacy, fhs) == "/usr/local/var/numa"@,
        system_data_dir(Platform::Windows, Some(dir), legacy, fhs) == dir + "\\numa"@,
        system_data_dir(Platform::Windows, None, legacy, fhs) == "C:\\ProgramData\\numa"@,
{
    reveal_strlit("\\");
    reveal_strlit("numa");
    reveal_strlit("\\numa");
    reveal_strlit("C:\\ProgramData");
    reveal_strlit("C:\\ProgramData\\numa");
    assert(dir + "\\"@ + "numa"@ =~= dir + "\\numa"@);
    assert("C:\\ProgramData"@ + "\\"@ + "numa"@ =~= "C:\\ProgramData\\numa"@);
}

/// The name of a host is what is printed for it, without white space round it,
/// and `numa` where that is nothing.
pub proof fn name_of_the_host(printed: Seq<u8>)
    ensures
        valid_utf8(printed) && trimmed(decode_utf8(printed)).len() > 0 ==> host_name(Some(printed))
            == trimmed(decode_utf8(printed)),
        !valid_utf8(printed) || trimmed(decode_utf8(printed)).len() == 0 ==> host_name(
            Some(printed),
        ) == "numa"@,
        host_name(None) == "numa"@,
{
}

/// A configuration of a relative name is looked for at its own place, then with
/// the user's, then with the system's, and at last where it is suggested; one of
/// an absolute name only at its place.
pub proof fn places_of_a_configuration(
    path: Seq<char>,
    name: Seq<char>,
    config: Seq<char>,
    data: Seq<char>,
    suggested: Seq<char>,
)
    ensures
        candidates(path, None, config, data, suggested) == seq![path],
        ({
            let c = candidates(path, Some(name), config, data, suggested);
            &&& 3 <= c.len() <= 4
            &&& c[0] == path
            &&& c[1] == joined_path(config, name)
            &&& c[2] == joined_path(data, name)
            &&& c.contains(suggested)
            &&& c.len() == 4 ==> c[3] == suggested && suggested != c[0] && suggested != c[1]
                && suggested != c[2]
        }),
{
    let three = seq![path, joined_path(config, name), joined_path(data, name)];
    let c = candidates(path, Some(name), config, data, suggested);
    if c.len() == 4 {
        assert(c[3] == suggested);
        assert(three.contains(three[0]) && three.contains(three[1]) && three.contains(three[2]));
    }
}

// ---------------------------------------------------------------------------
// What programs of the host print
// ---------------------------------------------------------------------------

/// The first line with a part is found.
pub proof fn first_line_with(lines: Seq<Seq<char>>, part: Seq<char>, i: int)
    requires
        0 <= i <= lines.len(),
        forall|j: int| 0 <= j < i ==> !has_part(#[trigger] lines[j], part),
        i < lines.len() ==> has_part(lines[i], part),
    ensures
        i < lines.len() ==> first_with(lines, part) == Some(lines[i]),
        i == lines.len() ==> first_with(lines, part) is None,
    decreases lines.len(),
{
    if lines.len() > 0 && i > 0 {
        let rest = lines.drop_first();
        assert(!has_part(lines[0], part));
        assert forall|j: int| 0 <= j < i - 1 implies !has_part(#[trigger] rest[j], part) by {
            assert(rest[j] == lines[j + 1]);
        }
        if i < lines.len() {
            assert(rest[i - 1] == lines[i]);
        }
        first_line_with(rest, part, i - 1);
    }
}

/// The state of a service on Windows is the first line that tells it, and that
/// it is not installed where the system says so.
pub proof fn state_of_a_service(output: Seq<char>)
    ensures
        has_part(output, "1060"@) ==> sc_state(output) == "Service is not installed."@,
        !has_part(output, "1060"@) ==> match first_with(text_lines(output), "STATE"@) {
            Some(l) => sc_state(output) == trimmed(l),
            None => sc_state(output) == "unknown"@,
        },
{
}

/// The network services that are listed are those of each line, without the star
/// of one that is switched off.
pub proof fn listed_network_services(
    lines: Seq<Seq<char>>,
    stars: Seq<char>,
    name: Seq<char>,
)
    requires
        forall|i: int| 0 <= i < stars.len() ==> #[trigger] stars[i] == '*',
        name.len() == 0 || name[0] != '*',
    ensures
        trimmed(name).len() > 0 ==> named_services(lines.push(stars + name)) == named_services(
            lines,
        ).push(trimmed(name)),
        trimmed(name).len() == 0 ==> named_services(lines.push(stars + name)) == named_services(
            lines,
        ),
        named_services(Seq::empty()).len() == 0,
{
    leading_run_is_cut(stars, name, '*');
    assert(lines.push(stars + name).drop_last() =~= lines);
}

/// The program of a service is what the first line that tells it says.
pub proof fn program_of_a_service(line: Seq<char>, path: Seq<char>, rest: Seq<Seq<char>>)
    ensures
        named_program(seq!["program = "@ + path] + rest) == Some(path),
        !has_prefix(line, "program = "@) ==> named_program(seq![line] + rest) == named_program(rest),
        named_program(Seq::empty()) is None,
{
    prefix_and_rest("program = "@, path);
    let a = seq!["program = "@ + path] + rest;
    let b = seq![line] + rest;
    assert(a[0] == "program = "@ + path);
    assert(b[0] == line);
    assert(b.drop_first() =~= rest);
}

/// The certificates that are found are told by the lines with their fingerprint.
pub proof fn fingerprints_of_certificates(lines: Seq<Seq<char>>, line: Seq<char>, hash: Seq<char>)
    ensures
        fingerprints(lines.push("SHA-1 hash: "@ + hash)) == fingerprints(lines).push(trimmed(hash)),
        !has_prefix(line, "SHA-1 hash: "@) ==> fingerprints(lines.push(line)) == fingerprints(lines),
        fingerprints(Seq::empty()).len() == 0,
{
    prefix_and_rest("SHA-1 hash: "@, hash);
    assert(lines.push("SHA-1 hash: "@ + hash).drop_last() =~= lines);
    assert(lines.push(line).drop_last() =~= lines);
}

/// Of addresses that a network gave, the first is taken that is IPv4 and no
/// stub.
pub proof fn first_address_given(parts: Seq<Seq<char>>, i: int)
    requires
        0 <= i <= parts.len(),
        forall|j: int|
            0 <= j < i ==> stub_address(trimmed(#[trigger] parts[j])) || !(ip_text(
                trimmed(parts[j]),
            ) matches Some(IpAddr::V4(_))),
        i < parts.len() ==> !stub_address(trimmed(parts[i])) && (ip_text(
            trimmed(parts[i]),
        ) matches Some(IpAddr::V4(_))),
    ensures
        i < parts.len() ==> first_v4(parts) == Some(trimmed(parts[i])),
        i == parts.len() ==> first_v4(parts) is None,
    decreases parts.len(),
{
    if parts.len() > 0 && i > 0 {
        let rest = parts.drop_first();
        assert(stub_address(trimmed(parts[0])) || !(ip_text(trimmed(parts[0])) matches Some(
            IpAddr::V4(_),
        )));
        assert forall|j: int| 0 <= j < i - 1 implies stub_address(trimmed(#[trigger] rest[j])) || !(
        ip_text(trimmed(rest[j])) matches Some(IpAddr::V4(_))) by {
            assert(rest[j] == parts[j + 1]);
        }
        if i < parts.len() {
            assert(rest[i - 1] == parts[i]);
        }
        first_address_given(rest, i - 1);
    }
}

// ---------------------------------------------------------------------------
// Services of other systems
// ---------------------------------------------------------------------------

/// On a Mac the service is described with the path of its program, loaded anew,
/// and has to answer before the system is led here; if it does not, it is
/// unloaded and the whole stops.
pub proof fn service_on_a_mac(exe: Seq<char>, plist: Seq<char>, skip: bool)
    ensures
        ({
            let p = macos_service_plan(exe, plist, skip);
            let dest = "/Library/LaunchDaemons/com.numa.dns.plist"@;
            &&& p.len() == (if skip {
                5int
            } else {
                6
            })
            &&& p[1] == must(
                ActionView::WriteFile { path: dest, contents: replaced(plist, "{{exe_path}}"@, exe) },
            )
            &&& p[2] == may(run(seq!["launchctl"@, "bootout"@, "system"@, dest]))
            &&& p[3] == must(run(seq!["launchctl"@, "bootstrap"@, "system"@, dest]))
            &&& p[4].action is AwaitServer
            &&& next_of(p[4], Attempt::Failed) == (NextView::Stop {
                last: Some(run(seq!["launchctl"@, "bootout"@, "system"@, dest])),
            })
            &&& !skip ==> p[5] == should(ActionView::ConfigureDns)
        }),
{
}

/// On a Mac the service is started, stopped and taken out by name: stopping
/// unloads it, and taking it out leads the system back, unloads it and removes
/// its description.
pub proof fn service_off_a_mac()
    ensures
        ({
            let dest = "/Library/LaunchDaemons/com.numa.dns.plist"@;
            let unload = run(seq!["launchctl"@, "bootout"@, "system"@, dest]);
            &&& macos_start_plan().len() == 2
            &&& macos_start_plan()[0] == may(
                run(seq!["launchctl"@, "bootstrap"@, "system"@, dest]),
            )
            &&& macos_start_plan()[1] == must(
                run(seq!["launchctl"@, "kickstart"@, "system/com.numa.dns"@]),
            )
            &&& macos_stop_plan().len() == 1
            &&& macos_stop_plan()[0].action == unload
            &&& next_of(macos_stop_plan()[0], Attempt::Failed) is Stop
            &&& next_of(macos_stop_plan()[0], Attempt::Refused) == (NextView::GoOn { warn: true })
            &&& macos_removal_plan().len() == 3
            &&& macos_removal_plan()[0] == should(ActionView::RestoreDns)
            &&& macos_removal_plan()[1].action == unload
            &&& macos_removal_plan()[2].action matches ActionView::RemoveFile { path, .. } && path
                == dest
        }),
{
}

/// On Windows a service that is there is stopped first. The program is put in
/// its place unless it is there, registered, and the system is led here unless
/// that is to be skipped; the service is started last.
pub proof fn service_on_windows(h: &WindowsHost, skip: bool)
    ensures
        ({
            let p = h.installation(skip);
            let start = should(run(seq!["sc"@, "start"@, h.service@]));
            let lead = must(powershell(nrpt_rule_script()));
            &&& p.len() > 0
            &&& p.last() == start
            &&& h.registered ==> p[0] == should(ActionView::StopService)
            &&& !skip ==> p.len() > 1 && p[p.len() - 2] == lead
            &&& h.exe@ != h.service_exe@ ==> p.contains(
                must(ActionView::CopyFile { from: h.exe@, to: h.service_exe@ }),
            )
            &&& p.contains(must(crate::windows_install::sc_create(h.service@, h.service_exe@)))
        }),
{
    let p = h.installation(skip);
    let first = (if h.registered {
        seq![should(ActionView::StopService)]
    } else {
        Seq::empty()
    });
    let a = first + h.legacy();
    let b = a + h.placement();
    let c = b + registration_plan(h.service@, h.service_exe@);
    let d = if skip {
        Seq::empty()
    } else {
        seq![must(powershell(nrpt_rule_script()))]
    };
    assert(p == c + d + seq![should(sc_start(h.service@))]);
    if h.exe@ != h.service_exe@ {
        assert(h.placement()[1] == must(
            ActionView::CopyFile { from: h.exe@, to: h.service_exe@ },
        ));
        assert(p[a.len() as int + 1] == h.placement()[1]);
    }
    let r = registration_plan(h.service@, h.service_exe@);
    assert(p[b.len() as int] == r[0]);
}

/// On Windows the service is taken out of the list of services, its program is
/// removed, and the rule that leads the system here goes; what it had set up in
/// an older way is undone.
pub proof fn service_off_windows(h: &WindowsHost)
    ensures
        ({
            let p = h.removal();
            &&& p.len() >= 4
            &&& p[0] == should(ActionView::StopService)
            &&& p[1].action == run(seq!["sc"@, "delete"@, h.service@])
            &&& p[2].action matches ActionView::RemoveFile { path, .. } && path == h.service_exe@
            &&& p[3] == may(powershell(nrpt_removal_script()))
            &&& p.subrange(4, p.len() as int) == h.legacy()
            &&& sc_stop(h.service@) matches ActionView::Run { argv, .. } && argv == seq![
                "sc"@,
                "stop"@,
                h.service@,
            ]
        }),
{
    assert(h.removal().subrange(4, h.removal().len() as int) =~= h.legacy());
}

/// The filter for private addresses is on where the configuration says so. It
/// has the ranges that are configured, leaves no address out of them, and lets
/// those names through that are configured or were added.
pub proof fn filter_as_configured(
    f: RebindFilter,
    c: &Config,
    kept: Seq<Seq<char>>,
    i: int,
    e: Seq<char>,
)
    requires
        rebind_as_configured(f, c, kept),
    ensures
        f.enabled == c.server.rebind_protect,
        texts(f.range_strings@) == rebind_ranges(c),
        f.ranges.exclude_nets@.len() == 0,
        0 <= i < f.range_strings@.len() ==> f.ranges.include_nets@.len() == f.range_strings@.len()
            && entry_net(f.range_strings@[i]@) == Some(f.ranges.include_nets@[i]),
        f.allowlist@.config.contains(e) <==> exists|j: int|
            0 <= j < c.server.rebind_allowlist@.len() && normalized(
                (#[trigger] c.server.rebind_allowlist@[j])@,
            ) == e,
{
    seeds_of_a_list(c.server.rebind_allowlist@, kept, e);
}

proof fn seeds_of_a_list(seeds: Seq<String>, kept: Seq<Seq<char>>, e: Seq<char>)
    ensures
        no_domains().with_seeds(texts(seeds)).with_persisted(kept).config.contains(e)
            <==> exists|j: int| 0 <= j < seeds.len() && normalized((#[trigger] seeds[j])@) == e,
{
    let list = no_domains().with_seeds(texts(seeds));
    persisted_are_added(list, kept);
    seeds_are_configured(no_domains(), texts(seeds), e);
    let t = texts(seeds);
    if exists|i: int| 0 <= i < t.len() && normalized(#[trigger] t[i]) == e {
        let i = choose|i: int| 0 <= i < t.len() && normalized(#[trigger] t[i]) == e;
        assert(seeds[i]@ == t[i]);
    }
    if exists|j: int| 0 <= j < seeds.len() && normalized((#[trigger] seeds[j])@) == e {
        let j = choose|j: int| 0 <= j < seeds.len() && normalized((#[trigger] seeds[j])@) == e;
        assert(t[j] == seeds[j]@);
    }
}

proof fn persisted_are_added(list: DomainListView, kept: Seq<Seq<char>>)
    ensures
        list.with_persisted(kept).config == list.config,
    decreases kept.len(),
{
    if kept.len() > 0 {
        persisted_are_added(list, kept.drop_last());
    }
}

/// Blocking is on where the configuration says so. It starts with no lists
/// loaded; its exceptions are those that are configured and those that were
/// added, and the names that were added are blocked.
pub proof fn blocking_as_configured(
    b: BlocklistStore,
    c: &Config,
    allow: Seq<Seq<char>>,
    block: Seq<Seq<char>>,
    e: Seq<char>,
)
    requires
        blocklist_as_configured(b, c, allow, block),
    ensures
        b.enabled == c.blocking.enabled,
        b.domains@ == Set::<Seq<char>>::empty(),
        b.exceptions@.config.contains(e) <==> exists|j: int|
            0 <= j < c.blocking.allowlist@.len() && normalized(
                (#[trigger] c.blocking.allowlist@[j])@,
            ) == e,
        !b.extra@.config.contains(e),
        b.exceptions@ == no_domains().with_seeds(
            texts(c.blocking.allowlist@),
        ).with_persisted(allow),
        b.extra@ == no_domains().with_persisted(block),
{
    seeds_of_a_list(c.blocking.allowlist@, allow, e);
    assert(no_domains().with_seeds(Seq::<Seq<char>>::empty()) == no_domains());
    persisted_are_added(no_domains(), block);
}

/// A relay and a target that have an address of their own are reached there
/// without a lookup.
pub proof fn bootstrap_addresses_are_used(o: OdohView, host: Seq<char>, ip: IpAddr)
    requires
        o.relay_host != o.target_host,
    ensures
        (exists|i: int|
            0 <= i < o.overrides().len() && (#[trigger] o.overrides()[i]).host == host
                && o.overrides()[i].addrs == seq![ip]) <==> {
            ||| host == o.relay_host && o.relay_bootstrap is Some && o.relay_bootstrap->0.ip == ip
            ||| host == o.target_host && o.target_bootstrap is Some && o.target_bootstrap->0.ip
                == ip
        },
{
    let v = o.overrides();
    if let Some(r) = o.relay_bootstrap {
        if o.target_bootstrap is Some && text_less(o.target_host, o.relay_host) {
            assert(v[1].host == o.relay_host && v[1].addrs == seq![r.ip]);
        } else {
            assert(v[0].host == o.relay_host && v[0].addrs == seq![r.ip]);
        }
        assert(seq![r.ip][0] == r.ip);
    }
    if let Some(t) = o.target_bootstrap {
        if o.relay_bootstrap is Some && !text_less(o.target_host, o.relay_host) {
            assert(v[1].host == o.target_host && v[1].addrs == seq![t.ip]);
        } else {
            assert(v[0].host == o.target_host && v[0].addrs == seq![t.ip]);
        }
        assert(seq![t.ip][0] == t.ip);
    }
    assert(seq![ip][0] == ip);
}

/// What a server says of itself is what it is set up with and what it has
/// counted.
pub proof fn server_tells_of_itself(
    r: StatsResponse,
    ctx: &ServerCtx,
    i: StatsInputs,
    log_bytes: usize,
    now: u64,
)
    requires
        stats_are(r, ctx, i, log_bytes, now),
    ensures
        r.counters.of(&ctx.stats, now),
        ctx.upstream_mode is Recursive ==> r.upstream@ == "recursive (root hints)"@,
        !(ctx.upstream_mode is Recursive) ==> r.upstream@ == ctx.upstream_pool@.shown(),
        r.mode@ == (match ctx.upstream_mode {
            UpstreamMode::Auto => "auto"@,
            UpstreamMode::Forward => "forward"@,
            UpstreamMode::Recursive => "recursive"@,
            UpstreamMode::Odoh => "odoh"@,
        }),
        r.proxy_tld@ == ctx.proxy_tld@,
        r.dnssec == ctx.dnssec_enabled,
        r.lan_enabled == ctx.lan_enabled,
        r.blocking.enabled == ctx.blocklist.enabled,
        r.blocking.domains_loaded == ctx.blocklist.domains@.len() as usize,
        r.cache.entries == i.cache_entries,
        r.cache.max_entries == i.cache_max,
        r.memory.query_log_entries == ctx.query_log.entries@.len() as usize,
        r.overrides_active == i.overrides_active,
        r.lan_peers == i.lan_peers,
{
}

/// A service is listed with its address, and with the place that it comes from.
pub proof fn services_are_listed_with_their_source(
    l: ServiceListing,
    e: ServiceView,
    store: StoreView,
    secure: bool,
    tld: Seq<char>,
)
    requires
        lists(l, e, store, secure, tld),
    ensures
        l.entry@ == e,
        l.url@ == url_of(secure, e.name, tld),
        store.config.contains(e.name) ==> l.source@ == "config"@,
        !store.config.contains(e.name) ==> l.source@ == "api"@,
{
}

/// The servers that a network gave stand in braces, with commas between them, on
/// the line that names them.
pub proof fn servers_in_braces(front: Seq<char>, inner: Seq<char>)
    requires
        !front.contains('{'),
        !inner.contains('{'),
        inner.len() == 0 || inner.last() != '}',
        has_part(front + seq!['{'] + inner + seq!['}'], "domain_name_server"@),
    ensures
        dhcp_server(front + seq!['{'] + inner + seq!['}']) == first_v4(
            split_parts(trimmed(inner), ','),
        ),
{
    let tail = inner + seq!['}'];
    let line = front + seq!['{'] + inner + seq!['}'];
    assert(line =~= front + seq!['{'] + tail);
    assert(!tail.contains('{')) by {
        if tail.contains('{') {
            let i = choose|i: int| 0 <= i < tail.len() && tail[i] == '{';
            if i < inner.len() {
                assert(inner[i] == '{');
            }
        }
    }
    whole_is_one_part(front, '{');
    whole_is_one_part(tail, '{');
    parts_on_both_sides(front, tail, '{');
    assert(split_parts(line, '{') =~= seq![front, tail]);
    trailing_run_is_cut(inner, seq!['}'], '}');
}

} // verus!
