//! Installing the server as a system service: what the tools of each system
//! answer, and what follows from it.
use vstd::prelude::*;
use vstd::utf8::{decode_utf8, valid_utf8};

use crate::resolv_conf::{any_real, discover_linux, resolv_says, resolvectl_says};
use crate::scutil::{discover_macos, longest_first, ScutilView};
use crate::service_store::text_in;
use crate::system_dns::{
    all_trimmed, discover_windows, is_loopback_or_stub, marked_address, rules, stub_address,
    trimmed_lines, RuleView, SystemDnsInfo,
};
use crate::text::{
    chars_occur_at, chars_of, concat, concat3, contains, drop_prefix, has_part, has_prefix, lines,
    occurs_at, starts_with, text_lines, texts, trim, trim_start_char, trimmed, without_leading,
    without_prefix,
};

verus! {

// ---------------------------------------------------------------------------
// Discovery
// ---------------------------------------------------------------------------

/// What the system at hand was asked, and what it answered.
pub enum SystemReport<'a> {
    /// `resolv.conf`, the output of `resolvectl`, and the backup of `resolv.conf`.
    Linux { resolv: Option<&'a str>, resolvectl: Option<&'a str>, backup: Option<&'a str> },
    /// The output of `scutil --dns`.
    Macos { scutil: Option<&'a str> },
    /// The output of `ipconfig /all`.
    Windows { ipconfig: Option<&'a str> },
    /// A system that cannot be asked.
    Other,
}

/// What is known of the system's DNS: the default upstream and the rules.
pub open spec fn known_dns(report: SystemReport) -> (Option<Seq<char>>, Seq<RuleView>) {
    match report {
        SystemReport::Linux { resolv, resolvectl, backup } => (
            if resolv_says(resolv) is Some {
                resolv_says(resolv)
            } else if resolvectl_says(resolvectl) is Some {
                resolvectl_says(resolvectl)
            } else {
                resolv_says(backup)
            },
            Seq::empty(),
        ),
        SystemReport::Macos { scutil: Some(t) } => {
            let s = ScutilView::start().read(all_trimmed(text_lines(t@))).flushed();
            (s.default_upstream, longest_first(s.rules))
        },
        SystemReport::Windows { ipconfig: Some(t) } => (
            marked_address(all_trimmed(text_lines(t@)), "DNS Servers"@, "DNS-Server"@),
            Seq::empty(),
        ),
        _ => (None, Seq::empty()),
    }
}

/// What is known of the system's DNS from what the system answered.
pub fn discover_system_dns(report: SystemReport) -> (r: SystemDnsInfo)
    ensures
        (text_in(r.default_upstream), rules(r.forwarding_rules@)) == known_dns(report),
{
    match report {
        SystemReport::Linux { resolv, resolvectl, backup } => {
            let r = discover_linux(resolv, resolvectl, backup);
            assert(rules(r.forwarding_rules@) =~= Seq::<RuleView>::empty());
            r
        },
        SystemReport::Macos { scutil: Some(t) } => discover_macos(t),
        SystemReport::Windows { ipconfig: Some(t) } => {
            let r = discover_windows(t);
            assert(rules(r.forwarding_rules@) =~= Seq::<RuleView>::empty());
            r
        },
        _ => {
            let r = SystemDnsInfo { default_upstream: None, forwarding_rules: Vec::new() };
            assert(rules(r.forwarding_rules@) =~= Seq::<RuleView>::empty());
            r
        },
    }
}

// ---------------------------------------------------------------------------
// Windows
// ---------------------------------------------------------------------------

/// Whether a service is registered, by the answer to `sc query`: unless that
/// failed with error 1060, which says that there is no such service.
pub fn parse_sc_registered(exit_success: bool, stdout: &str) -> (b: bool)
    ensures
        b == (exit_success || !has_part(stdout@, "1060"@)),
{
    exit_success || !contains(stdout, "1060")
}

/// The first of some lines that holds a text.
pub open spec fn first_with(lines: Seq<Seq<char>>, part: Seq<char>) -> Option<Seq<char>>
    decreases lines.len(),
{
    if lines.len() == 0 {
        None
    } else if has_part(lines[0], part) {
        Some(lines[0])
    } else {
        first_with(lines.drop_first(), part)
    }
}

/// The state of a service, by the answer to `sc query`.
pub open spec fn sc_state(output: Seq<char>) -> Seq<char> {
    if has_part(output, "1060"@) {
        "Service is not installed."@
    } else {
        match first_with(text_lines(output), "STATE"@) {
            Some(l) => trimmed(l),
            None => "unknown"@,
        }
    }
}

/// The state of a service, by the answer to `sc query`.
pub fn parse_sc_state(sc_output: &str) -> (s: String)
    ensures
        s@ == sc_state(sc_output@),
{
    if contains(sc_output, "1060") {
        return "Service is not installed.".to_owned();
    }
    let v = lines(sc_output);
    let ghost all = text_lines(sc_output@);
    let mut i: usize = 0;
    assert(all.subrange(0, all.len() as int) =~= all);
    while i < v.len()
        invariant
            i <= v.len(),
            all == texts(v@),
            all == text_lines(sc_output@),
            !has_part(sc_output@, "1060"@),
            first_with(all, "STATE"@) == first_with(
                all.subrange(i as int, all.len() as int),
                "STATE"@,
            ),
        decreases v.len() - i,
    {
        let ghost rest = all.subrange(i as int, all.len() as int);
        assert(rest.len() > 0 && rest[0] == v@[i as int]@);
        assert(rest.drop_first() =~= all.subrange(i + 1, all.len() as int));
        if contains(v[i].as_str(), "STATE") {
            return trim(v[i].as_str());
        }
        i += 1;
    }
    assert(all.subrange(all.len() as int, all.len() as int).len() == 0);
    "unknown".to_owned()
}

/// Whether a command of `sc` has done its work, by its answer: it succeeded, or
/// failed with an error that says that there was nothing to do. Else a message.
pub fn sc_outcome(what: &str, success: bool, stdout: &str, harmless: &str) -> (r: Result<
    (),
    String,
>)
    ensures
        match r {
            Ok(_) => success || has_part(stdout@, harmless@),
            Err(m) => !success && !has_part(stdout@, harmless@) && m@ == "sc "@ + what@
                + " failed: "@ + trimmed(stdout@),
        },
{
    if success || contains(stdout, harmless) {
        return Ok(());
    }
    let head = concat3("sc ", what, " failed: ");
    Err(concat(head.as_str(), trim(stdout).as_str()))
}

/// What came of creating the service. That it exists already (1073) is no failure.
pub fn sc_create_outcome(success: bool, stdout: &str) -> (r: Result<(), String>)
    ensures
        r is Ok <==> success || has_part(stdout@, "1073"@),
        r matches Err(m) ==> m@ == "sc "@ + "create"@ + " failed: "@ + trimmed(stdout@),
{
    sc_outcome("create", success, stdout, "1073")
}

/// What came of starting the service. That it runs already (1056) or is disabled
/// (1058) is told like any other failure.
pub fn sc_start_outcome(success: bool, stdout: &str) -> (r: Result<(), String>)
    ensures
        r is Ok <==> success,
        r matches Err(m) ==> m@ == "sc "@ + "start"@ + " failed: "@ + trimmed(stdout@),
{
    if success {
        return Ok(());
    }
    let head = concat3("sc ", "start", " failed: ");
    Err(concat(head.as_str(), trim(stdout).as_str()))
}

/// What came of stopping the service. That it was not started (1062) or does
/// not exist (1060) is no failure.
pub fn sc_stop_outcome(success: bool, stdout: &str) -> (r: Result<(), String>)
    ensures
        r is Ok <==> success || has_part(stdout@, "1062"@) || has_part(stdout@, "1060"@),
        r matches Err(m) ==> m@ == "sc "@ + "stop"@ + " failed: "@ + trimmed(stdout@),
{
    if contains(stdout, "1062") {
        return Ok(());
    }
    sc_outcome("stop", success, stdout, "1060")
}

/// Whether the service has stopped, by the answer to `sc query`.
pub fn sc_stopped(stdout: &str) -> (b: bool)
    ensures
        b == (has_part(stdout@, "STOPPED"@) || has_part(stdout@, "1060"@)),
{
    contains(stdout, "STOPPED") || contains(stdout, "1060")
}

// ---------------------------------------------------------------------------
// macOS
// ---------------------------------------------------------------------------

/// A network service and the nameservers it had.
pub struct ServiceServers {
    pub service: String,
    pub servers: Vec<String>,
}

/// Whether some network service had a real upstream.
pub open spec fn some_real(v: Seq<ServiceServers>) -> bool {
    exists|i: int| 0 <= i < v.len() && any_real(texts((#[trigger] v[i]).servers@))
}

/// Whether some of these addresses is a real upstream.
fn has_real_server(servers: &Vec<String>) -> (b: bool)
    ensures
        b == any_real(texts(servers@)),
{
    let mut i: usize = 0;
    while i < servers.len()
        invariant
            i <= servers.len(),
            forall|j: int| 0 <= j < i ==> stub_address(#[trigger] texts(servers@)[j]),
        decreases servers.len() - i,
    {
        assert(texts(servers@)[i as int] == servers@[i as int]@);
        if !is_loopback_or_stub(servers[i].as_str()) {
            return true;
        }
        i += 1;
    }
    false
}

/// Whether a backup is worth restoring: some network service had a real
/// upstream. A backup without one would only lead back to the server.
pub fn backup_has_real_upstream_macos(servers: &Vec<ServiceServers>) -> (b: bool)
    ensures
        b == some_real(servers@),
{
    let mut i: usize = 0;
    while i < servers.len()
        invariant
            i <= servers.len(),
            forall|j: int| 0 <= j < i ==> !any_real(texts((#[trigger] servers@[j]).servers@)),
        decreases servers.len() - i,
    {
        if has_real_server(&servers[i].servers) {
            return true;
        }
        i += 1;
    }
    false
}

/// The addresses that are real upstreams, in their order.
pub open spec fn only_real(v: Seq<Seq<char>>) -> Seq<Seq<char>>
    decreases v.len(),
{
    if v.len() == 0 {
        Seq::empty()
    } else if stub_address(v.last()) {
        only_real(v.drop_last())
    } else {
        only_real(v.drop_last()).push(v.last())
    }
}

/// The addresses that are real upstreams: what is worth a backup.
pub fn real_servers(v: &Vec<String>) -> (r: Vec<String>)
    ensures
        texts(r@) == only_real(texts(v@)),
{
    let ghost all = texts(v@);
    let mut r: Vec<String> = Vec::new();
    let mut i: usize = 0;
    assert(all.subrange(0, 0) =~= Seq::<Seq<char>>::empty());
    assert(texts(r@) =~= Seq::<Seq<char>>::empty());
    while i < v.len()
        invariant
            i <= v.len(),
            all == texts(v@),
            texts(r@) == only_real(all.subrange(0, i as int)),
        decreases v.len() - i,
    {
        proof {
            let more = all.subrange(0, i + 1);
            assert(more.drop_last() =~= all.subrange(0, i as int));
            assert(more.last() == v@[i as int]@);
        }
        let ghost before = r@;
        if !is_loopback_or_stub(v[i].as_str()) {
            r.push(v[i].clone());
            assert(texts(r@) =~= texts(before).push(v@[i as int]@));
        }
        i += 1;
    }
    assert(all.subrange(0, all.len() as int) =~= all);
    r
}

/// A backup that was captured without stubs holds none.
pub proof fn captured_backup_is_real(v: Seq<Seq<char>>)
    ensures
        forall|i: int| 0 <= i < only_real(v).len() ==> !stub_address(#[trigger] only_real(v)[i]),
    decreases v.len(),
{
    if v.len() > 0 {
        captured_backup_is_real(v.drop_last());
        let before = only_real(v.drop_last());
        let all = only_real(v);
        assert forall|i: int| 0 <= i < all.len() implies !stub_address(#[trigger] all[i]) by {
            if i < before.len() {
                assert(all[i] == before[i]);
            }
        }
    }
}

/// The network services that lines name: without the stars before names, and
/// without lines of which nothing remains.
pub open spec fn named_services(lines: Seq<Seq<char>>) -> Seq<Seq<char>>
    decreases lines.len(),
{
    if lines.len() == 0 {
        Seq::empty()
    } else {
        let before = named_services(lines.drop_last());
        let n = trimmed(without_leading(lines.last(), '*'));
        if n.len() == 0 {
            before
        } else {
            before.push(n)
        }
    }
}

/// The network services in the output of `networksetup -listallnetworkservices`,
/// the first line of which is a remark.
pub fn parse_network_services(text: &str) -> (r: Vec<String>)
    ensures
        texts(r@) == (if text_lines(text@).len() == 0 {
            Seq::empty()
        } else {
            named_services(text_lines(text@).drop_first())
        }),
{
    let v = lines(text);
    let ghost all = text_lines(text@);
    let mut r: Vec<String> = Vec::new();
    assert(texts(r@) =~= Seq::<Seq<char>>::empty());
    if v.len() == 0 {
        return r;
    }
    let ghost tail = all.drop_first();
    let mut i: usize = 1;
    assert(tail.subrange(0, 0) =~= Seq::<Seq<char>>::empty());
    while i < v.len()
        invariant
            1 <= i <= v.len(),
            all == texts(v@),
            tail == all.drop_first(),
            texts(r@) == named_services(tail.subrange(0, i - 1)),
        decreases v.len() - i,
    {
        proof {
            let more = tail.subrange(0, i as int);
            assert(more.drop_last() =~= tail.subrange(0, i - 1));
            assert(more.last() == v@[i as int]@);
        }
        let n = trim(trim_start_char(v[i].as_str(), '*').as_str());
        let ghost before = r@;
        let ghost t = n@;
        if !n.as_str().is_empty() {
            r.push(n);
            assert(texts(r@) =~= texts(before).push(t));
        }
        i += 1;
    }
    assert(tail.subrange(0, tail.len() as int) =~= tail);
    r
}

/// The nameservers in the output of `networksetup -getdnsservers`: none where
/// it says that there are none.
pub fn parse_dns_servers(output: &str) -> (r: Vec<String>)
    ensures
        texts(r@) == (if has_part(trimmed(output@), "aren't any DNS Servers"@) {
            Seq::empty()
        } else {
            all_trimmed(text_lines(trimmed(output@)))
        }),
{
    let text = trim(output);
    if contains(text.as_str(), "aren't any DNS Servers") {
        let r: Vec<String> = Vec::new();
        assert(texts(r@) =~= Seq::<Seq<char>>::empty());
        return r;
    }
    trimmed_lines(text.as_str())
}

/// The arguments of `networksetup` that give a network service back its
/// nameservers: those it had, or the word for none.
pub fn restore_args(service: &str, servers: &Vec<String>) -> (r: Vec<String>)
    ensures
        texts(r@) == seq!["-setdnsservers"@, service@] + (if servers@.len() == 0 {
            seq!["Empty"@]
        } else {
            texts(servers@)
        }),
{
    let mut r: Vec<String> = Vec::new();
    r.push("-setdnsservers".to_owned());
    r.push(service.to_owned());
    if servers.len() == 0 {
        r.push("Empty".to_owned());
    }
    let mut i: usize = 0;
    let ghost head = r@;
    while i < servers.len()
        invariant
            i <= servers.len(),
            r@.len() == head.len() + i,
            forall|j: int| 0 <= j < head.len() ==> (#[trigger] r@[j]) == head[j],
            forall|j: int| 0 <= j < i ==> (#[trigger] r@[head.len() + j])@ == servers@[j]@,
        decreases servers.len() - i,
    {
        r.push(servers[i].clone());
        i += 1;
    }
    proof {
        let want = seq!["-setdnsservers"@, service@] + (if servers@.len() == 0 {
            seq!["Empty"@]
        } else {
            texts(servers@)
        });
        assert forall|j: int| 0 <= j < want.len() implies texts(r@)[j] == want[j] by {
            if j >= head.len() {
                assert(r@[head.len() + (j - head.len())]@ == servers@[j - head.len()]@);
            } else {
                assert(r@[j] == head[j]);
            }
        }
        assert(texts(r@) =~= want);
    }
    r
}

/// `std::str::from_utf8`: the text that bytes encode in UTF-8, where they do.
#[verifier::external_body]
pub(crate) fn utf8_text(bytes: &[u8]) -> (r: Option<String>)
    ensures
        match r {
            Some(s) => valid_utf8(bytes@) && s@ == decode_utf8(bytes@),
            None => !valid_utf8(bytes@),
        },
{
    std::str::from_utf8(bytes).ok().map(|s| s.to_owned())
}

/// What is wrong with the answer of `launchctl print`.
#[derive(Debug, Clone, Copy, PartialEq, Eq, Structural)]
pub enum LaunchctlError {
    /// It is no UTF-8 text.
    InvalidUtf8,
    /// It names no program.
    ProgramMissing,
}

/// The program that the first line that names one names.
pub open spec fn named_program(lines: Seq<Seq<char>>) -> Option<Seq<char>>
    decreases lines.len(),
{
    if lines.len() == 0 {
        None
    } else if has_prefix(lines[0], "program = "@) {
        Some(without_prefix(lines[0], "program = "@))
    } else {
        named_program(lines.drop_first())
    }
}

/// The program that the answer of `launchctl print` names.
pub fn parse_launchctl_program(stdout: &[u8]) -> (r: Result<String, LaunchctlError>)
    ensures
        match r {
            Ok(s) => valid_utf8(stdout@) && named_program(
                all_trimmed(text_lines(decode_utf8(stdout@))),
            ) == Some(s@),
            Err(LaunchctlError::InvalidUtf8) => !valid_utf8(stdout@),
            Err(LaunchctlError::ProgramMissing) => valid_utf8(stdout@) && named_program(
                all_trimmed(text_lines(decode_utf8(stdout@))),
            ) is None,
        },
{
    let text = match utf8_text(stdout) {
        Some(t) => t,
        None => {
            return Err(LaunchctlError::InvalidUtf8);
        },
    };
    let v = trimmed_lines(text.as_str());
    let ghost all = texts(v@);
    let mut i: usize = 0;
    assert(all.subrange(0, all.len() as int) =~= all);
    while i < v.len()
        invariant
            i <= v.len(),
            all == texts(v@),
            valid_utf8(stdout@),
            all == all_trimmed(text_lines(decode_utf8(stdout@))),
            named_program(all) == named_program(all.subrange(i as int, all.len() as int)),
        decreases v.len() - i,
    {
        let ghost rest = all.subrange(i as int, all.len() as int);
        assert(rest.len() > 0 && rest[0] == v@[i as int]@);
        assert(rest.drop_first() =~= all.subrange(i + 1, all.len() as int));
        if starts_with(v[i].as_str(), "program = ") {
            return Ok(drop_prefix(v[i].as_str(), "program = "));
        }
        i += 1;
    }
    assert(all.subrange(all.len() as int, all.len() as int).len() == 0);
    Err(LaunchctlError::ProgramMissing)
}

/// A text with each occurrence of `pat` replaced by `with`, from the left.
pub open spec fn replaced(s: Seq<char>, pat: Seq<char>, with: Seq<char>) -> Seq<char>
    decreases s.len(),
{
    if pat.len() == 0 || s.len() == 0 {
        s
    } else if occurs_at(s, pat, 0) {
        with + replaced(s.subrange(pat.len() as int, s.len() as int), pat, with)
    } else {
        seq![s[0]] + replaced(s.drop_first(), pat, with)
    }
}

/// A service template with the path of the program in the place for it.
pub fn replace_exe_path(service: &str, exe_path: &str) -> (r: String)
    ensures
        r@ == replaced(service@, "{{exe_path}}"@, exe_path@),
{
    let s = chars_of(service);
    let pat = chars_of("{{exe_path}}");
    proof {
        reveal_strlit("{{exe_path}}");
    }
    let n: usize = s.len();
    let mut out = String::new();
    let mut i: usize = 0;
    assert(s@.subrange(0, n as int) =~= s@);
    assert(out@ + replaced(s@, pat@, exe_path@) =~= replaced(s@, pat@, exe_path@));
    while i < n
        invariant
            s@ == service@,
            pat@ == "{{exe_path}}"@,
            pat@.len() == 12,
            n == s.len(),
            i <= n,
            replaced(service@, pat@, exe_path@) == out@ + replaced(
                s@.subrange(i as int, n as int),
                pat@,
                exe_path@,
            ),
        decreases n - i,
    {
        let ghost rest = s@.subrange(i as int, n as int);
        let ghost before = out@;
        assert(rest.len() == n - i);
        proof {
            if occurs_at(s@, pat@, i as int) {
                assert(rest.subrange(0, pat@.len() as int) =~= s@.subrange(
                    i as int,
                    i + pat@.len(),
                ));
            }
            if occurs_at(rest, pat@, 0) {
                assert(s@.subrange(i as int, i + pat@.len()) =~= rest.subrange(
                    0,
                    pat@.len() as int,
                ));
            }
        }
        if chars_occur_at(s.as_slice(), pat.as_slice(), i) {
            out.append(exe_path);
            proof {
                assert(rest.subrange(pat@.len() as int, rest.len() as int) =~= s@.subrange(
                    i + pat@.len(),
                    n as int,
                ));
                let tail = replaced(s@.subrange(i + pat@.len(), n as int), pat@, exe_path@);
                assert(before + (exe_path@ + tail) =~= before + exe_path@ + tail);
            }
            i += 12;
        } else {
            out.push(s[i]);
            proof {
                assert(rest[0] == s@[i as int]);
                assert(rest.drop_first() =~= s@.subrange(i + 1, n as int));
                let tail = replaced(s@.subrange(i + 1, n as int), pat@, exe_path@);
                assert(before + (seq![rest[0]] + tail) =~= before.push(rest[0]) + tail);
            }
            i += 1;
        }
    }
    assert(s@.subrange(n as int, n as int).len() == 0);
    assert(out@ + s@.subrange(n as int, n as int) =~= out@);
    out
}

// ---------------------------------------------------------------------------
// Linux
// ---------------------------------------------------------------------------

/// A store of certificates that the system trusts: its name, where it takes
/// certificates from, and the commands that make it take notice.
pub struct LinuxTrustStore {
    pub name: &'static str,
    pub anchor_dir: &'static str,
    pub anchor_file: &'static str,
    pub refresh_install: Vec<String>,
    pub refresh_uninstall: Vec<String>,
}

/// A command and an argument.
fn command2(a: &str, b: &str) -> (v: Vec<String>)
    ensures
        texts(v@) == seq![a@, b@],
{
    let mut v: Vec<String> = Vec::new();
    v.push(a.to_owned());
    v.push(b.to_owned());
    assert(texts(v@) =~= seq![a@, b@]);
    v
}

/// The stores that are known, in the order in which they are looked for.
pub fn linux_trust_stores() -> (v: Vec<LinuxTrustStore>)
    ensures
        v@.len() == 3,
        v@[0].name@ == "debian"@,
        v@[0].anchor_dir@ == "/usr/local/share/ca-certificates"@,
        v@[0].anchor_file@ == "numa-local-ca.crt"@,
        texts(v@[0].refresh_install@) == seq!["update-ca-certificates"@],
        texts(v@[0].refresh_uninstall@) == seq!["update-ca-certificates"@, "--fresh"@],
        v@[1].name@ == "pki"@,
        v@[1].anchor_dir@ == "/etc/pki/ca-trust/source/anchors"@,
        v@[1].anchor_file@ == "numa-local-ca.pem"@,
        texts(v@[1].refresh_install@) == seq!["update-ca-trust"@, "extract"@],
        texts(v@[1].refresh_uninstall@) == seq!["update-ca-trust"@, "extract"@],
        v@[2].name@ == "p11kit"@,
        v@[2].anchor_dir@ == "/etc/ca-certificates/trust-source/anchors"@,
        v@[2].anchor_file@ == "numa-local-ca.pem"@,
        texts(v@[2].refresh_install@) == seq!["trust"@, "extract-compat"@],
        texts(v@[2].refresh_uninstall@) == seq!["trust"@, "extract-compat"@],
{
    let mut one: Vec<String> = Vec::new();
    one.push("update-ca-certificates".to_owned());
    assert(texts(one@) =~= seq!["update-ca-certificates"@]);
    let mut v: Vec<LinuxTrustStore> = Vec::new();
    v.push(
        LinuxTrustStore {
            name: "debian",
            anchor_dir: "/usr/local/share/ca-certificates",
            anchor_file: "numa-local-ca.crt",
            refresh_install: one,
            refresh_uninstall: command2("update-ca-certificates", "--fresh"),
        },
    );
    v.push(
        LinuxTrustStore {
            name: "pki",
            anchor_dir: "/etc/pki/ca-trust/source/anchors",
            anchor_file: "numa-local-ca.pem",
            refresh_install: command2("update-ca-trust", "extract"),
            refresh_uninstall: command2("update-ca-trust", "extract"),
        },
    );
    v.push(
        LinuxTrustStore {
            name: "p11kit",
            anchor_dir: "/etc/ca-certificates/trust-source/anchors",
            anchor_file: "numa-local-ca.pem",
            refresh_install: command2("trust", "extract-compat"),
            refresh_uninstall: command2("trust", "extract-compat"),
        },
    );
    v
}

/// The first store whose directory is there.
pub fn detect_linux_trust_store(present: &Vec<bool>) -> (r: Option<usize>)
    ensures
        match r {
            Some(i) => i < present@.len() && present@[i as int] && forall|j: int|
                0 <= j < i ==> !(#[trigger] present@[j]),
            None => forall|j: int| 0 <= j < present@.len() ==> !(#[trigger] present@[j]),
        },
{
    let mut i: usize = 0;
    while i < present.len()
        invariant
            i <= present.len(),
            forall|j: int| 0 <= j < i ==> !(#[trigger] present@[j]),
        decreases present.len() - i,
    {
        if present[i] {
            return Some(i);
        }
        i += 1;
    }
    None
}

/// Whether any user can reach a file, by the modes of the directories above it,
/// nothing standing for one that cannot be looked at: each grants execution to
/// others.
pub fn path_world_traversable(modes: &Vec<Option<u32>>) -> (b: bool)
    ensures
        b == forall|i: int|
            0 <= i < modes@.len() ==> ((#[trigger] modes@[i]) matches Some(m) && m % 2 == 1),
{
    let mut i: usize = 0;
    while i < modes.len()
        invariant
            i <= modes.len(),
            forall|j: int|
                0 <= j < i ==> ((#[trigger] modes@[j]) matches Some(m) && m % 2 == 1),
        decreases modes.len() - i,
    {
        match modes[i] {
            Some(m) => {
                if m % 2 != 1 {
                    return false;
                }
            },
            None => {
                return false;
            },
        }
        i += 1;
    }
    true
}

/// The message about a system on which something cannot be done.
pub fn unsupported_os_err(op: &str) -> (s: String)
    ensures
        s@ == op@
            + " not supported on this OS — run `numa` directly under an rc.d/init script and set /etc/resolv.conf to 127.0.0.1 manually"@,
{
    concat(
        op,
        " not supported on this OS — run `numa` directly under an rc.d/init script and set /etc/resolv.conf to 127.0.0.1 manually",
    )
}

} // verus!
