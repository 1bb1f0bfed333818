//! The service of the server on any system: installing, starting, stopping,
//! restarting and removing it, and what is told about it.
use vstd::prelude::*;

use crate::linux_install::{
    install_service_linux, linux_removal_plan, linux_service_plan, linux_start_plan,
    linux_stop_plan, start_service_linux, stop_service_linux, uninstall_service_linux,
    SYSTEMD_UNIT,
};
use crate::macos_install::{
    install_service_macos, macos_removal_plan, macos_restart_plan, macos_service_plan,
    macos_start_plan, macos_stop_plan, restart_service_macos, start_service_macos,
    stop_service_macos, uninstall_service_macos, PLIST_DEST,
};
use crate::service_control::{parse_sc_state, sc_state, unsupported_os_err};
use crate::steps::{
    add_must, add_should, add_steps, default_config_plan, must, next_of, run, run3, should, steps,
    write_default_config, Action, ActionView, Attempt, DefaultConfig, Step, StepView,
};
use crate::text::{concat, concat3, decimal, decimal_string, lines, text_lines, texts};
use crate::windows_install::{
    adapters_reset, nrpt_rule_script, powershell, registration_plan, sc_start, sc_stop,
    start_service_scm, stop_command, WindowsHost,
};

verus! {

/// The host of the service: the program that runs, the description of the service,
/// the default configuration and whether the service is installed, or what else
/// its system needs.
pub enum Host<'a> {
    /// Also whether the account of the service can reach the program.
    Linux {
        exe: &'a str,
        traversable: bool,
        unit: &'a str,
        config: DefaultConfig<'a>,
        installed: bool,
    },
    Macos { exe: &'a str, plist: &'a str, config: DefaultConfig<'a>, installed: bool },
    Windows(&'a WindowsHost),
    Other,
}

/// The message about a system on which something cannot be done.
pub open spec fn unsupported(op: Seq<char>) -> Seq<char> {
    op
        + " not supported on this OS — run `numa` directly under an rc.d/init script and set /etc/resolv.conf to 127.0.0.1 manually"@
}

/// What is to be done on a host, or the message.
pub open spec fn planned(r: Result<Vec<Step>, String>) -> Result<Seq<StepView>, Seq<char>> {
    match r {
        Ok(v) => Ok(steps(v@)),
        Err(m) => Err(m@),
    }
}

/// The steps that install the service.
pub open spec fn install_plan(host: Host, skip_system_dns: bool) -> Result<Seq<StepView>, Seq<char>> {
    match host {
        Host::Linux { exe, traversable, unit, config, .. } => Ok(
            linux_service_plan(exe@, traversable, unit@, skip_system_dns) + default_config_plan(
                config,
            ),
        ),
        Host::Macos { exe, plist, config, .. } => Ok(
            macos_service_plan(exe@, plist@, skip_system_dns) + default_config_plan(config),
        ),
        Host::Windows(h) => Ok(h.installation(skip_system_dns)),
        Host::Other => Err(unsupported("service installation"@)),
    }
}

/// The steps that install the service so that it starts with the system. The DNS
/// of the host can be left as it is. Where there is no configuration, the default
/// one is written; on Windows there is none to write.
pub fn install_service(host: Host, skip_system_dns: bool) -> (r: Result<Vec<Step>, String>)
    ensures
        planned(r) == install_plan(host, skip_system_dns),
{
    match host {
        Host::Linux { exe, traversable, unit, config, .. } => {
            let mut v = install_service_linux(exe, traversable, unit, skip_system_dns);
            add_steps(&mut v, write_default_config(&config));
            Ok(v)
        },
        Host::Macos { exe, plist, config, .. } => {
            let mut v = install_service_macos(exe, plist, skip_system_dns);
            add_steps(&mut v, write_default_config(&config));
            Ok(v)
        },
        Host::Windows(h) => Ok(h.install_windows(skip_system_dns)),
        Host::Other => Err(unsupported_os_err("service installation")),
    }
}

/// The steps that take the service away.
pub open spec fn removal_plan(host: Host) -> Result<Seq<StepView>, Seq<char>> {
    match host {
        Host::Linux { .. } => Ok(linux_removal_plan()),
        Host::Macos { .. } => Ok(macos_removal_plan()),
        Host::Windows(h) => Ok(h.removal()),
        Host::Other => Err(unsupported("service uninstallation"@)),
    }
}

/// The steps that take the service away.
pub fn uninstall_service(host: Host) -> (r: Result<Vec<Step>, String>)
    ensures
        planned(r) == removal_plan(host),
{
    match host {
        Host::Linux { .. } => Ok(uninstall_service_linux()),
        Host::Macos { .. } => Ok(uninstall_service_macos()),
        Host::Windows(h) => Ok(h.uninstall_windows()),
        Host::Other => Err(unsupported_os_err("service uninstallation")),
    }
}

/// The steps that start the service.
pub open spec fn start_plan(host: Host, skip_system_dns: bool) -> Result<Seq<StepView>, Seq<char>> {
    match host {
        Host::Linux { installed: true, .. } => Ok(linux_start_plan()),
        Host::Macos { installed: true, .. } => Ok(macos_start_plan()),
        Host::Windows(h) => if h.registered {
            Ok(seq![must(sc_start(h.service@))])
        } else {
            install_plan(host, skip_system_dns)
        },
        Host::Other => Err(unsupported("service start"@)),
        _ => install_plan(host, skip_system_dns),
    }
}

/// The steps that start the service. Where it is installed, the system is told to
/// start it, and nothing else; where it is not, it is installed.
pub fn start_service(host: Host, skip_system_dns: bool) -> (r: Result<Vec<Step>, String>)
    ensures
        planned(r) == start_plan(host, skip_system_dns),
{
    match host {
        Host::Linux { installed: true, .. } => Ok(start_service_linux()),
        Host::Macos { installed: true, .. } => Ok(start_service_macos()),
        Host::Windows(h) => {
            if h.registered {
                let mut v: Vec<Step> = Vec::new();
                add_must(&mut v, start_service_scm(h.service.as_str()));
                assert(steps(v@) =~= seq![must(sc_start(h.service@))]);
                return Ok(v);
            }
            install_service(host, skip_system_dns)
        },
        Host::Other => Err(unsupported_os_err("service start")),
        _ => install_service(host, skip_system_dns),
    }
}

/// The steps that stop the service.
pub open spec fn stop_plan(host: Host) -> Result<Seq<StepView>, Seq<char>> {
    match host {
        Host::Linux { .. } => Ok(linux_stop_plan()),
        Host::Macos { .. } => Ok(macos_stop_plan()),
        Host::Windows(h) => Ok(seq![must(sc_stop(h.service@))]),
        Host::Other => Err(unsupported("service stop"@)),
    }
}

/// The steps that stop the service. It stays installed.
pub fn stop_service(host: Host) -> (r: Result<Vec<Step>, String>)
    ensures
        planned(r) == stop_plan(host),
{
    match host {
        Host::Linux { .. } => Ok(stop_service_linux()),
        Host::Macos { .. } => Ok(stop_service_macos()),
        Host::Windows(h) => {
            let mut v: Vec<Step> = Vec::new();
            add_must(&mut v, stop_command(h.service.as_str()));
            assert(steps(v@) =~= seq![must(sc_stop(h.service@))]);
            Ok(v)
        },
        Host::Other => Err(unsupported_os_err("service stop")),
    }
}

/// The steps that restart the service. On macOS, `program` is the one that
/// launchd will start, if it knows the service.
pub fn restart_service(host: Host, program: Option<&str>) -> (r: Result<Vec<Step>, String>)
    ensures
        planned(r) == (match host {
            Host::Linux { .. } => Ok(
                seq![must(run(seq!["systemctl"@, "restart"@, "numa"@]))],
            ),
            Host::Macos { .. } => match program {
                Some(p) => Ok(macos_restart_plan(p@)),
                None => Err(
                    "Service is not installed. Run 'sudo numa service start' first."@,
                ),
            },
            Host::Windows(h) => Ok(
                seq![should(ActionView::StopService), must(sc_start(h.service@))],
            ),
            Host::Other => Err(unsupported("service restart"@)),
        }),
{
    let mut v: Vec<Step> = Vec::new();
    match host {
        Host::Linux { .. } => {
            add_must(&mut v, run3("systemctl", "restart", "numa"));
            assert(steps(v@) =~= seq![must(run(seq!["systemctl"@, "restart"@, "numa"@]))]);
            Ok(v)
        },
        Host::Macos { .. } => match program {
            Some(p) => Ok(restart_service_macos(p)),
            None => Err(
                "Service is not installed. Run 'sudo numa service start' first.".to_owned(),
            ),
        },
        Host::Windows(h) => {
            add_should(&mut v, Action::StopService);
            add_must(&mut v, start_service_scm(h.service.as_str()));
            assert(steps(v@) =~= seq![should(ActionView::StopService), must(sc_start(h.service@))]);
            Ok(v)
        },
        Host::Other => Err(unsupported_os_err("service restart")),
    }
}

/// Lines set in from the left, and a blank one after them.
pub open spec fn set_in(ls: Seq<Seq<char>>) -> Seq<char>
    decreases ls.len(),
{
    if ls.len() == 0 {
        "\n"@
    } else {
        "  "@ + ls[0] + "\n"@ + set_in(ls.drop_first())
    }
}

fn set_in_lines(text: &str) -> (s: String)
    ensures
        s@ == set_in(text_lines(text@)),
{
    let v = lines(text);
    let ghost all = text_lines(text@);
    let mut s = "\n".to_owned();
    let mut i: usize = v.len();
    assert(all.subrange(all.len() as int, all.len() as int).len() == 0);
    while i > 0
        invariant
            i <= v.len(),
            all == texts(v@),
            s@ == set_in(all.subrange(i as int, all.len() as int)),
        decreases i,
    {
        i -= 1;
        proof {
            let rest = all.subrange(i as int, all.len() as int);
            assert(rest[0] == v@[i as int]@);
            assert(rest.drop_first() =~= all.subrange(i + 1, all.len() as int));
        }
        let head = concat3("  ", v[i].as_str(), "\n");
        s = concat(head.as_str(), s.as_str());
    }
    assert(all.subrange(0, all.len() as int) =~= all);
    s
}

/// What a system says of the service.
pub enum StatusReport<'a> {
    /// The output of `systemctl status`.
    Linux { output: &'a str },
    /// The output of `launchctl print`, where that succeeded.
    Macos { output: Option<&'a str> },
    /// The output of `sc query`.
    Windows { output: &'a str },
    Other,
}

/// What is told of the service.
pub open spec fn status_shown(report: StatusReport) -> Result<Seq<char>, Seq<char>> {
    match report {
        StatusReport::Linux { output } => Ok(
            if output@.len() == 0 {
                "  Numa service is not installed.\n\n"@
            } else {
                set_in(text_lines(output@))
            },
        ),
        StatusReport::Macos { output: Some(t) } => Ok(
            "  Numa service is loaded.\n\n"@ + set_in(text_lines(t@)),
        ),
        StatusReport::Macos { output: None } => Ok("  Numa service is not installed.\n\n"@),
        StatusReport::Windows { output } => Ok("  "@ + sc_state(output@) + "\n\n"@),
        StatusReport::Other => Err(unsupported("service status"@)),
    }
}

/// What is told of the service, by what the system says of it.
pub fn service_status(report: StatusReport) -> (r: Result<String, String>)
    ensures
        match (r, status_shown(report)) {
            (Ok(s), Ok(t)) => s@ == t,
            (Err(s), Err(t)) => s@ == t,
            _ => false,
        },
{
    match report {
        StatusReport::Linux { output } => {
            if output.is_empty() {
                Ok("  Numa service is not installed.\n\n".to_owned())
            } else {
                Ok(set_in_lines(output))
            }
        },
        StatusReport::Macos { output: Some(t) } => Ok(
            concat("  Numa service is loaded.\n\n", set_in_lines(t).as_str()),
        ),
        StatusReport::Macos { output: None } => Ok(
            "  Numa service is not installed.\n\n".to_owned(),
        ),
        StatusReport::Windows { output } => Ok(
            concat3("  ", parse_sc_state(output).as_str(), "\n\n"),
        ),
        StatusReport::Other => Err(unsupported_os_err("service status")),
    }
}

/// What is told after an installation: whether the DNS of the host leads to the
/// server, where its pages are, and how it is removed.
pub open spec fn install_summary(skip_system_dns: bool, windows: bool, api_port: u16) -> Seq<char> {
    (if skip_system_dns {
        "\nNuma is running — system DNS unchanged; point clients at 127.0.0.1 yourself.\n\n"@
    } else {
        "\nNuma is live — all DNS on this machine now resolves through it.\n\n"@
    }) + "  Dashboard  https://numa.numa  (or http://127.0.0.1:"@ + decimal(api_port as nat) + ")\n"@
        + "  Remove     "@ + (if windows {
        "numa uninstall"@
    } else {
        "sudo numa uninstall"@
    }) + "  # restores original DNS\n"@
}

/// What is told after an installation.
pub fn print_install_summary(skip_system_dns: bool, windows: bool, api_port: u16) -> (s: String)
    ensures
        s@ == install_summary(skip_system_dns, windows, api_port),
{
    let mut s = if skip_system_dns {
        "\nNuma is running — system DNS unchanged; point clients at 127.0.0.1 yourself.\n\n".to_owned()
    } else {
        "\nNuma is live — all DNS on this machine now resolves through it.\n\n".to_owned()
    };
    s.append("  Dashboard  https://numa.numa  (or http://127.0.0.1:");
    s.append(decimal_string(api_port as u64).as_str());
    s.append(")\n");
    s.append("  Remove     ");
    s.append(
        if windows {
            "numa uninstall"
        } else {
            "sudo numa uninstall"
        },
    );
    s.append("  # restores original DNS\n");
    s
}

/// Whether a step leads the DNS of the host to the server.
pub open spec fn leads_here(s: StepView) -> bool {
    s.action is ConfigureDns || s.action == powershell(nrpt_rule_script())
}

proof fn other_programs(a: ActionView, program: Seq<char>)
    requires
        a matches ActionView::Run { argv, .. } && argv.len() > 0 && argv[0] == program,
        program == "sc"@ || program == "reg"@ || program == "netsh"@ || program == "systemctl"@
            || program == "launchctl"@,
    ensures
        a != powershell(nrpt_rule_script()),
{
    reveal_strlit("powershell");
    reveal_strlit("sc");
    reveal_strlit("reg");
    reveal_strlit("netsh");
    reveal_strlit("systemctl");
    reveal_strlit("launchctl");
    assert(powershell(nrpt_rule_script())->Run_argv[0] == "powershell"@);
}

proof fn resets_do_not_lead_here(names: Seq<Seq<char>>, i: int)
    requires
        0 <= i < adapters_reset(names).len(),
    ensures
        !leads_here(adapters_reset(names)[i]),
    decreases names.len(),
{
    if names.len() > 0 {
        let before = adapters_reset(names.drop_last());
        if i < before.len() {
            resets_do_not_lead_here(names.drop_last(), i);
            assert(adapters_reset(names)[i] == before[i]);
        } else {
            other_programs(adapters_reset(names)[i].action, "netsh"@);
        }
    }
}

proof fn unwinding_does_not_lead_here(h: &WindowsHost, i: int)
    requires
        0 <= i < h.legacy().len(),
    ensures
        !leads_here(h.legacy()[i]),
{
    if let Some(v) = h.adapters {
        let names = texts(v@);
        let n = adapters_reset(names).len() as int;
        if i == 0 {
            other_programs(h.legacy()[0].action, "reg"@);
        } else if i <= n {
            resets_do_not_lead_here(names, i - 1);
            assert(h.legacy()[i] == adapters_reset(names)[i - 1]);
        } else {
            assert(h.legacy()[i].action is RemoveFile);
        }
    }
}

/// Where the DNS of the host is to be left as it is, no step of an installation
/// leads it to the server.
pub proof fn skipping_leaves_dns_alone(host: Host)
    ensures
        install_plan(host, true) matches Ok(p) ==> forall|i: int|
            0 <= i < p.len() ==> !leads_here(#[trigger] p[i]),
{
    if let Ok(p) = install_plan(host, true) {
        assert forall|i: int| 0 <= i < p.len() implies !leads_here(#[trigger] p[i]) by {
            match host {
                Host::Windows(h) => {
                    let a = if h.registered {
                        1int
                    } else {
                        0
                    };
                    let b = a + h.legacy().len();
                    let c = b + h.placement().len();
                    if i < a {
                    } else if i < b {
                        assert(p[i] == h.legacy()[i - a]);
                        unwinding_does_not_lead_here(h, i - a);
                    } else if i < c {
                        assert(p[i] == h.placement()[i - b]);
                    } else if i < c + 3 {
                        assert(p[i] == registration_plan(h.service@, h.service_exe@)[i - c]);
                        other_programs(p[i].action, "sc"@);
                    } else {
                        assert(p[i] == should(sc_start(h.service@)));
                        other_programs(p[i].action, "sc"@);
                    }
                },
                Host::Linux { .. } => {
                    if p[i].action is Run {
                        other_programs(p[i].action, "systemctl"@);
                    }
                },
                Host::Macos { .. } => {
                    if p[i].action is Run {
                        other_programs(p[i].action, "launchctl"@);
                    }
                },
                Host::Other => {},
            }
        }
    }
}

/// Else some step of an installation does.
pub proof fn dns_is_led_here(host: Host)
    ensures
        install_plan(host, false) matches Ok(p) ==> exists|i: int|
            0 <= i < p.len() && leads_here(#[trigger] p[i]),
{
    if let Ok(p) = install_plan(host, false) {
        match host {
            Host::Windows(h) => {
                assert(leads_here(p[p.len() - 2]));
            },
            Host::Linux { exe, traversable, unit, .. } => {
                let n = linux_service_plan(exe@, traversable, unit@, false).len();
                assert(leads_here(p[n - 2]));
            },
            Host::Macos { exe, plist, .. } => {
                let n = macos_service_plan(exe@, plist@, false).len();
                assert(leads_here(p[n - 1]));
            },
            Host::Other => {},
        }
    }
}

/// Where the service goes on Linux or macOS, the DNS of the host is led back
/// before anything else is done, so that no question goes to a server that is
/// gone.
pub proof fn dns_is_restored_first(host: Host)
    requires
        host is Linux || host is Macos,
    ensures
        removal_plan(host) matches Ok(p) && p.len() > 0 && p[0].action is RestoreDns,
{
}

/// On macOS the DNS of the host is led to the server only after the server was
/// waited for; and where it never answers, no later step is taken.
pub proof fn server_answers_first(exe: Seq<char>, plist: Seq<char>, skip_system_dns: bool, i: int)
    requires
        0 <= i < macos_service_plan(exe, plist, skip_system_dns).len(),
        macos_service_plan(exe, plist, skip_system_dns)[i].action is ConfigureDns,
    ensures
        exists|j: int|
            0 <= j < i && (#[trigger] macos_service_plan(exe, plist, skip_system_dns)[j]).action
                is AwaitServer && next_of(
                macos_service_plan(exe, plist, skip_system_dns)[j],
                Attempt::Failed,
            ) is Stop,
{
    let p = macos_service_plan(exe, plist, skip_system_dns);
    assert(p[4].action is AwaitServer);
    assert(i > 4);
}

/// Stopping the service only tells the system to: no file of the host is written
/// or removed, and its DNS stays as it is.
pub proof fn stopping_leaves_it_installed(host: Host)
    ensures
        stop_plan(host) matches Ok(p) ==> forall|i: int|
            0 <= i < p.len() ==> (#[trigger] p[i]).action is Run,
{
}

/// So does starting a service that is installed.
pub proof fn starting_again_changes_nothing(host: Host, skip_system_dns: bool)
    requires
        match host {
            Host::Linux { installed, .. } => installed,
            Host::Macos { installed, .. } => installed,
            Host::Windows(h) => h.registered,
            Host::Other => false,
        },
    ensures
        start_plan(host, skip_system_dns) matches Ok(p) && forall|i: int|
            0 <= i < p.len() ==> (#[trigger] p[i]).action is Run,
{
}

/// A configuration that is there is never overwritten by an installation.
pub proof fn existing_config_stays(host: Host, skip_system_dns: bool, path: Seq<char>)
    requires
        match host {
            Host::Linux { config, .. } => config.exists && path == config.path@ && path
                != SYSTEMD_UNIT@,
            Host::Macos { config, .. } => config.exists && path == config.path@ && path
                != PLIST_DEST@,
            _ => false,
        },
    ensures
        install_plan(host, skip_system_dns) matches Ok(p) && forall|i: int|
            0 <= i < p.len() ==> !((#[trigger] p[i]).action matches ActionView::WriteFile {
                path: to,
                ..
            } && to == path),
{
}

} // verus!
