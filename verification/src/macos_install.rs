//! Installing the server on macOS.
use vstd::prelude::*;

use crate::service_control::{
    backup_has_real_upstream_macos, replace_exe_path, replaced, restore_args, some_real,
    ServiceServers,
};
use crate::steps::{
    add_may, add_must, add_should, add_step, dns_plan, may, must, run, run3, run4, run5,
    should, steps, Action, ActionView, FailureView, IfMissing, OnFailure, Step, StepView,
};
use crate::text::texts;

verus! {

/// The service as launchd knows it.
pub const PLIST_SYSTEM_TARGET: &'static str = "system/com.numa.dns";

/// The description of the service.
pub const PLIST_DEST: &'static str = "/Library/LaunchDaemons/com.numa.dns.plist";

/// What tells the system to ask the server for its own domain, whatever else
/// has made itself the resolver of the system.
pub const MACOS_RESOLVER_DROPIN: &'static str = "/etc/resolver/numa";

/// The command that takes the service out of launchd.
pub open spec fn bootout() -> ActionView {
    run(seq!["launchctl"@, "bootout"@, "system"@, PLIST_DEST@])
}

/// The steps that install the service. What launchd knows of an older one goes
/// first. The DNS of the host is led to the server once that answers; where it
/// never does, the service is taken out again.
pub open spec fn macos_service_plan(
    exe: Seq<char>,
    plist: Seq<char>,
    skip_system_dns: bool,
) -> Seq<StepView> {
    seq![
        must(ActionView::MakeDir("/usr/local/var/log"@)),
        must(
            ActionView::WriteFile {
                path: PLIST_DEST@,
                contents: replaced(plist, "{{exe_path}}"@, exe),
            },
        ),
        may(bootout()),
        must(run(seq!["launchctl"@, "bootstrap"@, "system"@, PLIST_DEST@])),
        StepView {
            action: ActionView::AwaitServer,
            cannot: FailureView::StopAfter(bootout()),
            refused: FailureView::Stop,
        },
    ] + dns_plan(skip_system_dns)
}

fn run_bootout() -> (r: Action)
    ensures
        r@ == bootout(),
{
    run4("launchctl", "bootout", "system", PLIST_DEST)
}

/// The steps that install the service on macOS.
pub fn install_service_macos(exe: &str, plist: &str, skip_system_dns: bool) -> (v: Vec<Step>)
    ensures
        steps(v@) == macos_service_plan(exe@, plist@, skip_system_dns),
{
    let mut v: Vec<Step> = Vec::new();
    add_must(&mut v, Action::MakeDir("/usr/local/var/log".to_owned()));
    add_must(
        &mut v,
        Action::WriteFile {
            path: PLIST_DEST.to_owned(),
            contents: replace_exe_path(plist, exe),
        },
    );
    add_may(&mut v, run_bootout());
    add_must(&mut v, run4("launchctl", "bootstrap", "system", PLIST_DEST));
    add_step(
        &mut v,
        Action::AwaitServer,
        OnFailure::StopAfter(run_bootout()),
        OnFailure::Stop,
    );
    if !skip_system_dns {
        add_should(&mut v, Action::ConfigureDns);
    }
    assert(steps(v@) =~= macos_service_plan(exe@, plist@, skip_system_dns));
    v
}

/// The steps that take the service away. The DNS of the host is led back first,
/// while the server still answers; and launchd lets go of the service while its
/// description is still there.
pub open spec fn macos_removal_plan() -> Seq<StepView> {
    seq![
        should(ActionView::RestoreDns),
        StepView { action: bootout(), cannot: FailureView::Ignore, refused: FailureView::Warn },
        must(ActionView::RemoveFile { path: PLIST_DEST@, missing: IfMissing::Done }),
    ]
}

/// The steps that take the service away on macOS.
pub fn uninstall_service_macos() -> (v: Vec<Step>)
    ensures
        steps(v@) == macos_removal_plan(),
{
    let mut v: Vec<Step> = Vec::new();
    add_should(&mut v, Action::RestoreDns);
    add_step(&mut v, run_bootout(), OnFailure::Ignore, OnFailure::Warn);
    add_must(&mut v, Action::RemoveFile { path: PLIST_DEST.to_owned(), missing: IfMissing::Done });
    assert(steps(v@) =~= macos_removal_plan());
    v
}

/// The steps that start the service that is installed: launchd takes it up, where
/// it has let go of it, and starts it.
pub open spec fn macos_start_plan() -> Seq<StepView> {
    seq![
        may(run(seq!["launchctl"@, "bootstrap"@, "system"@, PLIST_DEST@])),
        must(run(seq!["launchctl"@, "kickstart"@, PLIST_SYSTEM_TARGET@])),
    ]
}

/// The steps that start the service that is installed, on macOS.
pub fn start_service_macos() -> (v: Vec<Step>)
    ensures
        steps(v@) == macos_start_plan(),
{
    let mut v: Vec<Step> = Vec::new();
    add_may(&mut v, run4("launchctl", "bootstrap", "system", PLIST_DEST));
    add_must(&mut v, run3("launchctl", "kickstart", PLIST_SYSTEM_TARGET));
    assert(steps(v@) =~= macos_start_plan());
    v
}

/// The step that stops the service: launchd lets go of it. Its description stays,
/// so that it starts with the system again.
pub open spec fn macos_stop_plan() -> Seq<StepView> {
    seq![
        StepView { action: bootout(), cannot: FailureView::Stop, refused: FailureView::Warn },
    ]
}

/// The step that stops the service on macOS.
pub fn stop_service_macos() -> (v: Vec<Step>)
    ensures
        steps(v@) == macos_stop_plan(),
{
    let mut v: Vec<Step> = Vec::new();
    add_step(&mut v, run_bootout(), OnFailure::Stop, OnFailure::Warn);
    assert(steps(v@) =~= macos_stop_plan());
    v
}

/// The steps that restart the service: the program that launchd will start is
/// signed first.
pub open spec fn macos_restart_plan(program: Seq<char>) -> Seq<StepView> {
    seq![
        may(run(seq!["codesign"@, "-f"@, "-s"@, "-"@, program])),
        must(run(seq!["launchctl"@, "kickstart"@, "-k"@, PLIST_SYSTEM_TARGET@])),
    ]
}

/// The steps that restart the service on macOS, by the program that launchd
/// will start.
pub fn restart_service_macos(program: &str) -> (v: Vec<Step>)
    ensures
        steps(v@) == macos_restart_plan(program@),
{
    let mut v: Vec<Step> = Vec::new();
    add_may(&mut v, run5("codesign", "-f", "-s", "-", program));
    add_must(&mut v, run4("launchctl", "kickstart", "-k", PLIST_SYSTEM_TARGET));
    assert(steps(v@) =~= macos_restart_plan(program@));
    v
}

/// Whether the nameservers of the network services are captured: not where a
/// backup that is worth something is there already.
pub fn captures_dns(existing: Option<&Vec<ServiceServers>>) -> (b: bool)
    ensures
        b == !(existing matches Some(v) && some_real(v@)),
{
    match existing {
        Some(v) => !backup_has_real_upstream_macos(v),
        None => true,
    }
}

/// The command that gives a network service nameservers, which must run but may
/// fail, and the one that gives it domains to search.
pub open spec fn service_steps(args: Seq<Seq<char>>, service: Seq<char>, search: Seq<char>) -> Seq<
    StepView,
> {
    seq![
        StepView {
            action: run(seq!["networksetup"@] + args),
            cannot: FailureView::Stop,
            refused: FailureView::Warn,
        },
        may(run(seq!["networksetup"@, "-setsearchdomains"@, service, search])),
    ]
}

/// The steps that lead some network services to the server.
pub open spec fn led_services(services: Seq<Seq<char>>) -> Seq<StepView>
    decreases services.len(),
{
    if services.len() == 0 {
        Seq::empty()
    } else {
        led_services(services.drop_last()) + service_steps(
            seq!["-setdnsservers"@, services.last(), "127.0.0.1"@],
            services.last(),
            "numa"@,
        )
    }
}

/// The steps that tell the system to ask the server for its own domain. Where
/// one fails, there is a warning, and the rest is left.
pub open spec fn drop_in_plan() -> Seq<StepView> {
    seq![
        StepView {
            action: ActionView::MakeDir("/etc/resolver"@),
            cannot: FailureView::WarnAndLeave,
            refused: FailureView::WarnAndLeave,
        },
        StepView {
            action: ActionView::WriteFile {
                path: MACOS_RESOLVER_DROPIN@,
                contents: "nameserver 127.0.0.1\n"@,
            },
            cannot: FailureView::WarnAndLeave,
            refused: FailureView::WarnAndLeave,
        },
        may(run(seq!["killall"@, "-HUP"@, "mDNSResponder"@])),
    ]
}

fn service_run(args: Vec<String>) -> (r: Action)
    ensures
        r@ == run(seq!["networksetup"@] + texts(args@)),
{
    let mut argv: Vec<String> = Vec::new();
    let mut rest = args;
    argv.push("networksetup".to_owned());
    argv.append(&mut rest);
    let harmless: Vec<String> = Vec::new();
    assert(texts(harmless@) =~= Seq::<Seq<char>>::empty());
    assert(texts(argv@) =~= seq!["networksetup"@] + texts(args@));
    Action::Run { argv, harmless }
}

fn add_service(v: &mut Vec<Step>, args: Vec<String>, service: &str, search: &str)
    ensures
        steps(final(v)@) == steps(old(v)@) + service_steps(texts(args@), service@, search@),
{
    add_step(v, service_run(args), OnFailure::Stop, OnFailure::Warn);
    add_may(v, run4("networksetup", "-setsearchdomains", service, search));
    assert(steps(v@) =~= steps(old(v)@) + service_steps(texts(args@), service@, search@));
}

/// The steps that lead the DNS of the host to the server on macOS: each network
/// service is led to it, and then its own domain.
pub fn install_macos(services: &Vec<String>) -> (v: Vec<Step>)
    ensures
        steps(v@) == led_services(texts(services@)) + drop_in_plan(),
{
    let ghost all = texts(services@);
    let mut v: Vec<Step> = Vec::new();
    let mut i: usize = 0;
    assert(all.subrange(0, 0) =~= Seq::<Seq<char>>::empty());
    assert(steps(v@) =~= Seq::<StepView>::empty());
    while i < services.len()
        invariant
            i <= services.len(),
            all == texts(services@),
            steps(v@) == led_services(all.subrange(0, i as int)),
        decreases services.len() - i,
    {
        let s = services[i].as_str();
        proof {
            let more = all.subrange(0, i + 1);
            assert(more.drop_last() =~= all.subrange(0, i as int));
            assert(more.last() == s@);
        }
        let mut args: Vec<String> = Vec::new();
        args.push("-setdnsservers".to_owned());
        args.push(s.to_owned());
        args.push("127.0.0.1".to_owned());
        assert(texts(args@) =~= seq!["-setdnsservers"@, s@, "127.0.0.1"@]);
        add_service(&mut v, args, s, "numa");
        i += 1;
    }
    assert(all.subrange(0, all.len() as int) =~= all);
    let ghost led = steps(v@);
    add_step(
        &mut v,
        Action::MakeDir("/etc/resolver".to_owned()),
        OnFailure::WarnAndLeave,
        OnFailure::WarnAndLeave,
    );
    add_step(
        &mut v,
        Action::WriteFile {
            path: MACOS_RESOLVER_DROPIN.to_owned(),
            contents: "nameserver 127.0.0.1\n".to_owned(),
        },
        OnFailure::WarnAndLeave,
        OnFailure::WarnAndLeave,
    );
    add_may(&mut v, run3("killall", "-HUP", "mDNSResponder"));
    assert(steps(v@) =~= led + drop_in_plan());
    v
}

/// The arguments that give a network service back its nameservers.
pub open spec fn restored(s: ServiceServers) -> Seq<Seq<char>> {
    seq!["-setdnsservers"@, s.service@] + (if s.servers@.len() == 0 {
        seq!["Empty"@]
    } else {
        texts(s.servers@)
    })
}

/// The steps that lead network services back.
pub open spec fn restored_services(kept: Seq<ServiceServers>) -> Seq<StepView>
    decreases kept.len(),
{
    if kept.len() == 0 {
        Seq::empty()
    } else {
        restored_services(kept.drop_last()) + service_steps(
            restored(kept.last()),
            kept.last().service@,
            "Empty"@,
        )
    }
}

/// The steps that take away what tells the system to ask the server for its own
/// domain. Where it is not there, nothing is done.
pub open spec fn drop_in_removal_plan() -> Seq<StepView> {
    seq![
        StepView {
            action: ActionView::RemoveFile { path: MACOS_RESOLVER_DROPIN@, missing: IfMissing::Leave },
            cannot: FailureView::WarnAndLeave,
            refused: FailureView::WarnAndLeave,
        },
        may(run(seq!["killall"@, "-HUP"@, "mDNSResponder"@])),
    ]
}

/// The steps that take away what tells the system to ask the server for its own
/// domain, on macOS. They come before the others, and are taken in any case.
pub fn remove_resolver_dropin() -> (v: Vec<Step>)
    ensures
        steps(v@) == drop_in_removal_plan(),
{
    let mut v: Vec<Step> = Vec::new();
    add_step(
        &mut v,
        Action::RemoveFile { path: MACOS_RESOLVER_DROPIN.to_owned(), missing: IfMissing::Leave },
        OnFailure::WarnAndLeave,
        OnFailure::WarnAndLeave,
    );
    add_may(&mut v, run3("killall", "-HUP", "mDNSResponder"));
    assert(steps(v@) =~= drop_in_removal_plan());
    v
}

/// The steps that lead the DNS of the host back on macOS: each network service
/// gets what the backup has for it, and then the backup goes.
pub fn uninstall_macos(kept: &Vec<ServiceServers>, backup: &str) -> (v: Vec<Step>)
    ensures
        steps(v@) == restored_services(kept@).push(
            may(ActionView::RemoveFile { path: backup@, missing: IfMissing::Done }),
        ),
{
    let mut v: Vec<Step> = Vec::new();
    let mut i: usize = 0;
    assert(kept@.subrange(0, 0) =~= Seq::<ServiceServers>::empty());
    assert(steps(v@) =~= Seq::<StepView>::empty());
    while i < kept.len()
        invariant
            i <= kept.len(),
            steps(v@) == restored_services(kept@.subrange(0, i as int)),
        decreases kept.len() - i,
    {
        let s = &kept[i];
        proof {
            let more = kept@.subrange(0, i + 1);
            assert(more.drop_last() =~= kept@.subrange(0, i as int));
            assert(more.last() == *s);
        }
        let args = restore_args(s.service.as_str(), &s.servers);
        add_service(&mut v, args, s.service.as_str(), "Empty");
        i += 1;
    }
    assert(kept@.subrange(0, kept@.len() as int) =~= kept@);
    add_may(&mut v, Action::RemoveFile { path: backup.to_owned(), missing: IfMissing::Done });
    v
}

} // verus!
