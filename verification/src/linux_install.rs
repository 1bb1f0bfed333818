//! Installing the server on Linux.
use vstd::prelude::*;

use crate::resolv_conf::{backup_action, has_real, managed, BackupAction};
use crate::service_control::{replace_exe_path, replaced};
use crate::steps::{
    add_may, add_must, add_should, add_step, after_steps, dns_plan, may, must, run, run2, run3, should, steps,
    text_of, Action, ActionView, FailureView, IfMissing, OnFailure, Step, StepView,
};
use crate::text::{occurs_at, str_eq};

verus! {

/// The unit of the service.
pub const SYSTEMD_UNIT: &'static str = "/etc/systemd/system/numa.service";

/// Where the program goes that the account of the service could not reach.
pub const LINUX_SERVICE_EXE: &'static str = "/usr/local/bin/numa";

/// Where the program of the service is.
pub open spec fn linux_exe(exe: Seq<char>, traversable: bool) -> Seq<char> {
    if traversable {
        exe
    } else {
        LINUX_SERVICE_EXE@
    }
}

/// The steps that bring the program where the account of the service reaches it.
/// It is put in its place by a new name, so that a running one can stay.
pub open spec fn linux_binary_plan(exe: Seq<char>, traversable: bool) -> Seq<StepView> {
    let tmp = "/usr/local/bin/numa.new"@;
    if traversable || exe == LINUX_SERVICE_EXE@ {
        Seq::empty()
    } else {
        seq![
            must(ActionView::MakeDir("/usr/local/bin"@)),
            must(ActionView::CopyFile { from: exe, to: tmp }),
            StepView {
                action: ActionView::RenameFile { from: tmp, to: LINUX_SERVICE_EXE@ },
                cannot: FailureView::StopAfter(
                    ActionView::RemoveFile { path: tmp, missing: IfMissing::Done },
                ),
                refused: FailureView::Stop,
            },
        ]
    }
}

/// Where the program of the service is, and the steps that bring it there.
pub fn install_service_binary_linux(exe: &str, traversable: bool) -> (r: (String, Vec<Step>))
    ensures
        r.0@ == linux_exe(exe@, traversable),
        steps(r.1@) == linux_binary_plan(exe@, traversable),
{
    let mut v: Vec<Step> = Vec::new();
    assert(steps(v@) =~= Seq::<StepView>::empty());
    if traversable {
        return (exe.to_owned(), v);
    }
    if str_eq(exe, LINUX_SERVICE_EXE) {
        return (LINUX_SERVICE_EXE.to_owned(), v);
    }
    let tmp = "/usr/local/bin/numa.new";
    add_must(&mut v, Action::MakeDir("/usr/local/bin".to_owned()));
    add_must(&mut v, Action::CopyFile { from: exe.to_owned(), to: tmp.to_owned() });
    add_step(
        &mut v,
        Action::RenameFile { from: tmp.to_owned(), to: LINUX_SERVICE_EXE.to_owned() },
        OnFailure::StopAfter(Action::RemoveFile { path: tmp.to_owned(), missing: IfMissing::Done }),
        OnFailure::Stop,
    );
    assert(steps(v@) =~= linux_binary_plan(exe@, traversable));
    (LINUX_SERVICE_EXE.to_owned(), v)
}

/// The steps that install the service. The DNS of the host is led to the server
/// before that is started, so that its address is free. It is restarted, as an
/// older one may run.
pub open spec fn linux_service_plan(
    exe: Seq<char>,
    traversable: bool,
    unit: Seq<char>,
    skip_system_dns: bool,
) -> Seq<StepView> {
    linux_binary_plan(exe, traversable) + seq![
        must(
            ActionView::WriteFile {
                path: SYSTEMD_UNIT@,
                contents: replaced(unit, "{{exe_path}}"@, linux_exe(exe, traversable)),
            },
        ),
        must(run(seq!["systemctl"@, "daemon-reload"@])),
        must(run(seq!["systemctl"@, "enable"@, "numa"@])),
    ] + dns_plan(skip_system_dns) + seq![must(run(seq!["systemctl"@, "restart"@, "numa"@]))]
}

/// The steps that install the service on Linux.
pub fn install_service_linux(exe: &str, traversable: bool, unit: &str, skip_system_dns: bool) -> (v:
    Vec<Step>)
    ensures
        steps(v@) == linux_service_plan(exe@, traversable, unit@, skip_system_dns),
{
    let (place, mut v) = install_service_binary_linux(exe, traversable);
    add_must(
        &mut v,
        Action::WriteFile {
            path: SYSTEMD_UNIT.to_owned(),
            contents: replace_exe_path(unit, place.as_str()),
        },
    );
    add_must(&mut v, run2("systemctl", "daemon-reload"));
    add_must(&mut v, run3("systemctl", "enable", "numa"));
    if !skip_system_dns {
        add_should(&mut v, Action::ConfigureDns);
    }
    add_must(&mut v, run3("systemctl", "restart", "numa"));
    assert(steps(v@) =~= linux_service_plan(exe@, traversable, unit@, skip_system_dns));
    v
}

/// The steps that take the service away. The DNS of the host is led back first,
/// while the server still answers.
pub open spec fn linux_removal_plan() -> Seq<StepView> {
    seq![
        should(ActionView::RestoreDns),
        should(run(seq!["systemctl"@, "stop"@, "numa"@])),
        should(run(seq!["systemctl"@, "disable"@, "numa"@])),
        must(ActionView::RemoveFile { path: SYSTEMD_UNIT@, missing: IfMissing::Done }),
        may(run(seq!["systemctl"@, "daemon-reload"@])),
    ]
}

/// The steps that take the service away on Linux.
pub fn uninstall_service_linux() -> (v: Vec<Step>)
    ensures
        steps(v@) == linux_removal_plan(),
{
    let mut v: Vec<Step> = Vec::new();
    add_should(&mut v, Action::RestoreDns);
    add_should(&mut v, run3("systemctl", "stop", "numa"));
    add_should(&mut v, run3("systemctl", "disable", "numa"));
    add_must(&mut v, Action::RemoveFile { path: SYSTEMD_UNIT.to_owned(), missing: IfMissing::Done });
    add_may(&mut v, run2("systemctl", "daemon-reload"));
    assert(steps(v@) =~= linux_removal_plan());
    v
}

/// The step that starts the service that is installed.
pub open spec fn linux_start_plan() -> Seq<StepView> {
    seq![must(run(seq!["systemctl"@, "start"@, "numa"@]))]
}

/// The step that starts the service that is installed, on Linux.
pub fn start_service_linux() -> (v: Vec<Step>)
    ensures
        steps(v@) == linux_start_plan(),
{
    let mut v: Vec<Step> = Vec::new();
    add_must(&mut v, run3("systemctl", "start", "numa"));
    assert(steps(v@) =~= linux_start_plan());
    v
}

/// The step that stops the service.
pub open spec fn linux_stop_plan() -> Seq<StepView> {
    seq![must(run(seq!["systemctl"@, "stop"@, "numa"@]))]
}

/// The step that stops the service on Linux.
pub fn stop_service_linux() -> (v: Vec<Step>)
    ensures
        steps(v@) == linux_stop_plan(),
{
    let mut v: Vec<Step> = Vec::new();
    add_must(&mut v, run3("systemctl", "stop", "numa"));
    assert(steps(v@) =~= linux_stop_plan());
    v
}

/// What tells systemd-resolved to ask the server.
pub const RESOLVED_DROP_IN: &'static str = "/etc/systemd/resolved.conf.d/numa.conf";

/// The `resolv.conf` that leads to the server.
pub const OWN_RESOLV_CONF: &'static str =
    "# Generated by Numa — run 'sudo numa uninstall' to restore\nnameserver 127.0.0.1\nsearch numa\n";

/// The steps that lead the DNS of the host to the server. Where systemd-resolved
/// runs, it is told; else `resolv.conf` is overwritten, after a backup.
pub open spec fn linux_dns_plan(
    resolved: bool,
    current: Option<Seq<char>>,
    existing: Option<Seq<char>>,
    backup_dir: Seq<char>,
    backup: Seq<char>,
) -> Seq<StepView> {
    if resolved {
        seq![
            must(ActionView::MakeDir("/etc/systemd/resolved.conf.d"@)),
            must(
                ActionView::WriteFile {
                    path: RESOLVED_DROP_IN@,
                    contents: "[Resolve]\nDNS=127.0.0.1\nDomains=~. numa\nDNSStubListener=no\n"@,
                },
            ),
            may(run(seq!["systemctl"@, "restart"@, "systemd-resolved"@])),
        ]
    } else {
        let kept = existing matches Some(b) && has_real(b);
        let write = must(
            ActionView::WriteFile {
                path: "/etc/resolv.conf"@,
                contents: OWN_RESOLV_CONF@,
            },
        );
        match current {
            Some(c) => if !kept && !managed(c) {
                seq![
                    must(ActionView::MakeDir(backup_dir)),
                    must(ActionView::WriteFile { path: backup, contents: c }),
                    write,
                ]
            } else {
                seq![must(ActionView::MakeDir(backup_dir)), write]
            },
            None => seq![must(ActionView::MakeDir(backup_dir)), write],
        }
    }
}

/// The steps that lead the DNS of the host to the server on Linux, by whether
/// systemd-resolved runs, the `resolv.conf` that is there, and the backup that
/// is there.
pub fn install_linux(
    resolved: bool,
    current: Option<&str>,
    existing: Option<&str>,
    backup_dir: &str,
    backup: &str,
) -> (v: Vec<Step>)
    ensures
        steps(v@) == linux_dns_plan(
            resolved,
            text_of(current),
            text_of(existing),
            backup_dir@,
            backup@,
        ),
{
    let mut v: Vec<Step> = Vec::new();
    if resolved {
        add_must(&mut v, Action::MakeDir("/etc/systemd/resolved.conf.d".to_owned()));
        add_must(
            &mut v,
            Action::WriteFile {
                path: RESOLVED_DROP_IN.to_owned(),
                contents: "[Resolve]\nDNS=127.0.0.1\nDomains=~. numa\nDNSStubListener=no\n".to_owned(),
            },
        );
        add_may(&mut v, run3("systemctl", "restart", "systemd-resolved"));
    } else {
        add_must(&mut v, Action::MakeDir(backup_dir.to_owned()));
        if let Some(c) = current {
            if backup_action(current, existing) == BackupAction::Save {
                add_must(&mut v, Action::WriteFile { path: backup.to_owned(), contents: c.to_owned() });
            }
        }
        add_must(
            &mut v,
            Action::WriteFile {
                path: "/etc/resolv.conf".to_owned(),
                contents: OWN_RESOLV_CONF.to_owned(),
            },
        );
    }
    assert(steps(v@) =~= linux_dns_plan(
        resolved,
        text_of(current),
        text_of(existing),
        backup_dir@,
        backup@,
    ));
    v
}

/// The steps that lead the DNS of the host back. Where systemd-resolved was
/// told, it is told no more; else the backup takes the place of `resolv.conf`.
/// Where there is none, nothing is done.
pub open spec fn linux_restore_plan(drop_in: bool, backup: Seq<char>, kept: bool) -> Seq<StepView> {
    if drop_in {
        seq![
            must(ActionView::RemoveFile { path: RESOLVED_DROP_IN@, missing: IfMissing::Fail }),
            may(run(seq!["systemctl"@, "restart"@, "systemd-resolved"@])),
        ]
    } else if kept {
        seq![
            must(ActionView::CopyFile { from: backup, to: "/etc/resolv.conf"@ }),
            may(ActionView::RemoveFile { path: backup, missing: IfMissing::Done }),
        ]
    } else {
        Seq::empty()
    }
}

/// The steps that lead the DNS of the host back on Linux, by whether
/// systemd-resolved was told, and whether there is a backup.
pub fn uninstall_linux(drop_in: bool, backup: &str, kept: bool) -> (v: Vec<Step>)
    ensures
        steps(v@) == linux_restore_plan(drop_in, backup@, kept),
{
    let mut v: Vec<Step> = Vec::new();
    if drop_in {
        add_must(
            &mut v,
            Action::RemoveFile { path: RESOLVED_DROP_IN.to_owned(), missing: IfMissing::Fail },
        );
        add_may(&mut v, run3("systemctl", "restart", "systemd-resolved"));
    } else if kept {
        add_must(
            &mut v,
            Action::CopyFile { from: backup.to_owned(), to: "/etc/resolv.conf".to_owned() },
        );
        add_may(&mut v, Action::RemoveFile { path: backup.to_owned(), missing: IfMissing::Done });
    }
    assert(steps(v@) =~= linux_restore_plan(drop_in, backup@, kept));
    v
}

/// The contents of a file, if it is there.
pub open spec fn file_in(files: Map<Seq<char>, Seq<char>>, path: Seq<char>) -> Option<Seq<char>> {
    if files.contains_key(path) {
        Some(files[path])
    } else {
        None
    }
}

/// The files after the DNS of a host without systemd-resolved was led to the
/// server.
pub open spec fn led_here(
    files: Map<Seq<char>, Seq<char>>,
    backup_dir: Seq<char>,
    backup: Seq<char>,
) -> Map<Seq<char>, Seq<char>> {
    after_steps(
        linux_dns_plan(
            false,
            file_in(files, "/etc/resolv.conf"@),
            file_in(files, backup),
            backup_dir,
            backup,
        ),
        files,
    )
}

/// The files after the DNS of a host without systemd-resolved was led back.
pub open spec fn led_back(files: Map<Seq<char>, Seq<char>>, backup: Seq<char>) -> Map<
    Seq<char>,
    Seq<char>,
> {
    after_steps(linux_restore_plan(false, backup, files.contains_key(backup)), files)
}

proof fn after_leading_here(
    files: Map<Seq<char>, Seq<char>>,
    backup_dir: Seq<char>,
    backup: Seq<char>,
)
    requires
        backup != "/etc/resolv.conf"@,
    ensures
        ({
            let kept = file_in(files, backup) matches Some(b) && has_real(b);
            let current = file_in(files, "/etc/resolv.conf"@);
            let after = led_here(files, backup_dir, backup);
            &&& after.contains_key("/etc/resolv.conf"@)
            &&& after["/etc/resolv.conf"@] == OWN_RESOLV_CONF@
            &&& file_in(after, backup) == (if !kept && current is Some && !managed(current->0) {
                current
            } else {
                file_in(files, backup)
            })
        }),
{
    let current = file_in(files, "/etc/resolv.conf"@);
    let plan = linux_dns_plan(
        false,
        current,
        file_in(files, backup),
        backup_dir,
        backup,
    );
    let first = plan.drop_last();
    let last = plan.last();
    assert(last.action is WriteFile);
    assert(first.drop_last().len() <= 1);
    if first.len() == 2 {
        assert(first.drop_last().drop_last().len() == 0);
        assert(first.drop_last().last().action is MakeDir);
        assert(first.last().action is WriteFile);
        assert(after_steps(first.drop_last().drop_last(), files) == files);
        assert(after_steps(first.drop_last(), files) == files);
        assert(after_steps(first, files) == files.insert(backup, current->0));
    } else {
        assert(first.drop_last().len() == 0);
        assert(first.last().action is MakeDir);
        assert(after_steps(first.drop_last(), files) == files);
        assert(after_steps(first, files) == files);
    }
}

/// Where the DNS of a host was led to the server and then led back, the host has
/// the `resolv.conf` that it had, or where there was a useful backup already,
/// that; and the backup is gone.
pub proof fn dns_comes_back(
    files: Map<Seq<char>, Seq<char>>,
    backup_dir: Seq<char>,
    backup: Seq<char>,
)
    requires
        backup != "/etc/resolv.conf"@,
        files.contains_key("/etc/resolv.conf"@),
        !managed(files["/etc/resolv.conf"@]) || (file_in(files, backup) matches Some(b)
            && has_real(b)),
    ensures
        ({
            let back = led_back(led_here(files, backup_dir, backup), backup);
            &&& file_in(back, "/etc/resolv.conf"@) == (if file_in(files, backup) matches Some(b)
                && has_real(b) {
                file_in(files, backup)
            } else {
                file_in(files, "/etc/resolv.conf"@)
            })
            &&& !back.contains_key(backup)
        }),
{
    after_leading_here(files, backup_dir, backup);
    let here = led_here(files, backup_dir, backup);
    let plan = linux_restore_plan(false, backup, true);
    assert(here.contains_key(backup));
    assert(plan.drop_last().drop_last().len() == 0);
    assert(after_steps(plan.drop_last().drop_last(), here) == here);
    assert(plan.drop_last().last() == plan[0]);
    assert(after_steps(plan.drop_last(), here) == here.insert("/etc/resolv.conf"@, here[backup]));
}

/// Leading the DNS of a host to the server once more does not touch a useful
/// backup: what will be led back to stays the same.
pub proof fn useful_backup_stays(
    files: Map<Seq<char>, Seq<char>>,
    backup_dir: Seq<char>,
    backup: Seq<char>,
)
    requires
        backup != "/etc/resolv.conf"@,
        file_in(files, backup) matches Some(b) && has_real(b),
    ensures
        file_in(led_here(files, backup_dir, backup), backup) == file_in(files, backup),
{
    after_leading_here(files, backup_dir, backup);
}

/// The `resolv.conf` that leads to the server is known as the server's own, so
/// that it is never taken for a backup.
pub proof fn own_file_is_known()
    ensures
        managed(OWN_RESOLV_CONF@),
{
    reveal_strlit("# Generated by Numa — run 'sudo numa uninstall' to restore\nnameserver 127.0.0.1\nsearch numa\n");
    reveal_strlit("Generated by Numa");
    assert(OWN_RESOLV_CONF@.subrange(2, 19) =~= "Generated by Numa"@);
    assert(occurs_at(OWN_RESOLV_CONF@, "Generated by Numa"@, 2));
}

/// The host has its `resolv.conf` back also where the DNS was led to the server
/// twice before it was led back.
pub proof fn dns_comes_back_after_two(
    files: Map<Seq<char>, Seq<char>>,
    backup_dir: Seq<char>,
    backup: Seq<char>,
)
    requires
        backup != "/etc/resolv.conf"@,
        files.contains_key("/etc/resolv.conf"@),
        !managed(files["/etc/resolv.conf"@]),
        !(file_in(files, backup) matches Some(b) && has_real(b)),
    ensures
        ({
            let twice = led_here(led_here(files, backup_dir, backup), backup_dir, backup);
            file_in(led_back(twice, backup), "/etc/resolv.conf"@) == file_in(
                files,
                "/etc/resolv.conf"@,
            )
        }),
{
    after_leading_here(files, backup_dir, backup);
    let once = led_here(files, backup_dir, backup);
    dns_comes_back(once, backup_dir, backup);
}

} // verus!
