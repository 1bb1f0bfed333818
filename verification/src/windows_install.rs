//! Installing the server on Windows.
use vstd::prelude::*;

use crate::config::NUMA_LOOPBACK_IP;
use crate::steps::{
    add_may, add_must, add_should, add_step, add_steps, may, must, owned, run, run3, run4,
    run_program, should, steps, Action, ActionView, FailureView, IfMissing, OnFailure, Step, StepView,
};
use crate::text::{concat, concat3, str_eq, texts};

verus! {

/// The command that runs a script.
pub open spec fn powershell(script: Seq<char>) -> ActionView {
    run(
        seq![
            "powershell"@,
            "-NoProfile"@,
            "-NonInteractive"@,
            "-ExecutionPolicy"@,
            "Bypass"@,
            "-Command"@,
            script,
        ],
    )
}

fn run_powershell(script: &str) -> (r: Action)
    ensures
        r@ == powershell(script@),
{
    let r = run_program(
        ["powershell", "-NoProfile", "-NonInteractive", "-ExecutionPolicy", "Bypass", "-Command", script],
    );
    assert(r@->Run_argv =~= powershell(script@)->Run_argv);
    r
}

/// The part of a script that takes away the rules that lead to the server.
pub open spec fn rule_removal() -> Seq<char> {
    "Get-DnsClientNrptRule | Where-Object { $_.NameServers -contains '"@ + NUMA_LOOPBACK_IP@
        + "' } |\n    ForEach-Object { Remove-DnsClientNrptRule -Name $_.Name -Force }\n"@
}

fn rule_removal_text() -> (s: String)
    ensures
        s@ == rule_removal(),
{
    concat3(
        "Get-DnsClientNrptRule | Where-Object { $_.NameServers -contains '",
        NUMA_LOOPBACK_IP,
        "' } |\n    ForEach-Object { Remove-DnsClientNrptRule -Name $_.Name -Force }\n",
    )
}

/// The script that leads all names to the server. Rules that led there go first,
/// so that there is one at most.
pub open spec fn nrpt_rule_script() -> Seq<char> {
    "\n$ErrorActionPreference = 'Stop'\n"@ + rule_removal()
        + "Add-DnsClientNrptRule -Namespace '.' -NameServers '"@ + NUMA_LOOPBACK_IP@
        + "' | Out-Null\n"@
}

/// The script that leads no names to the server.
pub open spec fn nrpt_removal_script() -> Seq<char> {
    "\n$ErrorActionPreference = 'SilentlyContinue'\n"@ + rule_removal()
}

/// The step that leads all names to the server.
fn install_nrpt_rule() -> (r: Action)
    ensures
        r@ == powershell(nrpt_rule_script()),
{
    let head = concat3(
        "\n$ErrorActionPreference = 'Stop'\n",
        rule_removal_text().as_str(),
        "Add-DnsClientNrptRule -Namespace '.' -NameServers '",
    );
    let script = concat3(head.as_str(), NUMA_LOOPBACK_IP, "' | Out-Null\n");
    run_powershell(script.as_str())
}

/// The step that leads no names to the server.
fn remove_nrpt_rule() -> (r: Action)
    ensures
        r@ == powershell(nrpt_removal_script()),
{
    let script = concat(
        "\n$ErrorActionPreference = 'SilentlyContinue'\n",
        rule_removal_text().as_str(),
    );
    run_powershell(script.as_str())
}

/// The steps that give network adapters back the nameservers of their network.
pub open spec fn adapters_reset(names: Seq<Seq<char>>) -> Seq<StepView>
    decreases names.len(),
{
    if names.len() == 0 {
        Seq::empty()
    } else {
        adapters_reset(names.drop_last()).push(
            may(
                run(
                    seq![
                        "netsh"@,
                        "interface"@,
                        "ipv4"@,
                        "set"@,
                        "dnsservers"@,
                        "name="@ + names.last(),
                        "source=dhcp"@,
                    ],
                ),
            ),
        )
    }
}

/// The command that lets the resolver of the system start.
pub open spec fn dnscache_start() -> ActionView {
    run(
        seq![
            "reg"@,
            "add"@,
            "HKLM\\SYSTEM\\CurrentControlSet\\Services\\Dnscache"@,
            "/v"@,
            "Start"@,
            "/t"@,
            "REG_DWORD"@,
            "/d"@,
            "2"@,
            "/f"@,
        ],
    )
}

/// The steps that undo an installation of the old kind, which had turned off the
/// resolver of the system and led adapters to the server. Its backup says which.
/// The resolver comes first, and the backup goes last.
pub open spec fn legacy_plan(adapters: Option<Seq<Seq<char>>>, backup: Seq<char>) -> Seq<StepView> {
    match adapters {
        None => Seq::empty(),
        Some(names) => seq![may(dnscache_start())] + adapters_reset(names) + seq![
            may(ActionView::RemoveFile { path: backup, missing: IfMissing::Done }),
        ],
    }
}

/// The adapters of a backup.
pub open spec fn names_in(v: Option<&Vec<String>>) -> Option<Seq<Seq<char>>> {
    match v {
        Some(names) => Some(texts(names@)),
        None => None,
    }
}

/// The steps that undo an installation of the old kind, if there is its backup.
pub fn unwind_legacy_install_if_present(adapters: Option<&Vec<String>>, backup: &str) -> (v: Vec<
    Step,
>)
    ensures
        steps(v@) == legacy_plan(names_in(adapters), backup@),
{
    let mut v: Vec<Step> = Vec::new();
    assert(steps(v@) =~= Seq::<StepView>::empty());
    let names = match adapters {
        Some(n) => n,
        None => {
            return v;
        },
    };
    let start = run_program(
        [
            "reg",
            "add",
            "HKLM\\SYSTEM\\CurrentControlSet\\Services\\Dnscache",
            "/v",
            "Start",
            "/t",
            "REG_DWORD",
            "/d",
            "2",
            "/f",
        ],
    );
    assert(start@->Run_argv =~= dnscache_start()->Run_argv);
    add_may(&mut v, start);
    let ghost head = steps(v@);
    let ghost all = texts(names@);
    let mut i: usize = 0;
    assert(all.subrange(0, 0) =~= Seq::<Seq<char>>::empty());
    assert(head + Seq::<StepView>::empty() =~= head);
    while i < names.len()
        invariant
            i <= names.len(),
            all == texts(names@),
            steps(v@) == head + adapters_reset(all.subrange(0, i as int)),
        decreases names.len() - i,
    {
        proof {
            let more = all.subrange(0, i + 1);
            assert(more.drop_last() =~= all.subrange(0, i as int));
            assert(more.last() == names@[i as int]@);
        }
        let name = concat("name=", names[i].as_str());
        let reset = run_program(
            ["netsh", "interface", "ipv4", "set", "dnsservers", name.as_str(), "source=dhcp"],
        );
        assert(reset@->Run_argv =~= seq![
            "netsh"@,
            "interface"@,
            "ipv4"@,
            "set"@,
            "dnsservers"@,
            name@,
            "source=dhcp"@,
        ]);
        add_may(&mut v, reset);
        assert(steps(v@) =~= head + adapters_reset(all.subrange(0, i + 1)));
        i += 1;
    }
    assert(all.subrange(0, all.len() as int) =~= all);
    add_may(&mut v, Action::RemoveFile { path: backup.to_owned(), missing: IfMissing::Done });
    assert(steps(v@) =~= legacy_plan(names_in(adapters), backup@));
    v
}

/// The command that makes the service known: it starts with the system, after
/// the resolver of the system. That it is known already (1073) is no failure.
pub open spec fn sc_create(name: Seq<char>, exe: Seq<char>) -> ActionView {
    ActionView::Run {
        argv: seq![
            "sc"@,
            "create"@,
            name,
            "binPath="@,
            "\""@ + exe + "\" --service"@,
            "DisplayName="@,
            "Numa DNS"@,
            "start="@,
            "auto"@,
            "obj="@,
            "LocalSystem"@,
            "depend="@,
            "Dnscache"@,
        ],
        harmless: seq!["1073"@],
    }
}

/// The steps that make the service known. After a crash it is started again.
pub open spec fn registration_plan(name: Seq<char>, exe: Seq<char>) -> Seq<StepView> {
    seq![
        must(sc_create(name, exe)),
        may(
            run(
                seq![
                    "sc"@,
                    "description"@,
                    name,
                    "Self-sovereign DNS resolver (ad blocking, DoH/DoT, local zones)."@,
                ],
            ),
        ),
        may(
            run(
                seq![
                    "sc"@,
                    "failure"@,
                    name,
                    "reset="@,
                    "60"@,
                    "actions="@,
                    "restart/5000/restart/5000/restart/10000"@,
                ],
            ),
        ),
    ]
}

/// The steps that make the service known.
pub fn register_service_scm(name: &str, exe: &str) -> (v: Vec<Step>)
    ensures
        steps(v@) == registration_plan(name@, exe@),
{
    let bin_path = concat3("\"", exe, "\" --service");
    let argv = owned(
        [
            "sc",
            "create",
            name,
            "binPath=",
            bin_path.as_str(),
            "DisplayName=",
            "Numa DNS",
            "start=",
            "auto",
            "obj=",
            "LocalSystem",
            "depend=",
            "Dnscache",
        ],
    );
    let harmless = owned(["1073"]);
    assert(texts(argv@) =~= sc_create(name@, exe@)->Run_argv);
    assert(texts(harmless@) =~= seq!["1073"@]);
    let mut v: Vec<Step> = Vec::new();
    add_must(&mut v, Action::Run { argv, harmless });
    add_may(
        &mut v,
        run4(
            "sc",
            "description",
            name,
            "Self-sovereign DNS resolver (ad blocking, DoH/DoT, local zones).",
        ),
    );
    let failure = run_program(
        ["sc", "failure", name, "reset=", "60", "actions=", "restart/5000/restart/5000/restart/10000"],
    );
    assert(failure@->Run_argv =~= seq![
        "sc"@,
        "failure"@,
        name@,
        "reset="@,
        "60"@,
        "actions="@,
        "restart/5000/restart/5000/restart/10000"@,
    ]);
    add_may(&mut v, failure);
    assert(steps(v@) =~= registration_plan(name@, exe@));
    v
}

/// The command that starts the service. That it runs already, or is disabled, is
/// told like any other failure.
pub open spec fn sc_start(name: Seq<char>) -> ActionView {
    run(seq!["sc"@, "start"@, name])
}

/// The command that starts the service.
pub fn start_service_scm(name: &str) -> (r: Action)
    ensures
        r@ == sc_start(name@),
{
    run3("sc", "start", name)
}

/// The command that stops the service. That it does not run (1062) or is not
/// known (1060) is no failure.
pub open spec fn sc_stop(name: Seq<char>) -> ActionView {
    ActionView::Run { argv: seq!["sc"@, "stop"@, name], harmless: seq!["1062"@, "1060"@] }
}

/// The command that stops the service.
pub fn stop_command(name: &str) -> (r: Action)
    ensures
        r@ == sc_stop(name@),
{
    let argv = owned(["sc", "stop", name]);
    let harmless = owned(["1062", "1060"]);
    assert(texts(argv@) =~= seq!["sc"@, "stop"@, name@]);
    assert(texts(harmless@) =~= seq!["1062"@, "1060"@]);
    Action::Run { argv, harmless }
}

/// What is known of the host: the name of the service, the program that runs,
/// where that of the service goes and the directory there, whether the service
/// is known, the adapters in the backup of an installation of the old kind, and
/// where that is.
pub struct WindowsHost {
    pub service: String,
    pub exe: String,
    pub service_exe: String,
    pub service_dir: String,
    pub registered: bool,
    pub adapters: Option<Vec<String>>,
    pub legacy_backup: String,
}

impl WindowsHost {
    /// The steps that undo an installation of the old kind.
    pub open spec fn legacy(&self) -> Seq<StepView> {
        legacy_plan(
            match self.adapters {
                Some(names) => Some(texts(names@)),
                None => None,
            },
            self.legacy_backup@,
        )
    }

    /// The steps that bring the program to its place. It is not copied to where
    /// it is.
    pub open spec fn placement(&self) -> Seq<StepView> {
        let dir = must(ActionView::MakeDir(self.service_dir@));
        if self.exe@ == self.service_exe@ {
            seq![dir]
        } else {
            seq![dir, must(ActionView::CopyFile { from: self.exe@, to: self.service_exe@ })]
        }
    }

    /// The steps that install the service. One that runs is stopped first, so
    /// that its program can be replaced. The DNS of the host is led to the
    /// server before that is started.
    pub open spec fn installation(&self, skip_system_dns: bool) -> Seq<StepView> {
        (if self.registered {
            seq![should(ActionView::StopService)]
        } else {
            Seq::empty()
        }) + self.legacy() + self.placement() + registration_plan(
            self.service@,
            self.service_exe@,
        ) + (if skip_system_dns {
            Seq::empty()
        } else {
            seq![must(powershell(nrpt_rule_script()))]
        }) + seq![should(sc_start(self.service@))]
    }

    /// The steps that take the service away.
    pub open spec fn removal(&self) -> Seq<StepView> {
        seq![
            should(ActionView::StopService),
            StepView {
                action: run(seq!["sc"@, "delete"@, self.service@]),
                cannot: FailureView::Warn,
                refused: FailureView::Ignore,
            },
            may(ActionView::RemoveFile { path: self.service_exe@, missing: IfMissing::Done }),
            may(powershell(nrpt_removal_script())),
        ] + self.legacy()
    }

    fn unwind(&self) -> (v: Vec<Step>)
        ensures
            steps(v@) == self.legacy(),
    {
        match &self.adapters {
            Some(names) => unwind_legacy_install_if_present(
                Some(names),
                self.legacy_backup.as_str(),
            ),
            None => unwind_legacy_install_if_present(None, self.legacy_backup.as_str()),
        }
    }

    /// The steps that bring the program to its place.
    pub fn install_service_binary(&self) -> (v: Vec<Step>)
        ensures
            steps(v@) == self.placement(),
    {
        let mut v: Vec<Step> = Vec::new();
        add_must(&mut v, Action::MakeDir(self.service_dir.clone()));
        if !str_eq(self.exe.as_str(), self.service_exe.as_str()) {
            add_must(
                &mut v,
                Action::CopyFile { from: self.exe.clone(), to: self.service_exe.clone() },
            );
        }
        assert(steps(v@) =~= self.placement());
        v
    }

    /// The steps that install the service on Windows.
    pub fn install_windows(&self, skip_system_dns: bool) -> (v: Vec<Step>)
        ensures
            steps(v@) == self.installation(skip_system_dns),
    {
        let mut v: Vec<Step> = Vec::new();
        if self.registered {
            add_should(&mut v, Action::StopService);
        }
        add_steps(&mut v, self.unwind());
        add_steps(&mut v, self.install_service_binary());
        add_steps(
            &mut v,
            register_service_scm(self.service.as_str(), self.service_exe.as_str()),
        );
        if !skip_system_dns {
            add_must(&mut v, install_nrpt_rule());
        }
        add_should(&mut v, start_service_scm(self.service.as_str()));
        assert(steps(v@) =~= self.installation(skip_system_dns));
        v
    }

    /// The steps that take the service away on Windows.
    pub fn uninstall_windows(&self) -> (v: Vec<Step>)
        ensures
            steps(v@) == self.removal(),
    {
        let mut v: Vec<Step> = Vec::new();
        add_should(&mut v, Action::StopService);
        add_step(
            &mut v,
            run3("sc", "delete", self.service.as_str()),
            OnFailure::Warn,
            OnFailure::Ignore,
        );
        add_may(&mut v, Action::RemoveFile { path: self.service_exe.clone(), missing: IfMissing::Done });
        add_may(&mut v, remove_nrpt_rule());
        add_steps(&mut v, self.unwind());
        assert(steps(v@) =~= self.removal());
        v
    }
}

} // verus!
