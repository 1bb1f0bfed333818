//! Installing the server: the steps on each system, and what is told about them.
use numa::linux_install::{
    install_linux, install_service_binary_linux, install_service_linux, uninstall_linux,
    uninstall_service_linux,
};
use numa::macos_install::{
    captures_dns, install_macos, install_service_macos, remove_resolver_dropin,
    restart_service_macos, uninstall_macos, uninstall_service_macos,
};
use numa::service::{
    install_service, print_install_summary, restart_service, service_status, start_service,
    stop_service, uninstall_service, Host, StatusReport,
};
use numa::service_control::{linux_trust_stores, ServiceServers};
use numa::steps::{
    after_step, ran, start_wait, stop_wait, write_default_config, Action, Attempt, DefaultConfig,
    IfMissing, Next, OnFailure, Step, Wait,
};
use numa::trust::{trust_ca, untrust_ca, TrustHost};
use numa::windows_install::WindowsHost;

fn shown(action: &Action) -> String {
    match action {
        Action::MakeDir(p) => format!("mkdir {p}"),
        Action::WriteFile { path, .. } => format!("write {path}"),
        Action::CopyFile { from, to } => format!("copy {from} {to}"),
        Action::RenameFile { from, to } => format!("rename {from} {to}"),
        Action::RemoveFile { path, .. } => format!("remove {path}"),
        Action::Run { argv, .. } => argv.join(" "),
        other => format!("{other:?}"),
    }
}

fn all(steps: &[Step]) -> Vec<String> {
    steps.iter().map(|s| shown(&s.action)).collect()
}

fn config(exists: bool) -> DefaultConfig<'static> {
    DefaultConfig {
        dir: "/var/lib/numa",
        path: "/var/lib/numa/numa.toml",
        template: "[server]\n",
        exists,
    }
}

fn windows() -> WindowsHost {
    WindowsHost {
        service: "numa".to_string(),
        exe: "C:\\dl\\numa.exe".to_string(),
        service_exe: "C:\\d\\bin\\numa.exe".to_string(),
        service_dir: "C:\\d\\bin".to_string(),
        registered: true,
        adapters: Some(vec!["Wi-Fi".to_string()]),
        legacy_backup: "C:\\d\\original-dns.json".to_string(),
    }
}

#[test]
fn a_program_out_of_reach_is_copied() {
    let (exe, steps) = install_service_binary_linux("/home/u/numa", false);
    assert_eq!(exe, "/usr/local/bin/numa");
    assert_eq!(
        all(&steps),
        vec![
            "mkdir /usr/local/bin",
            "copy /home/u/numa /usr/local/bin/numa.new",
            "rename /usr/local/bin/numa.new /usr/local/bin/numa",
        ]
    );
    assert!(matches!(steps[2].cannot, OnFailure::StopAfter(_)));
    let (exe, steps) = install_service_binary_linux("/opt/numa", true);
    assert_eq!(exe, "/opt/numa");
    assert!(steps.is_empty());
    let (exe, steps) = install_service_binary_linux("/usr/local/bin/numa", false);
    assert_eq!(exe, "/usr/local/bin/numa");
    assert!(steps.is_empty());
}

#[test]
fn linux_service_is_installed_and_removed() {
    let steps = install_service_linux("/opt/numa", true, "Exec={{exe_path}}", false);
    assert_eq!(
        all(&steps),
        vec![
            "write /etc/systemd/system/numa.service",
            "systemctl daemon-reload",
            "systemctl enable numa",
            "ConfigureDns",
            "systemctl restart numa",
        ]
    );
    assert!(matches!(
        &steps[0].action,
        Action::WriteFile { contents, .. } if contents == "Exec=/opt/numa"
    ));
    let steps = install_service_linux("/opt/numa", true, "", true);
    assert!(!all(&steps).contains(&"ConfigureDns".to_string()));
    let steps = uninstall_service_linux();
    assert_eq!(
        all(&steps),
        vec![
            "RestoreDns",
            "systemctl stop numa",
            "systemctl disable numa",
            "remove /etc/systemd/system/numa.service",
            "systemctl daemon-reload",
        ]
    );
}

#[test]
fn linux_dns_is_led_here_and_back() {
    let steps = install_linux(true, None, None, "/root/.numa", "/root/.numa/b");
    assert_eq!(
        all(&steps),
        vec![
            "mkdir /etc/systemd/resolved.conf.d",
            "write /etc/systemd/resolved.conf.d/numa.conf",
            "systemctl restart systemd-resolved",
        ]
    );
    let real = "nameserver 192.168.1.1\n";
    let saved =
        vec!["mkdir /root/.numa", "write /root/.numa/b", "write /etc/resolv.conf"];
    let steps = install_linux(false, Some(real), None, "/root/.numa", "/root/.numa/b");
    assert_eq!(all(&steps), saved);
    assert!(matches!(
        &steps[1].action,
        Action::WriteFile { contents, .. } if contents == real
    ));
    let own = "# Generated by Numa\nnameserver 127.0.0.1\n";
    let steps = install_linux(false, Some(own), None, "/root/.numa", "/root/.numa/b");
    assert_eq!(all(&steps), vec!["mkdir /root/.numa", "write /etc/resolv.conf"]);
    let steps = install_linux(false, Some(real), Some(real), "/root/.numa", "/root/.numa/b");
    assert_eq!(all(&steps), vec!["mkdir /root/.numa", "write /etc/resolv.conf"]);
    assert_eq!(
        all(&uninstall_linux(true, "/root/.numa/b", true)),
        vec![
            "remove /etc/systemd/resolved.conf.d/numa.conf",
            "systemctl restart systemd-resolved",
        ]
    );
    assert_eq!(
        all(&uninstall_linux(false, "/root/.numa/b", true)),
        vec!["copy /root/.numa/b /etc/resolv.conf", "remove /root/.numa/b"]
    );
    assert!(uninstall_linux(false, "/root/.numa/b", false).is_empty());
}

#[test]
fn macos_service_waits_for_the_server() {
    let steps = install_service_macos("/opt/numa", "<{{exe_path}}>", false);
    assert_eq!(
        all(&steps),
        vec![
            "mkdir /usr/local/var/log",
            "write /Library/LaunchDaemons/com.numa.dns.plist",
            "launchctl bootout system /Library/LaunchDaemons/com.numa.dns.plist",
            "launchctl bootstrap system /Library/LaunchDaemons/com.numa.dns.plist",
            "AwaitServer",
            "ConfigureDns",
        ]
    );
    assert_eq!(
        all(&uninstall_service_macos()),
        vec![
            "RestoreDns",
            "launchctl bootout system /Library/LaunchDaemons/com.numa.dns.plist",
            "remove /Library/LaunchDaemons/com.numa.dns.plist",
        ]
    );
    assert_eq!(
        all(&restart_service_macos("/opt/numa")),
        vec!["codesign -f -s - /opt/numa", "launchctl kickstart -k system/com.numa.dns"]
    );
}

#[test]
fn macos_dns_is_led_here_and_back() {
    assert_eq!(
        all(&install_macos(&vec!["Wi-Fi".to_string()])),
        vec![
            "networksetup -setdnsservers Wi-Fi 127.0.0.1",
            "networksetup -setsearchdomains Wi-Fi numa",
            "mkdir /etc/resolver",
            "write /etc/resolver/numa",
            "killall -HUP mDNSResponder",
        ]
    );
    let kept = vec![
        ServiceServers { service: "Wi-Fi".to_string(), servers: vec!["9.9.9.9".to_string()] },
        ServiceServers { service: "USB".to_string(), servers: Vec::new() },
    ];
    assert!(!captures_dns(Some(&kept)));
    assert!(captures_dns(None));
    assert_eq!(
        all(&uninstall_macos(&kept, "/b")),
        vec![
            "networksetup -setdnsservers Wi-Fi 9.9.9.9",
            "networksetup -setsearchdomains Wi-Fi Empty",
            "networksetup -setdnsservers USB Empty",
            "networksetup -setsearchdomains USB Empty",
            "remove /b",
        ]
    );
    assert_eq!(
        all(&remove_resolver_dropin()),
        vec!["remove /etc/resolver/numa", "killall -HUP mDNSResponder"]
    );
}

#[test]
fn windows_service_is_installed_and_removed() {
    let host = windows();
    let steps = host.install_windows(false);
    let texts = all(&steps);
    assert_eq!(texts[0], "StopService");
    assert!(texts[1].starts_with("reg add HKLM\\SYSTEM\\CurrentControlSet\\Services\\Dnscache"));
    assert_eq!(texts[2], "netsh interface ipv4 set dnsservers name=Wi-Fi source=dhcp");
    assert_eq!(texts[3], "remove C:\\d\\original-dns.json");
    assert_eq!(texts[4], "mkdir C:\\d\\bin");
    assert_eq!(texts[5], "copy C:\\dl\\numa.exe C:\\d\\bin\\numa.exe");
    assert_eq!(
        texts[6],
        "sc create numa binPath= \"C:\\d\\bin\\numa.exe\" --service DisplayName= Numa DNS \
         start= auto obj= LocalSystem depend= Dnscache"
    );
    assert!(texts[9].contains("Add-DnsClientNrptRule -Namespace '.' -NameServers '127.0.0.2'"));
    assert_eq!(texts[10], "sc start numa");
    assert_eq!(texts.len(), 11);
    assert!(!all(&host.install_windows(true)).iter().any(|t| t.contains("NrptRule")));
    let texts = all(&host.uninstall_windows());
    assert_eq!(texts[0], "StopService");
    assert_eq!(texts[1], "sc delete numa");
    assert_eq!(texts[2], "remove C:\\d\\bin\\numa.exe");
    assert!(texts[3].contains("Remove-DnsClientNrptRule"));
    assert_eq!(texts.len(), 7);
}

#[test]
fn programs_that_fail_harmlessly_are_done() {
    assert!(ran(true, "", &Vec::new()));
    assert!(ran(false, "FAILED 1073: exists", &vec!["1073".to_string()]));
    assert!(!ran(false, "FAILED 5: denied", &vec!["1073".to_string()]));
}

#[test]
fn services_are_controlled_by_system() {
    let host = windows();
    assert_eq!(
        all(&start_service(Host::Windows(&host), false).unwrap()),
        vec!["sc start numa"]
    );
    assert_eq!(all(&stop_service(Host::Windows(&host)).unwrap()), vec!["sc stop numa"]);
    assert_eq!(
        all(&restart_service(Host::Windows(&host), None).unwrap()),
        vec!["StopService", "sc start numa"]
    );
    let linux = |installed| Host::Linux {
        exe: "/opt/numa",
        traversable: true,
        unit: "",
        config: config(true),
        installed,
    };
    assert_eq!(
        all(&restart_service(linux(true), None).unwrap()),
        vec!["systemctl restart numa"]
    );
    assert_eq!(all(&stop_service(linux(true)).unwrap()), vec!["systemctl stop numa"]);
    assert_eq!(all(&start_service(linux(true), true).unwrap()), vec!["systemctl start numa"]);
    assert_eq!(
        all(&start_service(linux(false), true).unwrap()),
        all(&install_service(linux(false), true).unwrap())
    );
    let mac = |installed| Host::Macos {
        exe: "/opt/numa",
        plist: "",
        config: config(true),
        installed,
    };
    assert_eq!(
        all(&stop_service(mac(true)).unwrap()),
        vec!["launchctl bootout system /Library/LaunchDaemons/com.numa.dns.plist"]
    );
    assert_eq!(
        all(&start_service(mac(true), false).unwrap()),
        vec![
            "launchctl bootstrap system /Library/LaunchDaemons/com.numa.dns.plist",
            "launchctl kickstart system/com.numa.dns",
        ]
    );
    assert_eq!(
        all(&start_service(mac(false), false).unwrap()),
        all(&install_service(mac(false), false).unwrap())
    );
    let mac = mac(true);
    assert_eq!(
        restart_service(mac, None).unwrap_err(),
        "Service is not installed. Run 'sudo numa service start' first."
    );
    for (r, op) in [
        (install_service(Host::Other, false), "service installation"),
        (uninstall_service(Host::Other), "service uninstallation"),
        (start_service(Host::Other, false), "service start"),
        (stop_service(Host::Other), "service stop"),
        (restart_service(Host::Other, None), "service restart"),
    ] {
        assert!(r.unwrap_err().starts_with(&format!("{op} not supported on this OS")));
    }
}

#[test]
fn status_is_told() {
    assert_eq!(
        service_status(StatusReport::Linux { output: "" }).unwrap(),
        "  Numa service is not installed.\n\n"
    );
    assert_eq!(
        service_status(StatusReport::Linux { output: "a\nb\n" }).unwrap(),
        "  a\n  b\n\n"
    );
    assert_eq!(
        service_status(StatusReport::Macos { output: Some("x") }).unwrap(),
        "  Numa service is loaded.\n\n  x\n\n"
    );
    assert_eq!(
        service_status(StatusReport::Windows { output: "  STATE : 4 RUNNING\n" }).unwrap(),
        "  STATE : 4 RUNNING\n\n"
    );
    assert!(service_status(StatusReport::Other).is_err());
}

#[test]
fn summary_tells_how_to_remove() {
    let s = print_install_summary(false, false, 5380);
    assert_eq!(
        s,
        "\nNuma is live \u{2014} all DNS on this machine now resolves through it.\n\n  \
         Dashboard  https://numa.numa  (or http://127.0.0.1:5380)\n  \
         Remove     sudo numa uninstall  # restores original DNS\n"
    );
    assert!(print_install_summary(true, true, 80).contains("system DNS unchanged"));
}

#[test]
fn certificates_are_trusted_and_not() {
    let stores = linux_trust_stores();
    let host = TrustHost::Linux { store: Some(&stores[0]) };
    assert_eq!(
        trust_ca(&host, "/d/ca.pem", false).unwrap_err(),
        "CA not generated yet \u{2014} start numa first to create certificates"
    );
    assert_eq!(
        all(&trust_ca(&host, "/d/ca.pem", true).unwrap()),
        vec![
            "copy /d/ca.pem /usr/local/share/ca-certificates/numa-local-ca.crt",
            "update-ca-certificates",
        ]
    );
    assert_eq!(
        all(&untrust_ca(&host)),
        vec![
            "remove /usr/local/share/ca-certificates/numa-local-ca.crt",
            "update-ca-certificates --fresh",
        ]
    );
    let none = TrustHost::Linux { store: None };
    assert!(trust_ca(&none, "/d/ca.pem", true).unwrap_err().starts_with("no supported CA"));
    assert!(untrust_ca(&none).is_empty());
    let found = "keychain: x\nSHA-256 hash: AA\nSHA-1 hash: 0123 \nSHA-1 hash: 4567\n";
    let mac = TrustHost::Macos { found: Some(found) };
    assert_eq!(
        all(&untrust_ca(&mac)),
        vec![
            "security delete-certificate -Z 0123 /Library/Keychains/System.keychain",
            "security delete-certificate -Z 4567 /Library/Keychains/System.keychain",
        ]
    );
    assert_eq!(
        all(&trust_ca(&mac, "/d/ca.pem", true).unwrap()),
        vec![
            "security add-trusted-cert -d -r trustRoot -k \
             /Library/Keychains/System.keychain /d/ca.pem"
        ]
    );
    let windows = TrustHost::Windows { common_name: "Numa" };
    assert_eq!(
        all(&trust_ca(&windows, "ca", true).unwrap()),
        vec!["certutil -addstore -f Root ca"]
    );
    assert_eq!(all(&untrust_ca(&windows)), vec!["certutil -delstore Root Numa"]);
    assert_eq!(
        trust_ca(&TrustHost::Other, "ca", true).unwrap_err(),
        "CA trust not supported on this OS"
    );
}

#[test]
fn write_default_config_creates_when_absent() {
    let steps = write_default_config(&config(false));
    assert_eq!(all(&steps), vec!["mkdir /var/lib/numa", "write /var/lib/numa/numa.toml"]);
    assert!(matches!(
        &steps[1].action,
        Action::WriteFile { contents, .. } if contents == "[server]\n"
    ));
    let host = |exists| Host::Linux {
        exe: "/opt/numa",
        traversable: true,
        unit: "",
        config: config(exists),
        installed: false,
    };
    let with = all(&install_service(host(false), false).unwrap());
    assert_eq!(with.last().unwrap(), "write /var/lib/numa/numa.toml");
    let mac = Host::Macos { exe: "/n", plist: "", config: config(false), installed: false };
    let with = all(&install_service(mac, true).unwrap());
    assert_eq!(with.last().unwrap(), "write /var/lib/numa/numa.toml");
}

#[test]
fn write_default_config_never_clobbers() {
    assert!(write_default_config(&config(true)).is_empty());
    let host = Host::Linux {
        exe: "/opt/numa",
        traversable: true,
        unit: "",
        config: config(true),
        installed: false,
    };
    let steps = all(&install_service(host, false).unwrap());
    assert!(!steps.contains(&"write /var/lib/numa/numa.toml".to_string()));
}

fn step(action: Action, cannot: OnFailure, refused: OnFailure) -> Step {
    Step { action, cannot, refused }
}

#[test]
fn failures_are_followed_up() {
    let remove = |missing| Action::RemoveFile { path: "/x".to_string(), missing };
    let s = step(remove(IfMissing::Fail), OnFailure::Stop, OnFailure::Warn);
    assert!(matches!(after_step(&s, Attempt::Done), Next::GoOn { warn: false }));
    assert!(matches!(after_step(&s, Attempt::Failed), Next::Stop { last: None }));
    assert!(matches!(after_step(&s, Attempt::Missing), Next::Stop { last: None }));
    assert!(matches!(after_step(&s, Attempt::Refused), Next::GoOn { warn: true }));
    let s = step(remove(IfMissing::Done), OnFailure::Stop, OnFailure::Stop);
    assert!(matches!(after_step(&s, Attempt::Missing), Next::GoOn { warn: false }));
    let s = step(remove(IfMissing::Leave), OnFailure::WarnAndLeave, OnFailure::Leave);
    assert!(matches!(after_step(&s, Attempt::Missing), Next::Leave { warn: false }));
    assert!(matches!(after_step(&s, Attempt::Failed), Next::Leave { warn: true }));
    assert!(matches!(after_step(&s, Attempt::Refused), Next::Leave { warn: false }));
    let last = OnFailure::StopAfter(remove(IfMissing::Done));
    let s = step(Action::AwaitServer, last, OnFailure::Ignore);
    assert!(matches!(
        after_step(&s, Attempt::Failed),
        Next::Stop { last: Some(Action::RemoveFile { .. }) }
    ));
    assert!(matches!(after_step(&s, Attempt::Refused), Next::GoOn { warn: false }));
}

#[test]
fn services_are_not_waited_for_without_end() {
    assert_eq!(stop_wait(0, Some("STATE : 1 STOPPED")), Wait::Done);
    assert_eq!(stop_wait(0, Some("FAILED 1060")), Wait::Done);
    assert_eq!(stop_wait(18, Some("RUNNING")), Wait::Again(500));
    assert_eq!(stop_wait(19, None), Wait::GiveUp);
    assert_eq!(start_wait(9, true), Wait::Done);
    assert_eq!(start_wait(8, false), Wait::Again(500));
    assert_eq!(start_wait(9, false), Wait::GiveUp);
}

#[test]
fn what_does_not_stop_is_warned_of() {
    let host = windows();
    assert!(matches!(host.install_windows(false)[0].cannot, OnFailure::Warn));
    assert!(matches!(host.uninstall_windows()[0].cannot, OnFailure::Warn));
    let steps = restart_service(Host::Windows(&host), None).unwrap();
    assert!(matches!(steps[0].cannot, OnFailure::Warn));
    assert!(matches!(remove_resolver_dropin()[0].cannot, OnFailure::WarnAndLeave));
    let led = install_macos(&vec![]);
    assert!(matches!(led[0].cannot, OnFailure::WarnAndLeave));
    assert!(matches!(led[1].cannot, OnFailure::WarnAndLeave));
}
