//! The DNS of the host: what its files and tools say, and what follows from it.
use numa::resolv_conf::{
    backup_action, parse_resolv_conf, resolv_conf_has_real_upstream, resolv_conf_is_numa_managed,
    BackupAction,
};
use numa::scutil::discover_macos;
use numa::service_control::{
    backup_has_real_upstream_macos, detect_linux_trust_store, discover_system_dns,
    linux_trust_stores, parse_dns_servers, parse_launchctl_program, parse_network_services,
    parse_sc_registered, parse_sc_state, path_world_traversable, real_servers, replace_exe_path,
    restore_args, sc_create_outcome, sc_start_outcome, sc_stop_outcome, sc_stopped,
    unsupported_os_err, LaunchctlError, ServiceServers, SystemReport,
};
use numa::system_dns::{
    detect_dhcp_dns, discover_windows, is_loopback_or_stub, make_rule, match_forwarding_rule,
    resolvectl_dns_server, try_port53_advisory, BindError,
};

const PATH: &str = "/etc/numa/numa.toml";

#[test]
fn parse_launchctl_program_extracts_path() {
    let sample = b"system/com.numa.dns = {\n\tactive count = 1\n\tpath = /Library/LaunchDaemons/com.numa.dns.plist\n\ttype = LaunchDaemon\n\tstate = running\n\n\tprogram = /Users/rd/projects/dns_fun/target/release/numa\n\targuments = {\n";
    assert_eq!(
        parse_launchctl_program(sample).unwrap(),
        "/Users/rd/projects/dns_fun/target/release/numa"
    );
}

#[test]
fn parse_launchctl_program_errors_when_missing() {
    let sample = b"system/com.numa.dns = {\n\tactive count = 1\n}";
    assert!(parse_launchctl_program(sample).is_err());
}

#[test]
fn launchctl_errors_are_told_apart() {
    assert_eq!(
        parse_launchctl_program(b"state = running\n").err(),
        Some(LaunchctlError::ProgramMissing)
    );
    assert_eq!(
        parse_launchctl_program(&[0xff, 0xfe]).err(),
        Some(LaunchctlError::InvalidUtf8)
    );
}

#[test]
fn replace_exe_path_substitutes_template() {
    let template = "<string>{{exe_path}}</string>\n<key>{{exe_path}}</key>";
    let result = replace_exe_path(template, "/usr/local/bin/numa");
    assert!(!result.contains("{{exe_path}}"));
    assert_eq!(
        result,
        "<string>/usr/local/bin/numa</string>\n<key>/usr/local/bin/numa</key>"
    );
}

#[test]
fn macos_backup_real_upstream_detection() {
    fn service(name: &str, server: &str) -> ServiceServers {
        ServiceServers { service: name.into(), servers: vec![server.into()] }
    }
    let mut map: Vec<ServiceServers> = Vec::new();

    // Empty backup -> no real upstream
    assert!(!backup_has_real_upstream_macos(&map));

    // All-loopback backup -> still no real upstream
    map.push(service("Wi-Fi", "127.0.0.1"));
    map.push(service("Ethernet", "::1"));
    assert!(!backup_has_real_upstream_macos(&map));

    // One real entry -> useful
    map.push(service("Tailscale", "192.168.1.1"));
    assert!(backup_has_real_upstream_macos(&map));
}

#[test]
fn captured_servers_are_real() {
    let all = vec!["127.0.0.1".to_string(), "9.9.9.9".to_string(), "127.0.0.53".to_string()];
    assert_eq!(real_servers(&all), vec!["9.9.9.9"]);
}

#[test]
fn resolv_conf_real_upstream_detection() {
    let real = "nameserver 192.168.1.1\nsearch lan\n";
    assert!(resolv_conf_has_real_upstream(real));
    assert!(!resolv_conf_is_numa_managed(real));

    let self_ref = "nameserver 127.0.0.1\nsearch numa\n";
    assert!(!resolv_conf_has_real_upstream(self_ref));
    assert!(resolv_conf_is_numa_managed(self_ref));

    let numa_marker =
        "# Generated by Numa \u{2014} run 'sudo numa uninstall' to restore\nnameserver 127.0.0.1\nsearch numa\n";
    assert!(resolv_conf_is_numa_managed(numa_marker));

    let systemd_stub = "nameserver 127.0.0.53\noptions edns0\n";
    assert!(!resolv_conf_has_real_upstream(systemd_stub));

    let mixed = "nameserver 127.0.0.1\nnameserver 1.1.1.1\n";
    assert!(resolv_conf_has_real_upstream(mixed));
    assert!(!resolv_conf_is_numa_managed(mixed));
}

#[test]
fn parse_resolv_conf_ignores_root_search_domain() {
    let content = "nameserver 127.0.0.53\noptions edns0 trust-ad\nsearch .\n";
    let (upstream, search_domains) = parse_resolv_conf(Some(content));
    assert_eq!(upstream, None);
    assert!(search_domains.is_empty());
}

#[test]
fn parse_resolv_conf_preserves_real_search_domains() {
    let content = "nameserver 192.168.1.1\nsearch ec2.internal compute.internal. corp.example.\n";
    let (upstream, search_domains) = parse_resolv_conf(Some(content));
    assert_eq!(upstream.as_deref(), Some("192.168.1.1"));
    assert_eq!(
        search_domains,
        vec!["ec2.internal", "compute.internal", "corp.example"]
    );
    assert_eq!(parse_resolv_conf(None), (None, vec![]));
}

#[test]
fn backups_keep_a_real_file() {
    let real = "nameserver 192.168.1.1\n";
    let own = "nameserver 127.0.0.1\nsearch numa\n";
    assert_eq!(backup_action(Some(real), None), BackupAction::Save);
    assert_eq!(backup_action(Some(own), Some(real)), BackupAction::Preserve);
    assert_eq!(backup_action(Some(own), None), BackupAction::Skip);
    assert_eq!(backup_action(None, None), BackupAction::Nothing);
}

#[test]
fn try_port53_advisory_addr_in_use() {
    let msg = try_port53_advisory("0.0.0.0:53", BindError::AddrInUse, PATH)
        .expect("should advise on port 53");
    assert!(msg.contains("cannot bind to"));
    assert!(msg.contains("already in use"));
    assert!(msg.contains("numa install"));
    assert!(msg.contains("bind_addr"));
}

#[test]
fn try_port53_advisory_permission_denied() {
    let msg = try_port53_advisory("0.0.0.0:53", BindError::PermissionDenied, PATH)
        .expect("should advise on port 53");
    assert!(msg.contains("cannot bind to"));
    assert!(msg.contains("permission denied"));
    assert!(msg.contains("numa install"));
    assert!(msg.contains("bind_addr"));
}

#[test]
fn try_port53_advisory_skips_non_53_ports() {
    assert!(try_port53_advisory("127.0.0.1:5354", BindError::AddrInUse, PATH).is_none());
    assert!(try_port53_advisory("[::]:853", BindError::AddrInUse, PATH).is_none());
}

#[test]
fn try_port53_advisory_skips_unrelated_error_kinds() {
    assert!(try_port53_advisory("0.0.0.0:53", BindError::Other, PATH).is_none());
}

#[test]
fn try_port53_advisory_skips_malformed_bind_addr() {
    assert!(try_port53_advisory("not-an-address", BindError::AddrInUse, PATH).is_none());
}

#[test]
fn sc_query_running_service_is_registered() {
    assert!(parse_sc_registered(true, ""));
}

#[test]
fn sc_query_stopped_service_is_registered() {
    let output = "SERVICE_NAME: Numa\n        TYPE: 10  WIN32_OWN\n        STATE: 1  STOPPED\n";
    assert!(parse_sc_registered(true, output));
}

#[test]
fn sc_query_missing_service_not_registered() {
    let output = "[SC] EnumQueryServicesStatus:OpenService FAILED 1060:\n\nThe specified service does not exist as an installed service.\n";
    assert!(!parse_sc_registered(false, output));
}

#[test]
fn sc_query_other_error_assumes_registered() {
    // Permission denied or other errors: don't assume unregistered.
    let output = "[SC] OpenService FAILED 5:\n\nAccess is denied.\n";
    assert!(parse_sc_registered(false, output));
}

#[test]
fn parse_sc_state_running() {
    let output = "SERVICE_NAME: Numa\n        TYPE               : 10  WIN32_OWN_PROCESS\n        STATE              : 4  RUNNING\n        WIN32_EXIT_CODE    : 0\n";
    assert!(parse_sc_state(output).contains("RUNNING"));
}

#[test]
fn parse_sc_state_stopped() {
    let output = "SERVICE_NAME: Numa\n        TYPE               : 10  WIN32_OWN_PROCESS\n        STATE              : 1  STOPPED\n";
    assert!(parse_sc_state(output).contains("STOPPED"));
}

#[test]
fn parse_sc_state_not_installed() {
    let output = "[SC] EnumQueryServicesStatus:OpenService FAILED 1060:\n\n";
    assert_eq!(parse_sc_state(output), "Service is not installed.");
}

#[test]
fn parse_sc_state_empty_output() {
    assert_eq!(parse_sc_state(""), "unknown");
}

#[test]
fn stub_addresses_are_no_upstreams() {
    assert!(is_loopback_or_stub("127.0.0.1"));
    assert!(is_loopback_or_stub("127.0.0.53"));
    assert!(is_loopback_or_stub("::1"));
    assert!(!is_loopback_or_stub("9.9.9.9"));
}

#[test]
fn rules_cover_their_domain() {
    let rules = vec![make_rule("ts.net", "100.100.100.100").unwrap()];
    let pool = match_forwarding_rule("host.ts.net", &rules).unwrap();
    assert_eq!(pool.label(), "100.100.100.100:53");
    assert!(match_forwarding_rule("ts.net", &rules).is_some());
    assert!(match_forwarding_rule("evilts.net", &rules).is_none());
    assert!(make_rule("ts.net", "no address").is_none());
}

#[test]
fn scutil_report_gives_upstream_and_rules() {
    let report = "DNS configuration\n\nresolver #1\n  nameserver[0] : 192.168.1.1\n  reach    : 0x00020002\n\nresolver #2\n  domain   : ts.net\n  nameserver[0] : 100.100.100.100\n  flags    : Supplemental, Request A records\n  reach    : 0x00000002\n\nDNS configuration (for scoped queries)\n";
    let info = discover_macos(report);
    assert_eq!(info.default_upstream.as_deref(), Some("192.168.1.1"));
    assert_eq!(info.forwarding_rules.len(), 1);
    assert_eq!(info.forwarding_rules[0].suffix, "ts.net");
}

#[test]
fn resolvectl_and_ipconfig_reports_are_read() {
    let text = "Global\n  Current DNS Server: 192.168.1.1\n  DNS Servers: 192.168.1.1 9.9.9.9\n";
    assert_eq!(resolvectl_dns_server(text).as_deref(), Some("192.168.1.1"));
    let text = "Windows IP Configuration\n   DNS Servers . . . . . . . . . . . : 10.0.0.1\n";
    assert_eq!(discover_windows(text).default_upstream.as_deref(), Some("10.0.0.1"));
    let text = "domain_name_server (ip_mult): {127.0.0.1, 10.1.1.1}\n";
    assert_eq!(detect_dhcp_dns(Some("lease\n"), Some(text)).as_deref(), Some("10.1.1.1"));
}

#[test]
fn paths_are_traversable_only_for_all() {
    assert!(path_world_traversable(&vec![Some(0o755), Some(0o711)]));
    assert!(!path_world_traversable(&vec![Some(0o755), Some(0o700)]));
}

#[test]
fn linux_sources_are_asked_in_turn() {
    let stub = "nameserver 127.0.0.53\nsearch corp.example\n";
    let ctl = "  Current DNS Server: 10.0.0.2\n";
    let kept = "nameserver 10.9.9.9\n";
    let info = discover_system_dns(SystemReport::Linux {
        resolv: Some(stub),
        resolvectl: Some(ctl),
        backup: Some(kept),
    });
    assert_eq!(info.default_upstream.as_deref(), Some("10.0.0.2"));
    assert!(info.forwarding_rules.is_empty(), "no rules follow on this system");
    let real = "nameserver 127.0.0.53\nnameserver 192.168.1.1\nsearch corp.example\n";
    let info = discover_system_dns(SystemReport::Linux {
        resolv: Some(real),
        resolvectl: Some(ctl),
        backup: None,
    });
    assert_eq!(info.default_upstream.as_deref(), Some("192.168.1.1"));
    assert!(info.forwarding_rules.is_empty());
    let info = discover_system_dns(SystemReport::Linux {
        resolv: Some(stub),
        resolvectl: None,
        backup: Some(kept),
    });
    assert_eq!(info.default_upstream.as_deref(), Some("10.9.9.9"));
    let info = discover_system_dns(SystemReport::Other);
    assert!(info.default_upstream.is_none());
    assert!(info.forwarding_rules.is_empty());
}

#[test]
fn sc_failures_that_change_nothing_are_none() {
    assert!(sc_create_outcome(true, "").is_ok());
    assert!(sc_create_outcome(false, "[SC] CreateService FAILED 1073:").is_ok());
    assert_eq!(
        sc_create_outcome(false, " access denied \n"),
        Err("sc create failed: access denied".to_string())
    );
    assert!(sc_start_outcome(true, "").is_ok());
    assert_eq!(
        sc_start_outcome(false, "FAILED 1056"),
        Err("sc start failed: FAILED 1056".to_string())
    );
    assert_eq!(sc_start_outcome(false, "no"), Err("sc start failed: no".to_string()));
    assert!(sc_stop_outcome(false, "FAILED 1062").is_ok());
    assert!(sc_stop_outcome(false, "FAILED 1060").is_ok());
    assert_eq!(sc_stop_outcome(false, "no"), Err("sc stop failed: no".to_string()));
    assert!(sc_stopped("STATE : 1  STOPPED"));
    assert!(!sc_stopped("STATE : 4  RUNNING"));
}

#[test]
fn networksetup_answers_are_read() {
    let text = "An asterisk (*) denotes that a network service is disabled.\nWi-Fi\n*Thunderbolt Bridge\n\n";
    assert_eq!(parse_network_services(text), vec!["Wi-Fi", "Thunderbolt Bridge"]);
    assert!(parse_dns_servers("There aren't any DNS Servers set on Wi-Fi.\n").is_empty());
    assert_eq!(parse_dns_servers("1.1.1.1\n 8.8.8.8\n"), vec!["1.1.1.1", "8.8.8.8"]);
    assert_eq!(restore_args("Wi-Fi", &Vec::new()), vec!["-setdnsservers", "Wi-Fi", "Empty"]);
    assert_eq!(
        restore_args("Wi-Fi", &vec!["1.1.1.1".to_string()]),
        vec!["-setdnsservers", "Wi-Fi", "1.1.1.1"]
    );
}

#[test]
fn the_first_trust_store_is_taken() {
    let stores = linux_trust_stores();
    let present: Vec<bool> = stores.iter().map(|s| s.name != "debian").collect();
    assert_eq!(detect_linux_trust_store(&present), Some(1));
    assert_eq!(stores[1].anchor_dir, "/etc/pki/ca-trust/source/anchors");
    assert_eq!(detect_linux_trust_store(&vec![false, false, false]), None);
}

#[test]
fn unsupported_systems_are_told() {
    assert!(unsupported_os_err("system DNS configuration")
        .starts_with("system DNS configuration not supported on this OS"));
}
