//! Where the files of the server are.
use numa::paths::{
    backup_path_linux, backup_path_macos, cli_config_path, config_candidates, config_dir, config_dir_unix, data_dir, hostname,
    resolve_linux_data_dir, resolve_suggested_config_path, version, Platform,
};

#[test]
fn linux_data_dir_fresh_install_uses_fhs() {
    assert_eq!(resolve_linux_data_dir(false, false), "/var/lib/numa");
}

#[test]
fn linux_data_dir_upgrading_install_keeps_legacy() {
    // Migration must keep legacy so the user doesn't lose their CA on upgrade.
    assert_eq!(resolve_linux_data_dir(true, false), "/usr/local/var/numa");
}

#[test]
fn linux_data_dir_after_migration_uses_fhs() {
    assert_eq!(resolve_linux_data_dir(true, true), "/var/lib/numa");
}

#[test]
fn linux_data_dir_only_fhs_uses_fhs() {
    assert_eq!(resolve_linux_data_dir(false, true), "/var/lib/numa");
}

fn fhs() -> String {
    "/var/lib/numa".to_string()
}

#[test]
fn suggested_config_path_prefers_home() {
    assert_eq!(
        resolve_suggested_config_path(Some("/home/alice"), fhs),
        "/home/alice/.config/numa/numa.toml",
    );
}

#[test]
fn suggested_config_path_prefers_root_home_over_fhs() {
    // Interactive root: HOME=/root is a real user context, not a daemon signal.
    assert_eq!(
        resolve_suggested_config_path(Some("/root"), fhs),
        "/root/.config/numa/numa.toml",
    );
}

#[test]
fn suggested_config_path_falls_back_when_home_unset() {
    assert_eq!(
        resolve_suggested_config_path(None, fhs),
        "/var/lib/numa/numa.toml",
    );
}

#[test]
fn suggested_config_path_falls_back_when_home_is_root() {
    // systemd services sometimes have HOME=/: don't treat that as a real home.
    assert_eq!(
        resolve_suggested_config_path(Some("/"), fhs),
        "/var/lib/numa/numa.toml",
    );
}

#[test]
fn suggested_config_path_falls_back_when_home_is_empty() {
    assert_eq!(
        resolve_suggested_config_path(Some(""), fhs),
        "/var/lib/numa/numa.toml",
    );
}

#[test]
fn suggested_config_path_skips_fallback_when_home_valid() {
    // The happy path shouldn't ask for the fallback at all.
    let called = std::cell::Cell::new(false);
    let fallback = || {
        called.set(true);
        "/should/not/be/used".to_string()
    };
    let _ = resolve_suggested_config_path(Some("/home/alice"), fallback);
    assert!(
        !called.get(),
        "fallback must not be invoked when HOME is valid"
    );
}

#[test]
fn config_dir_follows_the_user() {
    let dir = |sudo, home, macos| config_dir_unix(sudo, home, macos, "/var/lib/numa");
    assert_eq!(dir(Some("bob"), Some("/root"), false), "/home/bob/.config/numa");
    assert_eq!(dir(Some("bob"), None, true), "/Users/bob/.config/numa");
    assert_eq!(dir(None, Some("/home/alice/"), false), "/home/alice/.config/numa");
    assert_eq!(dir(None, Some("/root"), false), "/var/lib/numa");
    assert_eq!(dir(None, Some("/var/root"), true), "/var/lib/numa");
    assert_eq!(dir(None, None, false), "/var/lib/numa");
}

#[test]
fn configuration_is_looked_for_in_order() {
    let home = "/home/alice/.config/numa";
    let suggested = "/home/alice/.config/numa/numa.toml";
    assert_eq!(
        config_candidates("numa.toml", Some("numa.toml"), home, "/var/lib/numa", suggested),
        vec!["numa.toml", suggested, "/var/lib/numa/numa.toml"]
    );
    assert_eq!(
        config_candidates("numa.toml", Some("numa.toml"), "/x", "/y", suggested),
        vec!["numa.toml", "/x/numa.toml", "/y/numa.toml", suggested]
    );
    assert_eq!(config_candidates("/etc/n.toml", None, "/x", "/y", suggested), vec!["/etc/n.toml"]);
}

#[test]
fn hostname_comes_from_the_command() {
    assert_eq!(hostname(Some(b"box.local\n")), "box.local");
    assert_eq!(hostname(Some(b" \n")), "numa");
    assert_eq!(hostname(Some(&[0xff])), "numa");
    assert_eq!(hostname(None), "numa");
}

#[test]
fn windows_config_dir_equals_data_dir() {
    let data = data_dir(Platform::Windows, Some("D:\\Data"), false, false);
    assert_eq!(data, "D:\\Data\\numa");
    assert_eq!(config_dir(Platform::Windows, Some("u"), Some("/home/u"), &data), data);
}

#[test]
fn directories_differ_by_system() {
    assert_eq!(data_dir(Platform::Windows, None, true, true), "C:\\ProgramData\\numa");
    assert_eq!(data_dir(Platform::Linux, None, false, false), "/var/lib/numa");
    assert_eq!(data_dir(Platform::Macos, None, false, false), "/usr/local/var/numa");
    assert_eq!(
        config_dir(Platform::Macos, Some("u"), None, "/s"),
        "/Users/u/.config/numa"
    );
    assert_eq!(config_dir(Platform::Other, None, None, "/s"), "/s");
    assert_eq!(cli_config_path(Platform::Windows, "C:\\d"), "C:\\d\\numa.toml");
    assert_eq!(cli_config_path(Platform::Linux, "/d"), "numa.toml");
    assert_eq!(version(Some("0.13.1+a87f907"), "0.13.1"), "0.13.1+a87f907");
    assert_eq!(version(None, "0.13.1"), "0.13.1");
}

#[test]
fn backups_are_under_a_home() {
    assert_eq!(backup_path_linux(Some("/home/u")), "/home/u/.numa/original-resolv.conf");
    assert_eq!(backup_path_linux(None), "/root/.numa/original-resolv.conf");
    assert_eq!(backup_path_macos(Some("/h"), Some("u")), "/h/.numa/original-dns.json");
    assert_eq!(backup_path_macos(None, Some("u")), "/Users/u/.numa/original-dns.json");
    assert_eq!(backup_path_macos(None, None), "/var/root/.numa/original-dns.json");
}
