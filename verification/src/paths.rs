//! Where the files of the server are.
use vstd::prelude::*;

use crate::service_control::utf8_text;
use crate::text::{concat, concat3, has_prefix, starts_with, str_eq, texts, trim, trimmed};
use vstd::utf8::{decode_utf8, valid_utf8};

verus! {

/// A path and the name of something under it.
pub open spec fn joined_path(dir: Seq<char>, name: Seq<char>) -> Seq<char> {
    if dir.len() == 0 || dir.last() == '/' {
        dir + name
    } else {
        dir + "/"@ + name
    }
}

/// A path and the name of something under it.
pub fn join_path(dir: &str, name: &str) -> (s: String)
    ensures
        s@ == joined_path(dir@, name@),
{
    let x = crate::text::chars_of(dir);
    if x.len() == 0 || x[x.len() - 1] == '/' {
        concat(dir, name)
    } else {
        concat3(dir, "/", name)
    }
}

/// The directory of the server's files under the home of a user.
pub open spec fn user_dir(home: Seq<char>) -> Seq<char> {
    joined_path(joined_path(home, ".config"@), "numa"@)
}

fn dir_under(home: &str) -> (s: String)
    ensures
        s@ == user_dir(home@),
{
    join_path(join_path(home, ".config").as_str(), "numa")
}

/// Whether a home is one of a user.
pub open spec fn real_home(home: Option<&str>) -> bool {
    home matches Some(h) && h@.len() > 0 && h@ != "/"@
}

/// The path at which to suggest a configuration file: under the home of the
/// user, or where there is none, in a directory that is asked for only then.
pub fn resolve_suggested_config_path<F: FnOnce() -> String>(home: Option<&str>, fallback_dir: F)
    -> (s: String)
    requires
        fallback_dir.requires(()),
    ensures
        real_home(home) ==> s@ == joined_path(user_dir(home->0@), "numa.toml"@),
        !real_home(home) ==> exists|d: String|
            fallback_dir.ensures((), d) && s@ == #[trigger] joined_path(d@, "numa.toml"@),
{
    if let Some(h) = home {
        if !h.is_empty() && !str_eq(h, "/") {
            return join_path(dir_under(h).as_str(), "numa.toml");
        }
    }
    let d = fallback_dir();
    join_path(d.as_str(), "numa.toml")
}

/// Whether a home is the one of the superuser.
pub open spec fn root_home(home: Seq<char>) -> bool {
    has_prefix(home, "/var/root"@) || has_prefix(home, "/root"@)
}

/// The directory for the server's files: under the home of the user who called
/// it as the superuser, or of the user; for the superuser, that of the system.
pub open spec fn unix_config_dir(
    sudo_user: Option<Seq<char>>,
    home: Option<Seq<char>>,
    macos: bool,
    system_dir: Seq<char>,
) -> Seq<char> {
    match sudo_user {
        Some(u) => user_dir(
            (if macos {
                "/Users/"@
            } else {
                "/home/"@
            }) + u,
        ),
        None => match home {
            Some(h) => if root_home(h) {
                system_dir
            } else {
                user_dir(h)
            },
            None => system_dir,
        },
    }
}

/// The directory for the server's files on Unix.
pub fn config_dir_unix(
    sudo_user: Option<&str>,
    home: Option<&str>,
    macos: bool,
    system_dir: &str,
) -> (s: String)
    ensures
        s@ == unix_config_dir(
            match sudo_user {
                Some(u) => Some(u@),
                None => None,
            },
            match home {
                Some(h) => Some(h@),
                None => None,
            },
            macos,
            system_dir@,
        ),
{
    if let Some(user) = sudo_user {
        let home = if macos {
            concat("/Users/", user)
        } else {
            concat("/home/", user)
        };
        return dir_under(home.as_str());
    }
    if let Some(h) = home {
        if !starts_with(h, "/var/root") && !starts_with(h, "/root") {
            return dir_under(h);
        }
    }
    system_dir.to_owned()
}

/// The directory of the system for the server's files on Linux. An installation
/// that has its files at the old place alone keeps them there.
pub fn resolve_linux_data_dir(legacy_exists: bool, fhs_exists: bool) -> (s: &'static str)
    ensures
        s@ == (if legacy_exists && !fhs_exists {
            "/usr/local/var/numa"@
        } else {
            "/var/lib/numa"@
        }),
{
    if legacy_exists && !fhs_exists {
        "/usr/local/var/numa"
    } else {
        "/var/lib/numa"
    }
}

/// The kinds of systems that differ in where files are.
#[derive(Debug, Clone, Copy, PartialEq, Eq, Structural)]
pub enum Platform {
    Linux,
    Macos,
    Windows,
    Other,
}

/// A directory of Windows and something under it.
pub open spec fn windows_path(dir: Seq<char>, name: Seq<char>) -> Seq<char> {
    dir + "\\"@ + name
}

/// The directory of the system for the server's files: on Windows, under the one
/// for the data of programs.
pub open spec fn system_data_dir(
    platform: Platform,
    program_data: Option<Seq<char>>,
    legacy_exists: bool,
    fhs_exists: bool,
) -> Seq<char> {
    match platform {
        Platform::Windows => windows_path(
            match program_data {
                Some(d) => d,
                None => "C:\\ProgramData"@,
            },
            "numa"@,
        ),
        Platform::Linux => if legacy_exists && !fhs_exists {
            "/usr/local/var/numa"@
        } else {
            "/var/lib/numa"@
        },
        _ => "/usr/local/var/numa"@,
    }
}

/// The directory of the system for the server's files.
pub fn data_dir(
    platform: Platform,
    program_data: Option<&str>,
    legacy_exists: bool,
    fhs_exists: bool,
) -> (s: String)
    ensures
        s@ == system_data_dir(
            platform,
            match program_data {
                Some(d) => Some(d@),
                None => None,
            },
            legacy_exists,
            fhs_exists,
        ),
{
    match platform {
        Platform::Windows => {
            let root = match program_data {
                Some(d) => d,
                None => "C:\\ProgramData",
            };
            concat3(root, "\\", "numa")
        },
        Platform::Linux => resolve_linux_data_dir(legacy_exists, fhs_exists).to_owned(),
        _ => "/usr/local/var/numa".to_owned(),
    }
}

/// The directory for what the server keeps: on Windows that of the system, as it
/// has none for a user.
pub fn config_dir(
    platform: Platform,
    sudo_user: Option<&str>,
    home: Option<&str>,
    system_dir: &str,
) -> (s: String)
    ensures
        s@ == (if platform is Windows {
            system_dir@
        } else {
            unix_config_dir(
                match sudo_user {
                    Some(u) => Some(u@),
                    None => None,
                },
                match home {
                    Some(h) => Some(h@),
                    None => None,
                },
                platform is Macos,
                system_dir@,
            )
        }),
{
    match platform {
        Platform::Windows => system_dir.to_owned(),
        Platform::Macos => config_dir_unix(sudo_user, home, true, system_dir),
        _ => config_dir_unix(sudo_user, home, false, system_dir),
    }
}

/// Where the nameservers that the host had are kept, by the home of the user.
pub fn backup_path_linux(home: Option<&str>) -> (s: String)
    ensures
        s@ == joined_path(
            joined_path(
                match home {
                    Some(h) => h@,
                    None => "/root"@,
                },
                ".numa"@,
            ),
            "original-resolv.conf"@,
        ),
{
    let h = match home {
        Some(h) => h,
        None => "/root",
    };
    join_path(join_path(h, ".numa").as_str(), "original-resolv.conf")
}

/// Where the nameservers that the host had are kept on macOS: under the home of
/// the user, that of the user who called as the superuser, or that of the
/// superuser.
pub fn backup_path_macos(home: Option<&str>, sudo_user: Option<&str>) -> (s: String)
    ensures
        s@ == joined_path(
            joined_path(
                match (home, sudo_user) {
                    (Some(h), _) => h@,
                    (None, Some(u)) => "/Users/"@ + u@,
                    (None, None) => "/var/root"@,
                },
                ".numa"@,
            ),
            "original-dns.json"@,
        ),
{
    let h = match home {
        Some(h) => h.to_owned(),
        None => match sudo_user {
            Some(u) => concat("/Users/", u),
            None => "/var/root".to_owned(),
        },
    };
    join_path(join_path(h.as_str(), ".numa").as_str(), "original-dns.json")
}

/// The path of the configuration file that a command changes: on Windows the one
/// that the service reads.
pub fn cli_config_path(platform: Platform, system_dir: &str) -> (s: String)
    ensures
        s@ == (if platform is Windows {
            windows_path(system_dir@, "numa.toml"@)
        } else {
            "numa.toml"@
        }),
{
    match platform {
        Platform::Windows => concat3(system_dir, "\\", "numa.toml"),
        _ => "numa.toml".to_owned(),
    }
}

/// The version of the program: the one that was set when it was built, or that
/// of the package.
pub fn version(build: Option<&'static str>, package: &'static str) -> (s: &'static str)
    ensures
        s@ == (match build {
            Some(b) => b@,
            None => package@,
        }),
{
    match build {
        Some(b) => b,
        None => package,
    }
}

/// The name of the host, from what the system's command for it printed.
pub open spec fn host_name(printed: Option<Seq<u8>>) -> Seq<char> {
    match printed {
        Some(b) => if valid_utf8(b) && trimmed(decode_utf8(b)).len() > 0 {
            trimmed(decode_utf8(b))
        } else {
            "numa"@
        },
        None => "numa"@,
    }
}

/// The name of the host, from what the system's command for it printed.
pub fn hostname(printed: Option<&[u8]>) -> (s: String)
    ensures
        s@ == host_name(
            match printed {
                Some(b) => Some(b@),
                None => None,
            },
        ),
{
    if let Some(b) = printed {
        if let Some(t) = utf8_text(b) {
            let h = trim(t.as_str());
            if !h.as_str().is_empty() {
                return h;
            }
        }
    }
    "numa".to_owned()
}

/// The places where a configuration file is looked for, in their order: the path
/// itself; and where that is relative, by its last part, also in the directory
/// for the server's files and in that of the system, and at the suggested path.
pub open spec fn candidates(
    path: Seq<char>,
    relative_name: Option<Seq<char>>,
    config_dir: Seq<char>,
    data_dir: Seq<char>,
    suggested: Seq<char>,
) -> Seq<Seq<char>> {
    match relative_name {
        None => seq![path],
        Some(name) => {
            let three = seq![path, joined_path(config_dir, name), joined_path(data_dir, name)];
            if three.contains(suggested) {
                three
            } else {
                three.push(suggested)
            }
        },
    }
}

/// The places where a configuration file is looked for, in their order. The last
/// part of a path is given where the path is relative.
pub fn config_candidates(
    path: &str,
    relative_name: Option<&str>,
    config_dir: &str,
    data_dir: &str,
    suggested: &str,
) -> (v: Vec<String>)
    ensures
        texts(v@) == candidates(
            path@,
            match relative_name {
                Some(n) => Some(n@),
                None => None,
            },
            config_dir@,
            data_dir@,
            suggested@,
        ),
{
    let mut v: Vec<String> = Vec::new();
    v.push(path.to_owned());
    if let Some(name) = relative_name {
        v.push(join_path(config_dir, name));
        v.push(join_path(data_dir, name));
        let ghost three = texts(v@);
        assert(three =~= seq![
            path@,
            joined_path(config_dir@, name@),
            joined_path(data_dir@, name@),
        ]);
        let known = str_eq(v[0].as_str(), suggested) || str_eq(v[1].as_str(), suggested) || str_eq(
            v[2].as_str(),
            suggested,
        );
        assert(known == three.contains(suggested@)) by {
            assert(three[0] == v@[0]@ && three[1] == v@[1]@ && three[2] == v@[2]@);
        }
        if !known {
            v.push(suggested.to_owned());
            assert(texts(v@) =~= three.push(suggested@));
        }
    } else {
        assert(texts(v@) =~= seq![path@]);
    }
    v
}

} // verus!
