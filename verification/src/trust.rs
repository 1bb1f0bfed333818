//! Letting the host trust the certificates of the server, and no longer.
use vstd::prelude::*;

use crate::service_control::LinuxTrustStore;
use crate::steps::{
    add_may, add_must, add_step, may, must, run, run4, run5, run_program, steps, Action,
    ActionView, FailureView, IfMissing, OnFailure, Step, StepView,
};
use crate::text::{
    concat3, drop_prefix, has_prefix, lines, starts_with, text_lines, texts, trim, trimmed,
    without_prefix,
};

verus! {

/// Where the system keeps the certificates that it trusts on macOS.
pub const SYSTEM_KEYCHAIN: &'static str = "/Library/Keychains/System.keychain";

/// Where a store of certificates takes that of the server from.
pub open spec fn anchor(s: &LinuxTrustStore) -> Seq<char> {
    s.anchor_dir@ + "/"@ + s.anchor_file@
}

fn anchor_path(s: &LinuxTrustStore) -> (r: String)
    ensures
        r@ == anchor(s),
{
    concat3(s.anchor_dir, "/", s.anchor_file)
}

fn run_refresh(argv: &Vec<String>) -> (r: Action)
    ensures
        r@ == run(texts(argv@)),
{
    let mut v: Vec<String> = Vec::new();
    let mut i: usize = 0;
    while i < argv.len()
        invariant
            i <= argv.len(),
            v@.len() == i,
            forall|j: int| 0 <= j < i ==> (#[trigger] v@[j])@ == argv@[j]@,
        decreases argv.len() - i,
    {
        v.push(argv[i].clone());
        i += 1;
    }
    let harmless: Vec<String> = Vec::new();
    assert(texts(harmless@) =~= Seq::<Seq<char>>::empty());
    assert(texts(v@) =~= texts(argv@));
    Action::Run { argv: v, harmless }
}

/// The steps that let the host trust a certificate: it goes where the store of
/// the host takes it from, and the store takes notice.
pub open spec fn linux_trust_plan(store: &LinuxTrustStore, ca_path: Seq<char>) -> Seq<StepView> {
    seq![
        must(ActionView::CopyFile { from: ca_path, to: anchor(store) }),
        must(run(texts(store.refresh_install@))),
    ]
}

/// The steps that let the host trust a certificate on Linux; or the message
/// where it has no store that is known.
pub fn trust_ca_linux(store: Option<&LinuxTrustStore>, ca_path: &str) -> (r: Result<
    Vec<Step>,
    &'static str,
>)
    ensures
        match (r, store) {
            (Ok(v), Some(s)) => steps(v@) == linux_trust_plan(s, ca_path@),
            (Err(m), None) => m@
                == "no supported CA trust store found (tried: debian, pki, p11kit). Please report at https://github.com/razvandimescu/numa/issues"@,
            _ => false,
        },
{
    let s = match store {
        Some(s) => s,
        None => {
            return Err(
                "no supported CA trust store found (tried: debian, pki, p11kit). Please report at https://github.com/razvandimescu/numa/issues",
            );
        },
    };
    let mut v: Vec<Step> = Vec::new();
    add_must(&mut v, Action::CopyFile { from: ca_path.to_owned(), to: anchor_path(s) });
    add_must(&mut v, run_refresh(&s.refresh_install));
    assert(steps(v@) =~= linux_trust_plan(s, ca_path@));
    Ok(v)
}

/// The steps that let the host trust the certificate no longer. Where it was not
/// there, the store need not take notice.
pub open spec fn linux_distrust_plan(store: &LinuxTrustStore) -> Seq<StepView> {
    seq![
        StepView {
            action: ActionView::RemoveFile { path: anchor(store), missing: IfMissing::Fail },
            cannot: FailureView::Leave,
            refused: FailureView::Leave,
        },
        may(run(texts(store.refresh_uninstall@))),
    ]
}

/// The steps that let the host trust the certificate no longer on Linux: none
/// where it has no store that is known.
pub fn untrust_ca_linux(store: Option<&LinuxTrustStore>) -> (v: Vec<Step>)
    ensures
        steps(v@) == (match store {
            Some(s) => linux_distrust_plan(s),
            None => Seq::empty(),
        }),
{
    let mut v: Vec<Step> = Vec::new();
    assert(steps(v@) =~= Seq::<StepView>::empty());
    if let Some(s) = store {
        add_step(
            &mut v,
            Action::RemoveFile { path: anchor_path(s), missing: IfMissing::Fail },
            OnFailure::Leave,
            OnFailure::Leave,
        );
        add_may(&mut v, run_refresh(&s.refresh_uninstall));
        assert(steps(v@) =~= linux_distrust_plan(s));
    }
    v
}

/// The command that lets the host trust a certificate.
pub open spec fn macos_trust(ca_path: Seq<char>) -> ActionView {
    run(
        seq![
            "security"@,
            "add-trusted-cert"@,
            "-d"@,
            "-r"@,
            "trustRoot"@,
            "-k"@,
            SYSTEM_KEYCHAIN@,
            ca_path,
        ],
    )
}

/// The steps that let the host trust a certificate on macOS.
pub fn trust_ca_macos(ca_path: &str) -> (v: Vec<Step>)
    ensures
        steps(v@) == seq![must(macos_trust(ca_path@))],
{
    let a = run_program(
        ["security", "add-trusted-cert", "-d", "-r", "trustRoot", "-k", SYSTEM_KEYCHAIN, ca_path],
    );
    assert(a@->Run_argv =~= macos_trust(ca_path@)->Run_argv);
    let mut v: Vec<Step> = Vec::new();
    add_must(&mut v, a);
    assert(steps(v@) =~= seq![must(macos_trust(ca_path@))]);
    v
}

/// The fingerprints in lines about certificates.
pub open spec fn fingerprints(lines: Seq<Seq<char>>) -> Seq<Seq<char>>
    decreases lines.len(),
{
    if lines.len() == 0 {
        Seq::empty()
    } else if has_prefix(lines.last(), "SHA-1 hash: "@) {
        fingerprints(lines.drop_last()).push(
            trimmed(without_prefix(lines.last(), "SHA-1 hash: "@)),
        )
    } else {
        fingerprints(lines.drop_last())
    }
}

/// The steps that take certificates away by their fingerprints.
pub open spec fn macos_distrust_plan(hashes: Seq<Seq<char>>) -> Seq<StepView> {
    hashes.map_values(
        |h: Seq<char>|
            may(run(seq!["security"@, "delete-certificate"@, "-Z"@, h, SYSTEM_KEYCHAIN@])),
    )
}

/// The steps that let the host trust the certificate no longer on macOS, by what
/// `security find-certificate` says of it.
pub fn untrust_ca_macos(found: &str) -> (v: Vec<Step>)
    ensures
        steps(v@) == macos_distrust_plan(fingerprints(text_lines(found@))),
{
    let ls = lines(found);
    let ghost all = text_lines(found@);
    let mut v: Vec<Step> = Vec::new();
    let mut i: usize = 0;
    assert(all.subrange(0, 0) =~= Seq::<Seq<char>>::empty());
    assert(steps(v@) =~= macos_distrust_plan(Seq::empty()));
    while i < ls.len()
        invariant
            i <= ls.len(),
            all == texts(ls@),
            all == text_lines(found@),
            steps(v@) == macos_distrust_plan(fingerprints(all.subrange(0, i as int))),
        decreases ls.len() - i,
    {
        proof {
            let more = all.subrange(0, i + 1);
            assert(more.drop_last() =~= all.subrange(0, i as int));
            assert(more.last() == ls@[i as int]@);
        }
        if starts_with(ls[i].as_str(), "SHA-1 hash: ") {
            let hash = trim(drop_prefix(ls[i].as_str(), "SHA-1 hash: ").as_str());
            add_may(
                &mut v,
                run5("security", "delete-certificate", "-Z", hash.as_str(), SYSTEM_KEYCHAIN),
            );
            assert(steps(v@) =~= macos_distrust_plan(fingerprints(all.subrange(0, i + 1))));
        }
        i += 1;
    }
    assert(all.subrange(0, all.len() as int) =~= all);
    v
}

/// The steps that let the host trust a certificate on Windows.
pub fn trust_ca_windows(ca_path: &str) -> (v: Vec<Step>)
    ensures
        steps(v@) == seq![must(run(seq!["certutil"@, "-addstore"@, "-f"@, "Root"@, ca_path@]))],
{
    let mut v: Vec<Step> = Vec::new();
    add_must(&mut v, run5("certutil", "-addstore", "-f", "Root", ca_path));
    assert(steps(v@) =~= seq![
        must(run(seq!["certutil"@, "-addstore"@, "-f"@, "Root"@, ca_path@])),
    ]);
    v
}

/// The steps that let the host trust the certificate of a name no longer on
/// Windows.
pub fn untrust_ca_windows(common_name: &str) -> (v: Vec<Step>)
    ensures
        steps(v@) == seq![may(run(seq!["certutil"@, "-delstore"@, "Root"@, common_name@]))],
{
    let mut v: Vec<Step> = Vec::new();
    add_may(&mut v, run4("certutil", "-delstore", "Root", common_name));
    assert(steps(v@) =~= seq![
        may(run(seq!["certutil"@, "-delstore"@, "Root"@, common_name@])),
    ]);
    v
}

/// How a host trusts certificates.
pub enum TrustHost<'a> {
    /// The store of the host, if it has one that is known.
    Linux { store: Option<&'a LinuxTrustStore> },
    /// What is said of the certificate of the server, where it was asked for.
    Macos { found: Option<&'a str> },
    /// The name in the certificate of the server.
    Windows { common_name: &'a str },
    Other,
}

/// The steps that let a host trust the certificate of the server, if there is
/// one; or what stands against it.
pub fn trust_ca(host: &TrustHost, ca_path: &str, present: bool) -> (r: Result<
    Vec<Step>,
    &'static str,
>)
    ensures
        match r {
            Ok(v) => present && match host {
                TrustHost::Linux { store } => store is Some && steps(v@) == linux_trust_plan(
                    store->0,
                    ca_path@,
                ),
                TrustHost::Macos { .. } => steps(v@) == seq![must(macos_trust(ca_path@))],
                TrustHost::Windows { .. } => steps(v@) == seq![
                    must(run(seq!["certutil"@, "-addstore"@, "-f"@, "Root"@, ca_path@])),
                ],
                TrustHost::Other => false,
            },
            Err(m) => if !present {
                m@ == "CA not generated yet — start numa first to create certificates"@
            } else {
                match host {
                    TrustHost::Linux { store } => store is None && m@
                        == "no supported CA trust store found (tried: debian, pki, p11kit). Please report at https://github.com/razvandimescu/numa/issues"@,
                    TrustHost::Other => m@ == "CA trust not supported on this OS"@,
                    _ => false,
                }
            },
        },
{
    if !present {
        return Err("CA not generated yet — start numa first to create certificates");
    }
    match host {
        TrustHost::Linux { store } => trust_ca_linux(*store, ca_path),
        TrustHost::Macos { .. } => Ok(trust_ca_macos(ca_path)),
        TrustHost::Windows { .. } => Ok(trust_ca_windows(ca_path)),
        TrustHost::Other => Err("CA trust not supported on this OS"),
    }
}

/// The steps that let a host trust the certificate of the server no longer.
pub open spec fn distrust_plan(host: &TrustHost) -> Seq<StepView> {
    match host {
        TrustHost::Linux { store: Some(s) } => linux_distrust_plan(s),
        TrustHost::Macos { found: Some(t) } => macos_distrust_plan(
            fingerprints(text_lines(t@)),
        ),
        TrustHost::Windows { common_name } => seq![
            may(run(seq!["certutil"@, "-delstore"@, "Root"@, common_name@])),
        ],
        _ => Seq::empty(),
    }
}

/// The steps that let a host trust the certificate of the server no longer.
pub fn untrust_ca(host: &TrustHost) -> (v: Vec<Step>)
    ensures
        steps(v@) == distrust_plan(host),
{
    match host {
        TrustHost::Linux { store } => untrust_ca_linux(*store),
        TrustHost::Macos { found: Some(t) } => untrust_ca_macos(t),
        TrustHost::Windows { common_name } => untrust_ca_windows(common_name),
        _ => {
            let v: Vec<Step> = Vec::new();
            assert(steps(v@) =~= Seq::<StepView>::empty());
            v
        },
    }
}

} // verus!
