//! What the server says of its health.
use ring::digest::{digest, SHA256};
use vstd::prelude::*;

use crate::net::{ipv4_text, Ipv4Addr};
use crate::service_store::text_in;
use crate::stats::{secs_between, whole_secs};
use crate::text::{copy_texts, texts};

verus! {

/// The SHA-256 digest of some bytes.
pub uninterp spec fn sha256(bytes: Seq<u8>) -> Seq<u8>;

/// `ring::digest::digest` by SHA-256: 32 bytes, a function of the bytes alone.
#[verifier::external_body]
fn digest_sha256(bytes: &[u8]) -> (r: Vec<u8>)
    ensures
        r@ == sha256(bytes@),
        r@.len() == 32,
{
    digest(&SHA256, bytes).as_ref().to_vec()
}

/// What the server knows of itself from its start on.
#[derive(Debug)]
pub struct HealthMeta {
    pub version: &'static str,
    pub hostname: String,
    pub sni: String,
    pub dot_enabled: bool,
    pub dot_port: u16,
    pub api_port: u16,
    pub ca_fingerprint_sha256: Option<String>,
    pub features: Vec<String>,
    /// When the server started, in nanoseconds.
    pub started_at: u64,
}

/// The digit of a number below 16.
pub open spec fn hex_digit(n: int) -> char {
    if n < 10 {
        ((48 + n) as u8) as char
    } else {
        ((87 + n) as u8) as char
    }
}

/// The two lower-case digits of each byte.
pub open spec fn hex(bytes: Seq<u8>) -> Seq<char>
    decreases bytes.len(),
{
    if bytes.len() == 0 {
        Seq::empty()
    } else {
        hex(bytes.drop_last()).push(hex_digit(bytes.last() as int / 16)).push(
            hex_digit(bytes.last() as int % 16),
        )
    }
}

fn digit(n: u8) -> (c: char)
    requires
        n < 16,
    ensures
        c == hex_digit(n as int),
{
    if n < 10 {
        (48 + n) as char
    } else {
        (87 + n) as char
    }
}

/// The two lower-case digits of each byte.
pub fn to_hex(bytes: &Vec<u8>) -> (s: String)
    ensures
        s@ == hex(bytes@),
{
    let mut s = String::new();
    let mut i: usize = 0;
    assert(bytes@.subrange(0, 0) =~= Seq::<u8>::empty());
    while i < bytes.len()
        invariant
            i <= bytes.len(),
            s@ == hex(bytes@.subrange(0, i as int)),
        decreases bytes.len() - i,
    {
        proof {
            let more = bytes@.subrange(0, i + 1);
            assert(more.drop_last() =~= bytes@.subrange(0, i as int));
            assert(more.last() == bytes@[i as int]);
        }
        s.push(digit(bytes[i] / 16));
        s.push(digit(bytes[i] % 16));
        i += 1;
    }
    assert(bytes@.subrange(0, bytes@.len() as int) =~= bytes@);
    s
}

/// There are two digits for each byte.
pub proof fn hex_is_twice_as_long(bytes: Seq<u8>)
    ensures
        hex(bytes).len() == 2 * bytes.len(),
    decreases bytes.len(),
{
    if bytes.len() > 0 {
        hex_is_twice_as_long(bytes.drop_last());
    }
}

/// The fingerprint of a certificate, in the form it is stored: the digits of its
/// digest. None where there is no certificate.
pub fn compute_ca_fingerprint(pem: Option<&[u8]>) -> (r: Option<String>)
    ensures
        text_in(r) == (match pem {
            Some(b) => Some(hex(sha256(b@))),
            None => None,
        }),
        r matches Some(f) ==> f@.len() == 64,
{
    match pem {
        Some(b) => {
            let d = digest_sha256(b);
            proof {
                hex_is_twice_as_long(d@);
            }
            Some(to_hex(&d))
        },
        None => None,
    }
}

/// A list with a name more, where that is wanted.
pub open spec fn with_feature(s: Seq<Seq<char>>, on: bool, name: Seq<char>) -> Seq<Seq<char>> {
    if on {
        s.push(name)
    } else {
        s
    }
}

fn put_feature(v: &mut Vec<String>, on: bool, name: &str)
    ensures
        texts(final(v)@) == with_feature(texts(old(v)@), on, name@),
{
    if on {
        v.push(name.to_owned());
        assert(texts(v@) =~= texts(old(v)@).push(name@));
    }
}

/// The names of the features that are on, in a fixed order.
pub open spec fn feature_names(
    doh: bool,
    dot: bool,
    recursive: bool,
    blocking: bool,
    mdns: bool,
    dnssec: bool,
) -> Seq<Seq<char>> {
    let s = with_feature(Seq::empty(), doh, "doh"@);
    let s = with_feature(s, dot, "dot"@);
    let s = with_feature(s, recursive, "recursive"@);
    let s = with_feature(s, blocking, "blocking"@);
    let s = with_feature(s, mdns, "mdns"@);
    with_feature(s, dnssec, "dnssec"@)
}

impl HealthMeta {
    /// What the server knows of itself, from its configuration, the name of its
    /// host, and the certificate of its authority where there is one.
    pub fn build(
        version: &'static str,
        hostname: String,
        ca_pem: Option<&[u8]>,
        dot_enabled: bool,
        dot_port: u16,
        api_port: u16,
        dnssec_enabled: bool,
        recursive_enabled: bool,
        mdns_enabled: bool,
        blocking_enabled: bool,
        doh_enabled: bool,
        now: u64,
    ) -> (r: Self)
        ensures
            r.version == version,
            r.hostname@ == hostname@,
            r.sni@ == "numa.numa"@,
            r.dot_enabled == dot_enabled,
            r.dot_port == dot_port,
            r.api_port == api_port,
            text_in(r.ca_fingerprint_sha256) == (match ca_pem {
                Some(b) => Some(hex(sha256(b@))),
                None => None,
            }),
            r.ca_fingerprint_sha256 matches Some(f) ==> f@.len() == 64,
            texts(r.features@) == feature_names(
                doh_enabled,
                dot_enabled,
                recursive_enabled,
                blocking_enabled,
                mdns_enabled,
                dnssec_enabled,
            ),
            r.started_at == now,
    {
        let mut features: Vec<String> = Vec::new();
        assert(texts(features@) =~= Seq::<Seq<char>>::empty());
        put_feature(&mut features, doh_enabled, "doh");
        put_feature(&mut features, dot_enabled, "dot");
        put_feature(&mut features, recursive_enabled, "recursive");
        put_feature(&mut features, blocking_enabled, "blocking");
        put_feature(&mut features, mdns_enabled, "mdns");
        put_feature(&mut features, dnssec_enabled, "dnssec");
        HealthMeta {
            version,
            hostname,
            sni: "numa.numa".to_owned(),
            dot_enabled,
            dot_port,
            api_port,
            ca_fingerprint_sha256: compute_ca_fingerprint(ca_pem),
            features,
            started_at: now,
        }
    }
}

/// DNS over TLS: whether it is served, and where.
#[derive(Debug, Clone, Copy, PartialEq, Eq, Structural)]
pub struct DotBlock {
    pub enabled: bool,
    pub port: Option<u16>,
}

/// Where the control interface is.
#[derive(Debug, Clone, Copy, PartialEq, Eq, Structural)]
pub struct ApiBlock {
    pub port: u16,
}

/// Whether there is a certificate authority, and its fingerprint.
#[derive(Debug)]
pub struct CaBlock {
    pub present: bool,
    pub fingerprint_sha256: Option<String>,
}

/// What a request for the health of the server is answered.
#[derive(Debug)]
pub struct HealthResponse {
    pub status: &'static str,
    pub version: &'static str,
    pub uptime_secs: u64,
    pub hostname: String,
    pub lan_ip: Option<String>,
    pub sni: String,
    pub dot: DotBlock,
    pub api: ApiBlock,
    pub ca: CaBlock,
    pub features: Vec<String>,
}

impl HealthResponse {
    /// The answer at a time, in nanoseconds. A clock that was set back counts as no
    /// time.
    pub fn build(meta: &HealthMeta, lan_ip: Option<Ipv4Addr>, now: u64) -> (r: Self)
        ensures
            r.status@ == "ok"@,
            r.version == meta.version,
            r.uptime_secs == whole_secs(meta.started_at, now),
            r.hostname@ == meta.hostname@,
            text_in(r.lan_ip) == (match lan_ip {
                Some(a) => Some(ipv4_text(a)),
                None => None,
            }),
            r.sni@ == meta.sni@,
            r.dot == (DotBlock {
                enabled: meta.dot_enabled,
                port: if meta.dot_enabled {
                    Some(meta.dot_port)
                } else {
                    None
                },
            }),
            r.api.port == meta.api_port,
            r.ca.present == (meta.ca_fingerprint_sha256 is Some),
            text_in(r.ca.fingerprint_sha256) == text_in(meta.ca_fingerprint_sha256),
            texts(r.features@) == texts(meta.features@),
    {
        HealthResponse {
            status: "ok",
            version: meta.version,
            uptime_secs: secs_between(meta.started_at, now),
            hostname: meta.hostname.clone(),
            lan_ip: match lan_ip {
                Some(a) => Some(a.to_text()),
                None => None,
            },
            sni: meta.sni.clone(),
            dot: DotBlock {
                enabled: meta.dot_enabled,
                port: if meta.dot_enabled {
                    Some(meta.dot_port)
                } else {
                    None
                },
            },
            api: ApiBlock { port: meta.api_port },
            ca: CaBlock {
                present: meta.ca_fingerprint_sha256.is_some(),
                fingerprint_sha256: match &meta.ca_fingerprint_sha256 {
                    Some(f) => Some(f.clone()),
                    None => None,
                },
            },
            features: copy_texts(&meta.features),
        }
    }
}

} // verus!
