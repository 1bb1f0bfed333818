//! Oblivious DNS over HTTPS: the key of the target and how long it is kept,
//! sealed queries and opened replies.
use odoh_rs::{
    ObliviousDoHConfigContents, ObliviousDoHConfigs, ObliviousDoHMessage,
    ObliviousDoHMessagePlaintext,
};
use rand_core::{OsRng, TryRngCore};
use vstd::prelude::*;
use vstd::slice::slice_subrange;
use vstd::utf8::{decode_utf8, valid_utf8};

use crate::text::{
    concat, concat3, drop_prefix, has_prefix, parse_u64, parsed_number, split, split_parts,
    starts_with, texts, trim, trimmed, without_prefix,
};

verus! {

/// How much of the body of a refusal is shown.
pub const ERROR_BODY_PREVIEW_BYTES: usize = 1024;

/// For how long a key is kept whose target does not say, in milliseconds: a day.
pub const DEFAULT_CONFIG_TTL: u64 = 86_400_000;

/// The longest time that a key is kept, in milliseconds: seven days.
pub const MAX_CONFIG_TTL: u64 = 604_800_000;

/// How long a target is left alone after its key could not be had, in
/// milliseconds: a minute.
pub const REFRESH_BACKOFF: u64 = 60_000;

/// The configurations of the supported version in a list of these, each by its
/// bytes, or the text of the error.
pub uninterp spec fn odoh_configs(body: Seq<u8>) -> Result<Seq<Seq<u8>>, Seq<char>>;

/// The id of the key in the bytes of a configuration, or the text of the error.
pub uninterp spec fn odoh_key_id(contents: Seq<u8>) -> Result<Seq<u8>, Seq<char>>;

/// Whether and why a query cannot be sealed for the key in the bytes of a
/// configuration: whether it is the sealing that fails, or else the writing of the
/// message, and the text of the error.
pub uninterp spec fn odoh_seal_fault(wire: Seq<u8>, contents: Seq<u8>) -> Option<
    (bool, Seq<char>),
>;

/// Whether a message and a secret are an outcome of sealing a query for the key in
/// the bytes of a configuration: the key of the target opens the message as that
/// query, and the secret opens the reply.
pub uninterp spec fn odoh_seals(
    wire: Seq<u8>,
    contents: Seq<u8>,
    sealed: Seq<u8>,
    secret: Seq<u8>,
) -> bool;

/// The text of what is wrong with the bytes of a message, if something is.
pub uninterp spec fn odoh_message_fault(body: Seq<u8>) -> Option<Seq<char>>;

/// The reply in a message that was sealed for a query with a secret, or the
/// text of the error.
pub uninterp spec fn odoh_opened(wire: Seq<u8>, body: Seq<u8>, secret: Seq<u8>) -> Result<
    Seq<u8>,
    Seq<char>,
>;

/// The text of bytes that are not all UTF-8, with marks for what is not.
pub uninterp spec fn utf8_marked(bytes: Seq<u8>) -> Seq<char>;

/// What each list of bytes holds.
pub open spec fn byte_lists(v: Seq<Vec<u8>>) -> Seq<Seq<u8>> {
    v.map_values(|b: Vec<u8>| b@)
}

/// `odoh_rs::parse` of a list of configurations, and its `into_iter`: those of
/// the supported version, each turned into its bytes. A function of the bytes
/// alone; the error is the text of the crate's error.
#[verifier::external_body]
fn parse_configs(body: &[u8]) -> (r: Result<Vec<Vec<u8>>, String>)
    ensures
        match r {
            Ok(v) => odoh_configs(body@) == Ok::<Seq<Seq<u8>>, Seq<char>>(byte_lists(v@)),
            Err(e) => odoh_configs(body@) == Err::<Seq<Seq<u8>>, Seq<char>>(e@),
        },
{
    let mut buf = body;
    let configs: ObliviousDoHConfigs = odoh_rs::parse(&mut buf).map_err(|e: odoh_rs::Error| e.to_string())?;
    configs.into_iter().map(|c| odoh_rs::compose(&ObliviousDoHConfigContents::from(c)).map(|b| b.to_vec()).map_err(|e| e.to_string())).collect()
}

/// `odoh_rs::ObliviousDoHConfigContents::identifier`, of the configuration with
/// these bytes: an id of 32 bytes. A function of the bytes alone.
#[verifier::external_body]
fn key_identifier(contents: &[u8]) -> (r: Result<Vec<u8>, String>)
    ensures
        match r {
            Ok(v) => odoh_key_id(contents@) == Ok::<Seq<u8>, Seq<char>>(v@) && v@.len() == 32,
            Err(e) => odoh_key_id(contents@) == Err::<Seq<u8>, Seq<char>>(e@),
        },
{
    let mut buf = contents;
    let parsed: Result<ObliviousDoHConfigContents, odoh_rs::Error> = odoh_rs::parse(&mut buf);
    parsed.and_then(|c| c.identifier()).map_err(|e| e.to_string())
}

/// What could not be done with a query that is to be sealed.
pub enum SealError {
    Encrypt(String),
    Compose(String),
}

/// `odoh_rs::encrypt_query` without padding, with the random numbers of the
/// operating system, and `odoh_rs::compose` of its message. Whether it fails, and
/// with which of the crate's errors, turns on the bytes of the key and on lengths:
/// it is a function of the arguments alone. The message and the secret of 16 bytes
/// rest on chance: they are an outcome of sealing this query for this key, and
/// nothing is said of which. The message is of type 1, under the id of the key,
/// and 89 bytes longer than the query. Where the system has no random numbers
/// there is no result.
#[verifier::external_body]
fn encrypt_query(wire: &[u8], contents: &[u8]) -> (r: Result<(Vec<u8>, [u8; 16]), SealError>)
    ensures
        match r {
            Ok((sealed, secret)) => {
                &&& odoh_seal_fault(wire@, contents@) is None
                &&& odoh_seals(wire@, contents@, sealed@, secret@)
                &&& sealed@.len() == wire@.len() + 89
                &&& sealed@[0] == 1
                &&& odoh_key_id(contents@) == Ok::<Seq<u8>, Seq<char>>(sealed@.subrange(3, 35))
            },
            Err(SealError::Encrypt(e)) => odoh_seal_fault(wire@, contents@) == Some((true, e@)),
            Err(SealError::Compose(e)) => odoh_seal_fault(wire@, contents@) == Some((false, e@)),
        },
{
    let mut buf = contents;
    let key: ObliviousDoHConfigContents = odoh_rs::parse(&mut buf).map_err(|e: odoh_rs::Error| SealError::Encrypt(e.to_string()))?;
    let plaintext = ObliviousDoHMessagePlaintext::new(wire, 0);
    let mut os = OsRng;
    let mut rng = os.unwrap_mut();
    let (message, secret) = odoh_rs::encrypt_query(&plaintext, &key, &mut rng).map_err(|e| SealError::Encrypt(e.to_string()))?;
    let body = odoh_rs::compose(&message).map_err(|e| SealError::Compose(e.to_string()))?;
    Ok((body.to_vec(), secret))
}

/// `odoh_rs::parse` of a message: the text of the crate's error, if the bytes
/// are no message. A function of the bytes alone.
#[verifier::external_body]
fn message_fault(body: &[u8]) -> (r: Option<String>)
    ensures
        odoh_message_fault(body@) == (match r {
            Some(e) => Some(e@),
            None => None,
        }),
{
    let mut buf = body;
    let parsed: Result<ObliviousDoHMessage, odoh_rs::Error> = odoh_rs::parse(&mut buf);
    parsed.err().map(|e| e.to_string())
}

/// `odoh_rs::decrypt_response` of the message with these bytes, for a query
/// without padding: the reply, or the text of the crate's error. A function of
/// the query, the bytes and the secret alone.
#[verifier::external_body]
fn open_response(wire: &[u8], body: &[u8], secret: [u8; 16]) -> (r: Result<Vec<u8>, String>)
    ensures
        match r {
            Ok(v) => odoh_opened(wire@, body@, secret@) == Ok::<Seq<u8>, Seq<char>>(v@),
            Err(e) => odoh_opened(wire@, body@, secret@) == Err::<Seq<u8>, Seq<char>>(e@),
        },
{
    let mut buf = body;
    let message: ObliviousDoHMessage = odoh_rs::parse(&mut buf).map_err(|e: odoh_rs::Error| e.to_string())?;
    let plaintext = ObliviousDoHMessagePlaintext::new(wire, 0);
    let opened = odoh_rs::decrypt_response(&plaintext, &message, secret).map_err(|e| e.to_string())?;
    Ok(opened.into_msg().to_vec())
}

/// The text of bytes.
pub open spec fn lossy(bytes: Seq<u8>) -> Seq<char> {
    if valid_utf8(bytes) {
        decode_utf8(bytes)
    } else {
        utf8_marked(bytes)
    }
}

/// `String::from_utf8_lossy`: the text that the bytes encode in UTF-8, with
/// marks in the place of what is none. A function of the bytes alone.
#[verifier::external_body]
fn utf8_lossy(bytes: &[u8]) -> (s: String)
    ensures
        s@ == (if valid_utf8(bytes@) {
            decode_utf8(bytes@)
        } else {
            utf8_marked(bytes@)
        }),
{
    String::from_utf8_lossy(bytes).into_owned()
}

/// The key of a target, and when it is to be fetched again.
#[derive(Debug)]
pub struct OdohTargetConfig {
    /// The configuration, by its bytes.
    pub contents: Vec<u8>,
    pub key_id: Vec<u8>,
    /// The time from which the key is no longer used, in milliseconds.
    pub expires_at: u64,
}

impl OdohTargetConfig {
    /// Whether the key is no longer to be used.
    pub fn is_expired(&self, now: u64) -> (b: bool)
        ensures
            b == (now >= self.expires_at),
    {
        now >= self.expires_at
    }

    /// The same key again.
    pub fn copy(&self) -> (r: Self)
        ensures
            r.contents@ == self.contents@,
            r.key_id@ == self.key_id@,
            r.expires_at == self.expires_at,
    {
        OdohTargetConfig {
            contents: self.contents.clone(),
            key_id: self.key_id.clone(),
            expires_at: self.expires_at,
        }
    }
}

/// The seconds that a directive allows, where it is a positive `max-age`.
pub open spec fn directive_age(d: Seq<char>) -> Option<u64> {
    let t = trimmed(d);
    if !has_prefix(t, "max-age="@) {
        None
    } else {
        match parsed_number(trimmed(without_prefix(t, "max-age="@))) {
            Some(n) => if 0 < n <= u64::MAX {
                Some(n as u64)
            } else {
                None
            },
            None => None,
        }
    }
}

/// The seconds that the first directive allows that allows some.
pub open spec fn first_age(ds: Seq<Seq<char>>) -> Option<u64>
    decreases ds.len(),
{
    if ds.len() == 0 {
        None
    } else {
        match directive_age(ds[0]) {
            Some(n) => Some(n),
            None => first_age(ds.drop_first()),
        }
    }
}

/// The seconds for which a header allows a reply to be kept.
pub open spec fn allowed_age(header: Option<Seq<char>>) -> Option<u64> {
    match header {
        Some(h) => first_age(split_parts(h, ',')),
        None => None,
    }
}

fn read_directive(d: &str) -> (r: Option<u64>)
    ensures
        r == directive_age(d@),
{
    let t = trim(d);
    if !starts_with(t.as_str(), "max-age=") {
        return None;
    }
    let rest = drop_prefix(t.as_str(), "max-age=");
    match parse_u64(trim(rest.as_str()).as_str()) {
        Some(n) => if n > 0 {
            Some(n)
        } else {
            None
        },
        None => None,
    }
}

/// The seconds for which the header `Cache-Control` allows a reply to be kept.
pub fn cache_control_ttl(header: Option<&str>) -> (r: Option<u64>)
    ensures
        r == allowed_age(
            match header {
                Some(h) => Some(h@),
                None => None,
            },
        ),
{
    let cc = match header {
        Some(h) => h,
        None => {
            return None;
        },
    };
    let parts = split(cc, ',');
    let ghost all = split_parts(cc@, ',');
    let mut i: usize = 0;
    assert(all.subrange(0, all.len() as int) =~= all);
    while i < parts.len()
        invariant
            all == split_parts(cc@, ','),
            texts(parts@) == all,
            i <= parts.len(),
            header is Some && header->0@ == cc@,
            first_age(all) == first_age(all.subrange(i as int, all.len() as int)),
        decreases parts.len() - i,
    {
        proof {
            let rest = all.subrange(i as int, all.len() as int);
            assert(rest[0] == parts@[i as int]@);
            assert(rest.drop_first() =~= all.subrange(i + 1, all.len() as int));
        }
        if let Some(n) = read_directive(parts[i].as_str()) {
            return Some(n);
        }
        i += 1;
    }
    None
}

/// The smaller of two numbers.
pub open spec fn smaller(a: u64, b: u64) -> u64 {
    if a < b {
        a
    } else {
        b
    }
}

/// The first configuration of a list that was read, or the message.
pub fn first_config(configs: Result<Vec<Vec<u8>>, String>) -> (r: Result<Vec<u8>, String>)
    ensures
        match configs {
            Ok(v) => if v@.len() > 0 {
                r matches Ok(c) && c@ == v@[0]@
            } else {
                r matches Err(m) && m@
                    == "target published no ODoH configs with a supported version + ciphersuite"@
            },
            Err(e) => r matches Err(m) && m@ == "failed to parse ObliviousDoHConfigs: "@ + e@,
        },
{
    match configs {
        Ok(v) => if v.len() > 0 {
            Ok(v[0].clone())
        } else {
            Err(
                "target published no ODoH configs with a supported version + ciphersuite".to_owned(),
            )
        },
        Err(e) => Err(concat("failed to parse ObliviousDoHConfigs: ", e.as_str())),
    }
}

/// The key with an id that was found, kept for a time from now on but for no
/// longer than the longest time; or the message.
pub fn dated_config(contents: Vec<u8>, key_id: Result<Vec<u8>, String>, ttl: u64, now: u64) -> (r:
    Result<OdohTargetConfig, String>)
    requires
        now + MAX_CONFIG_TTL <= u64::MAX,
    ensures
        match key_id {
            Ok(k) => r matches Ok(c) && c.contents@ == contents@ && c.key_id@ == k@ && c.expires_at
                == now + smaller(ttl, MAX_CONFIG_TTL),
            Err(e) => r matches Err(m) && m@ == "failed to derive key_id from ODoH config: "@ + e@,
        },
{
    match key_id {
        Ok(k) => {
            let kept: u64 = if ttl < MAX_CONFIG_TTL {
                ttl
            } else {
                MAX_CONFIG_TTL
            };
            Ok(OdohTargetConfig { contents, key_id: k, expires_at: now + kept })
        },
        Err(e) => Err(concat("failed to derive key_id from ODoH config: ", e.as_str())),
    }
}

/// What the bytes of a list of configurations come to.
pub open spec fn target_key(body: Seq<u8>) -> Result<(Seq<u8>, Seq<u8>), Seq<char>> {
    match odoh_configs(body) {
        Err(e) => Err("failed to parse ObliviousDoHConfigs: "@ + e),
        Ok(v) => if v.len() == 0 {
            Err("target published no ODoH configs with a supported version + ciphersuite"@)
        } else {
            match odoh_key_id(v[0]) {
                Ok(k) => Ok((v[0], k)),
                Err(e) => Err("failed to derive key_id from ODoH config: "@ + e),
            }
        },
    }
}

/// Whether a key is the one in some bytes, kept for a time from now on.
pub open spec fn keyed(
    r: Result<OdohTargetConfig, String>,
    body: Seq<u8>,
    ttl: u64,
    now: u64,
) -> bool {
    match (r, target_key(body)) {
        (Ok(c), Ok((contents, id))) => {
            &&& c.contents@ == contents
            &&& c.key_id@ == id
            &&& c.expires_at == now + smaller(ttl, MAX_CONFIG_TTL)
        },
        (Err(m), Err(x)) => m@ == x,
        _ => false,
    }
}

/// The key in the bytes that a target published, kept for a time in
/// milliseconds but for no longer than the longest time.
pub fn parse_odoh_config(body: &[u8], ttl: u64, now: u64) -> (r: Result<OdohTargetConfig, String>)
    requires
        now + MAX_CONFIG_TTL <= u64::MAX,
    ensures
        keyed(r, body@, ttl, now),
{
    let configs = parse_configs(body);
    let contents = match first_config(configs) {
        Ok(c) => c,
        Err(m) => {
            return Err(m);
        },
    };
    let key_id = key_identifier(contents.as_slice());
    dated_config(contents, key_id, ttl, now)
}

/// For how long the key in a reply is kept, in milliseconds, by its header.
pub open spec fn reply_ttl(header: Option<Seq<char>>) -> u64 {
    match allowed_age(header) {
        Some(s) => if s <= MAX_CONFIG_TTL / 1000 {
            (s * 1000) as u64
        } else {
            MAX_CONFIG_TTL
        },
        None => DEFAULT_CONFIG_TTL,
    }
}

/// The key in the reply of a target, kept for as long as the reply allows.
pub fn fetched_config(body: &[u8], cache_control: Option<&str>, now: u64) -> (r: Result<
    OdohTargetConfig,
    String,
>)
    requires
        now + MAX_CONFIG_TTL <= u64::MAX,
    ensures
        keyed(
            r,
            body@,
            reply_ttl(
                match cache_control {
                    Some(h) => Some(h@),
                    None => None,
                },
            ),
            now,
        ),
{
    let ttl: u64 = match cache_control_ttl(cache_control) {
        Some(s) => if s <= MAX_CONFIG_TTL / 1000 {
            s * 1000
        } else {
            MAX_CONFIG_TTL
        },
        None => DEFAULT_CONFIG_TTL,
    };
    parse_odoh_config(body, ttl, now)
}

/// When a key could not be had, and why.
#[derive(Debug)]
pub struct FailedRefresh {
    pub at: u64,
    pub err: String,
}

/// The key of one target, kept for its time.
#[derive(Debug)]
pub struct OdohConfigCache {
    pub target_host: String,
    pub configs_url: String,
    pub current: Option<OdohTargetConfig>,
    pub last_failure: Option<FailedRefresh>,
}

/// What a cache has to say when a key is wanted.
pub enum Lookup<'a> {
    /// The key.
    Key(&'a OdohTargetConfig),
    /// That it failed a short time ago.
    Failed(String),
    /// That the key is to be fetched.
    Fetch,
}

impl OdohConfigCache {
    /// An empty cache for a target.
    pub fn new(target_host: String) -> (r: Self)
        ensures
            r.target_host@ == target_host@,
            r.configs_url@ == "https://"@ + target_host@ + "/.well-known/odohconfigs"@,
            r.current is None,
            r.last_failure is None,
    {
        let configs_url = concat3("https://", target_host.as_str(), "/.well-known/odohconfigs");
        OdohConfigCache { target_host, configs_url, current: None, last_failure: None }
    }

    /// The host of the target.
    pub fn target_host(&self) -> (s: &str)
        ensures
            s@ == self.target_host@,
    {
        self.target_host.as_str()
    }

    /// Whether the key may be used.
    pub open spec fn fresh(&self, now: u64) -> bool {
        self.current matches Some(c) && now < c.expires_at
    }

    /// Whether fetching failed a short time ago.
    pub open spec fn backing_off(&self, now: u64) -> bool {
        self.last_failure matches Some(f) && now - f.at < REFRESH_BACKOFF
    }

    /// The message of a failure a short time ago.
    pub fn backoff_error(&self, now: u64) -> (r: Option<String>)
        ensures
            match r {
                Some(m) => self.backing_off(now) && m@ == self.last_failure->0.err@
                    + " (backoff active)"@,
                None => !self.backing_off(now),
            },
    {
        match &self.last_failure {
            None => None,
            Some(f) => {
                if now < f.at || now - f.at < REFRESH_BACKOFF {
                    Some(concat(f.err.as_str(), " (backoff active)"))
                } else {
                    None
                }
            },
        }
    }

    /// The key, where it may be used; else the message of a failure a short time
    /// ago; else that it is to be fetched.
    pub fn get(&self, now: u64) -> (r: Lookup)
        ensures
            match r {
                Lookup::Key(c) => self.fresh(now) && *c == self.current->0,
                Lookup::Failed(m) => !self.fresh(now) && self.backing_off(now) && m@
                    == self.last_failure->0.err@ + " (backoff active)"@,
                Lookup::Fetch => !self.fresh(now) && !self.backing_off(now),
            },
    {
        if let Some(c) = &self.current {
            if !c.is_expired(now) {
                return Lookup::Key(c);
            }
        }
        match self.backoff_error(now) {
            Some(m) => Lookup::Failed(m),
            None => Lookup::Fetch,
        }
    }

    /// Takes up what came of fetching: the key, or a failure, whose message it
    /// gives.
    pub fn fetched(&mut self, result: Result<OdohTargetConfig, String>, now: u64) -> (r: Result<
        (),
        String,
    >)
        ensures
            final(self).target_host == old(self).target_host,
            final(self).configs_url == old(self).configs_url,
            match result {
                Ok(c) => r is Ok && final(self).current == Some(c) && final(self).last_failure
                    is None,
                Err(e) => {
                    &&& r matches Err(m)
                    &&& m@ == "ODoH config fetch failed: "@ + e@
                    &&& final(self).current == old(self).current
                    &&& final(self).last_failure matches Some(f)
                    &&& f.at == now
                    &&& f.err@ == m@
                },
            },
    {
        match result {
            Ok(c) => {
                self.current = Some(c);
                self.last_failure = None;
                Ok(())
            },
            Err(e) => {
                let msg = concat("ODoH config fetch failed: ", e.as_str());
                self.last_failure = Some(FailedRefresh { at: now, err: msg.clone() });
                Err(msg)
            },
        }
    }

    /// Drops the key, so that it is fetched again.
    pub fn invalidate(&mut self)
        ensures
            final(self).current is None,
            *final(self) == (OdohConfigCache { current: None, ..*old(self) }),
    {
        self.current = None;
    }
}

/// What came of an attempt to ask a target.
#[derive(Debug)]
pub enum AttemptError {
    /// The target no longer has the key that the query was sealed with.
    KeyRotation(String),
    /// Anything else.
    Other(String),
}

impl AttemptError {
    /// The message of the error.
    pub open spec fn message(&self) -> Seq<char> {
        match self {
            AttemptError::KeyRotation(m) => "ODoH key rotation race: "@ + m@,
            AttemptError::Other(m) => m@,
        }
    }

    /// The message of the error.
    pub fn into_error(self) -> (s: String)
        ensures
            s@ == self.message(),
    {
        match self {
            AttemptError::KeyRotation(m) => concat("ODoH key rotation race: ", m.as_str()),
            AttemptError::Other(m) => m,
        }
    }
}

/// Whether an error is of a kind and has a text.
pub open spec fn is_error(e: AttemptError, rotation: bool, text: Seq<char>) -> bool {
    match e {
        AttemptError::KeyRotation(m) => rotation && m@ == text,
        AttemptError::Other(m) => !rotation && m@ == text,
    }
}

/// What is done after an attempt.
#[derive(Debug)]
pub enum NextAttempt {
    /// This is the outcome.
    Done(Result<Vec<u8>, String>),
    /// The key is to be fetched anew, and the query asked once more.
    Again,
}

/// What is done after the first attempt, or after a later one: a key that was
/// changed is fetched anew once.
pub fn after_attempt(first: bool, r: Result<Vec<u8>, AttemptError>) -> (n: NextAttempt)
    ensures
        match r {
            Ok(v) => n matches NextAttempt::Done(Ok(w)) && w == v,
            Err(e) => if first && e is KeyRotation {
                n is Again
            } else {
                n matches NextAttempt::Done(Err(m)) && m@ == e.message()
            },
        },
{
    match r {
        Ok(v) => NextAttempt::Done(Ok(v)),
        Err(AttemptError::KeyRotation(m)) => if first {
            NextAttempt::Again
        } else {
            NextAttempt::Done(Err(AttemptError::KeyRotation(m).into_error()))
        },
        Err(e) => NextAttempt::Done(Err(e.into_error())),
    }
}

/// The sealed query and the secret that opens the reply, from what came of
/// sealing. A key that nothing can be sealed with is fetched anew.
pub fn sealed_outcome(r: Result<(Vec<u8>, [u8; 16]), SealError>) -> (out: Result<
    (Vec<u8>, [u8; 16]),
    AttemptError,
>)
    ensures
        match r {
            Ok(p) => out == Ok::<(Vec<u8>, [u8; 16]), AttemptError>(p),
            Err(SealError::Encrypt(e)) => out matches Err(x) && is_error(
                x,
                true,
                "ODoH encrypt failed: "@ + e@,
            ),
            Err(SealError::Compose(e)) => out matches Err(x) && is_error(
                x,
                false,
                "ODoH compose failed: "@ + e@,
            ),
        },
{
    match r {
        Ok(p) => Ok(p),
        Err(SealError::Encrypt(e)) => Err(
            AttemptError::KeyRotation(concat("ODoH encrypt failed: ", e.as_str())),
        ),
        Err(SealError::Compose(e)) => Err(
            AttemptError::Other(concat("ODoH compose failed: ", e.as_str())),
        ),
    }
}

/// Seals a query with the key of a target: a message under the id of that key,
/// and the secret that opens the reply.
pub fn seal_query(wire: &[u8], config: &OdohTargetConfig) -> (r: Result<
    (Vec<u8>, [u8; 16]),
    AttemptError,
>)
    ensures
        match odoh_seal_fault(wire@, config.contents@) {
            None => {
                &&& r matches Ok((sealed, secret))
                &&& odoh_seals(wire@, config.contents@, sealed@, secret@)
                &&& sealed@.len() == wire@.len() + 89
                &&& sealed@[0] == 1
                &&& odoh_key_id(config.contents@) == Ok::<Seq<u8>, Seq<char>>(
                    sealed@.subrange(3, 35),
                )
            },
            Some((true, e)) => r matches Err(x) && is_error(x, true, "ODoH encrypt failed: "@ + e),
            Some((false, e)) => r matches Err(x) && is_error(
                x,
                false,
                "ODoH compose failed: "@ + e,
            ),
        },
{
    sealed_outcome(encrypt_query(wire, config.contents.as_slice()))
}

/// The start of a body that is shown of a refusal.
pub open spec fn preview(body: Seq<u8>) -> Seq<char> {
    lossy(
        body.subrange(
            0,
            if body.len() < ERROR_BODY_PREVIEW_BYTES {
                body.len() as int
            } else {
                ERROR_BODY_PREVIEW_BYTES as int
            },
        ),
    )
}

/// The error that a refusal with a status comes to: a key that was changed where
/// the status says that the query is not authorised.
pub fn refused(status: u16, status_text: &str, shown: &str) -> (e: AttemptError)
    ensures
        is_error(
            e,
            status == 401,
            "ODoH relay returned "@ + status_text@ + ": "@ + trimmed(shown@),
        ),
{
    let head = concat3("ODoH relay returned ", status_text, ": ");
    let msg = concat(head.as_str(), trim(shown).as_str());
    if status == 401 {
        AttemptError::KeyRotation(msg)
    } else {
        AttemptError::Other(msg)
    }
}

/// The reply from what came of opening its message.
pub fn opened_outcome(r: Result<Vec<u8>, String>) -> (out: Result<Vec<u8>, AttemptError>)
    ensures
        match r {
            Ok(v) => out == Ok::<Vec<u8>, AttemptError>(v),
            Err(e) => out matches Err(x) && is_error(x, true, "ODoH decrypt failed: "@ + e@),
        },
{
    match r {
        Ok(v) => Ok(v),
        Err(e) => Err(AttemptError::KeyRotation(concat("ODoH decrypt failed: ", e.as_str()))),
    }
}

/// The reply to a query, from what the relay answered: its status, the text of
/// that, and the body.
pub fn read_reply(
    wire: &[u8],
    status: u16,
    status_text: &str,
    body: &[u8],
    secret: [u8; 16],
) -> (r: Result<Vec<u8>, AttemptError>)
    ensures
        if !(200 <= status && status < 300) {
            r matches Err(e) && is_error(
                e,
                status == 401,
                "ODoH relay returned "@ + status_text@ + ": "@ + trimmed(preview(body@)),
            )
        } else {
            match odoh_message_fault(body@) {
                Some(f) => r matches Err(e) && is_error(
                    e,
                    false,
                    "ODoH response parse failed: "@ + f,
                ),
                None => match odoh_opened(wire@, body@, secret@) {
                    Ok(v) => r matches Ok(w) && w@ == v,
                    Err(f) => r matches Err(e) && is_error(e, true, "ODoH decrypt failed: "@ + f),
                },
            }
        },
{
    if !(200 <= status && status < 300) {
        let n: usize = if body.len() < ERROR_BODY_PREVIEW_BYTES {
            body.len()
        } else {
            ERROR_BODY_PREVIEW_BYTES
        };
        let shown = utf8_lossy(slice_subrange(body, 0, n));
        return Err(refused(status, status_text, shown.as_str()));
    }
    if let Some(f) = message_fault(body) {
        return Err(AttemptError::Other(concat("ODoH response parse failed: ", f.as_str())));
    }
    opened_outcome(open_response(wire, body, secret))
}

/// No key is kept for longer than the longest time, whatever its target says.
pub proof fn keys_age_out(header: Option<Seq<char>>)
    ensures
        0 < reply_ttl(header) <= MAX_CONFIG_TTL,
{
    if let Some(h) = header {
        ages_are_positive(split_parts(h, ','));
    }
}

proof fn ages_are_positive(ds: Seq<Seq<char>>)
    ensures
        first_age(ds) matches Some(n) ==> n > 0,
    decreases ds.len(),
{
    if ds.len() > 0 {
        ages_are_positive(ds.drop_first());
    }
}

} // verus!
