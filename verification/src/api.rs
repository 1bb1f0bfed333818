//! The control interface: what its requests do to the server and are answered.
use vstd::layout::size_of;
use vstd::prelude::*;
use vstd::utf8::encode_utf8;

use crate::config::UpstreamMode;
use crate::ctx::ServerCtx;
use crate::header::ResultCode;
use crate::net::{ipv4_text, Ipv4Addr};
use crate::memory::room_of;
use crate::query_log::{log_held, QueryLogEntry, QueryLogFilter};
use crate::question::QueryType;
use crate::service_store::{
    is_listing, routes, service_row, text_in, without_path, RouteEntry, RouteView,
    ServiceEntry, ServiceStore, ServiceView, StoreView,
};
use crate::stats::{QueryPath, StatsSnapshot};
use crate::text::{
    all_ascii, ascii_lowercase, at_most_max, chars_of, concat, concat3, contains, contains_char,
    decimal, decimal_string, ends_with, eq_ignore_ascii_case, has_part, has_prefix, has_suffix,
    is_white, lowercase, lowercase_again, starts_with, str_eq, to_lowercase, trim, trimmed, white,
};

verus! {

/// The time to live of an override that names none.
pub fn default_ttl() -> (n: u32)
    ensures
        n == 60,
{
    60
}

/// The minutes of a pause that names none.
pub fn default_pause_minutes() -> (n: u64)
    ensures
        n == 5,
{
    5
}

/// The seconds of a pause.
pub fn pause_secs(minutes: u64) -> (r: Option<u64>)
    ensures
        r == (if minutes * 60 <= u64::MAX {
            Some((minutes * 60) as u64)
        } else {
            None
        }),
{
    minutes.checked_mul(60)
}

/// How long an override of an environment holds: its own time, or that of the
/// environment.
pub fn override_duration(own: Option<u64>, environment: Option<u64>) -> (r: Option<u64>)
    ensures
        r == (if own is Some {
            own
        } else {
            environment
        }),
{
    match own {
        Some(n) => Some(n),
        None => environment,
    }
}

/// Whether a character may stand in the name of a service.
pub open spec fn name_char(c: char) -> bool {
    ('a' <= c && c <= 'z') || ('A' <= c && c <= 'Z') || ('0' <= c && c <= '9') || c == '-'
}

/// Whether all characters may stand in the name of a service.
pub open spec fn plain_name(s: Seq<char>) -> bool {
    forall|i: int| 0 <= i < s.len() ==> name_char(#[trigger] s[i])
}

/// Whether a character is a control character.
pub open spec fn control(c: char) -> bool {
    c as u32 <= 0x1f || 0x7f <= c as u32 <= 0x9f
}

/// Whether a text holds what no bare host holds: control characters, white
/// space, or what belongs to a scheme, a port or a path.
pub open spec fn not_bare(s: Seq<char>) -> bool {
    exists|i: int|
        0 <= i < s.len() && (control(#[trigger] s[i]) || white(s[i]) || s[i] == '/' || s[i] == ':')
}

/// The host of a service: this one, where none is given.
pub open spec fn wanted_host(host: Option<Seq<char>>) -> Option<Seq<char>> {
    match host {
        None => None,
        Some(h) => {
            let t = trimmed(h);
            if t.len() == 0 || t == "localhost"@ || t == "127.0.0.1"@ {
                None
            } else {
                Some(t)
            }
        },
    }
}

/// What is wrong with a service that is to be made.
pub open spec fn service_fault(name: Seq<char>, port: u16, host: Option<Seq<char>>) -> Option<
    Seq<char>,
> {
    let key = lowercase(name);
    if key.len() == 0 || encode_utf8(key).len() > 63 {
        Some("name must be 1-63 characters"@)
    } else if !plain_name(key) {
        Some("name must contain only alphanumeric characters and hyphens"@)
    } else if port == 0 {
        Some("target_port must be > 0"@)
    } else {
        match wanted_host(host) {
            None => None,
            Some(h) => if encode_utf8(h).len() > 253 {
                Some("target_host must be at most 253 characters"@)
            } else if not_bare(h) {
                Some("target_host must be a bare hostname or IP (no scheme, port, or path)"@)
            } else {
                None
            },
        }
    }
}

fn is_plain_name(s: &str) -> (b: bool)
    ensures
        b == plain_name(s@),
{
    let x = chars_of(s);
    let mut i: usize = 0;
    while i < x.len()
        invariant
            i <= x.len(),
            x@ == s@,
            forall|j: int| 0 <= j < i ==> name_char(#[trigger] s@[j]),
        decreases x.len() - i,
    {
        let c = x[i];
        if !(('a' <= c && c <= 'z') || ('A' <= c && c <= 'Z') || ('0' <= c && c <= '9') || c == '-')
        {
            assert(!name_char(s@[i as int]));
            return false;
        }
        i += 1;
    }
    true
}

fn is_not_bare(s: &str) -> (b: bool)
    ensures
        b == not_bare(s@),
{
    let x = chars_of(s);
    let mut i: usize = 0;
    while i < x.len()
        invariant
            i <= x.len(),
            x@ == s@,
            forall|j: int|
                0 <= j < i ==> !(control(#[trigger] s@[j]) || white(s@[j]) || s@[j] == '/' || s@[j]
                    == ':'),
        decreases x.len() - i,
    {
        let c = x[i];
        let u: u32 = c as u32;
        if u <= 0x1f || (0x7f <= u && u <= 0x9f) || is_white(c) || c == '/' || c == ':' {
            assert(control(s@[i as int]) || white(s@[i as int]) || s@[i as int] == '/'
                || s@[i as int] == ':');
            return true;
        }
        i += 1;
    }
    false
}

/// The host of a service that is to be made.
fn checked_host(host: Option<&str>) -> (r: Result<Option<String>, &'static str>)
    ensures
        ({
            let wanted = wanted_host(
                match host {
                    Some(h) => Some(h@),
                    None => None,
                },
            );
            match r {
                Ok(h) => text_in(h) == wanted && match wanted {
                    Some(t) => encode_utf8(t).len() <= 253 && !not_bare(t),
                    None => true,
                },
                Err(m) => wanted is Some && m@ == (if encode_utf8(wanted->0).len() > 253 {
                    "target_host must be at most 253 characters"@
                } else {
                    "target_host must be a bare hostname or IP (no scheme, port, or path)"@
                }) && (encode_utf8(wanted->0).len() > 253 || not_bare(wanted->0)),
            }
        }),
{
    match host {
        None => Ok(None),
        Some(h) => {
            let t = trim(h);
            if t.as_str().is_empty() || str_eq(t.as_str(), "localhost") || str_eq(
                t.as_str(),
                "127.0.0.1",
            ) {
                return Ok(None);
            }
            if t.as_str().as_bytes().len() > 253 {
                return Err("target_host must be at most 253 characters");
            }
            if is_not_bare(t.as_str()) {
                return Err("target_host must be a bare hostname or IP (no scheme, port, or path)");
            }
            Ok(Some(t))
        },
    }
}

/// A service that was made.
#[derive(Debug)]
pub struct CreatedService {
    /// The status of the answer.
    pub status: u16,
    pub name: String,
    pub target_port: u16,
    pub target_host: Option<String>,
    pub url: String,
    /// Whether there was none with its name.
    pub is_new: bool,
}

/// The address of a service. It is secure where the owner supplied a certificate.
pub open spec fn url_of(secure: bool, name: Seq<char>, tld: Seq<char>) -> Seq<char> {
    (if secure {
        "https"@
    } else {
        "http"@
    }) + "://"@ + name + "."@ + tld
}

/// The address of a service.
pub fn service_url(secure: bool, name: &str, tld: &str) -> (s: String)
    ensures
        s@ == url_of(secure, name@, tld@),
{
    let scheme = if secure {
        "https"
    } else {
        "http"
    };
    let mut s = concat3(scheme, "://", name);
    s.append(".");
    s.append(tld);
    s
}

/// Makes a service, or says what is wrong with it.
pub fn create_service(
    store: &mut ServiceStore,
    name: &str,
    target_port: u16,
    target_host: Option<&str>,
    secure: bool,
    tld: &str,
) -> (r: Result<CreatedService, (u16, &'static str)>)
    requires
        old(store).wf(),
    ensures
        final(store).wf(),
        ({
            let host = match target_host {
                Some(h) => Some(h@),
                None => None,
            };
            match service_fault(name@, target_port, host) {
                Some(fault) => r matches Err((400, m)) && m@ == fault && final(store)@ == old(
                    store)@,
                None => {
                    let key = lowercase(name@);
                    &&& r matches Ok(c)
                    &&& c.status == 201
                    &&& c.name@ == key
                    &&& c.target_port == target_port
                    &&& text_in(c.target_host) == wanted_host(host)
                    &&& c.url@ == url_of(secure, key, tld@)
                    &&& c.is_new == !old(store)@.services.contains_key(lowercase(key))
                    &&& final(store)@ == (StoreView {
                        services: old(store)@.services.insert(
                            lowercase(key),
                            ServiceView {
                                name: lowercase(key),
                                target_port,
                                target_host: wanted_host(host),
                                routes: Seq::empty(),
                            },
                        ),
                        config: old(store)@.config,
                    })
                },
            }
        }),
{
    let key = to_lowercase(name);
    if key.as_str().is_empty() || key.as_str().as_bytes().len() > 63 {
        return Err((400, "name must be 1-63 characters"));
    }
    if !is_plain_name(key.as_str()) {
        return Err((400, "name must contain only alphanumeric characters and hyphens"));
    }
    if target_port == 0 {
        return Err((400, "target_port must be > 0"));
    }
    let host = match checked_host(target_host) {
        Ok(h) => h,
        Err(m) => {
            return Err((400, m));
        },
    };
    let is_new = store.has_name(key.as_str());
    let kept = match &host {
        Some(h) => Some(h.clone()),
        None => None,
    };
    store.insert(key.as_str(), target_port, kept);
    let url = service_url(secure, key.as_str(), tld);
    Ok(CreatedService { status: 201, name: key, target_port, target_host: host, url, is_new })
}

/// Takes a service away, and gives the status. The server's own stays.
pub fn remove_service(store: &mut ServiceStore, name: &str) -> (status: u16)
    requires
        old(store).wf(),
    ensures
        final(store).wf(),
        if ascii_lowercase(name@) == ascii_lowercase("numa"@) {
            status == 403 && final(store)@ == old(store)@
        } else if old(store)@.services.contains_key(lowercase(name@)) {
            status == 204 && final(store)@ == (StoreView {
                services: old(store)@.services.remove(lowercase(name@)),
                config: old(store)@.config,
            })
        } else {
            status == 404 && final(store)@ == old(store)@
        },
{
    if eq_ignore_ascii_case(name, "numa") {
        return 403;
    }
    if store.remove(name) {
        204
    } else {
        assert(old(store)@.services.remove(lowercase(name@)) =~= old(store)@.services);
        404
    }
}

/// The status for a removal: whether there was something to remove.
pub fn removal_status(removed: bool) -> (status: u16)
    ensures
        status == (if removed {
            204u16
        } else {
            404u16
        }),
{
    if removed {
        204
    } else {
        404
    }
}

/// The routes of a service, or the status where there is no such service.
pub fn list_routes<'a>(store: &'a ServiceStore, name: &str) -> (r: Result<&'a Vec<RouteEntry>, u16>)
    requires
        store.wf(),
    ensures
        match r {
            Ok(v) => store@.services.contains_key(lowercase(name@)) && routes(v@)
                == store@.services[lowercase(name@)].routes,
            Err(c) => c == 404 && !store@.services.contains_key(lowercase(name@)),
        },
{
    match store.lookup(name) {
        Some(e) => Ok(&e.routes),
        None => Err(404),
    }
}

/// What is wrong with a route that is to be added.
pub open spec fn route_fault(path: Seq<char>, port: u16) -> Option<Seq<char>> {
    if !has_prefix(path, "/"@) {
        Some("path must start with /"@)
    } else if has_part(path, "/../"@) || has_suffix(path, "/.."@) || path.contains('%') {
        Some("path must not contain '..' or percent-encoding"@)
    } else if port == 0 {
        Some("port must be > 0"@)
    } else {
        None
    }
}

/// Adds a route to a service, in place of one with its path, and gives the
/// status; or says what is wrong.
pub fn add_route(store: &mut ServiceStore, name: &str, path: String, port: u16, strip: bool) -> (r:
    Result<u16, (u16, String)>)
    requires
        old(store).wf(),
    ensures
        final(store).wf(),
        ({
            let key = lowercase(name@);
            match route_fault(path@, port) {
                Some(fault) => r matches Err((400, m)) && m@ == fault && final(store)@ == old(
                    store)@,
                None => if old(store)@.services.contains_key(key) {
                    let e = old(store)@.services[key];
                    r == Ok::<u16, (u16, String)>(201) && final(store)@ == (StoreView {
                        services: old(store)@.services.insert(
                            key,
                            ServiceView {
                                routes: without_path(e.routes, path@).push(
                                    RouteView { path: path@, port, strip },
                                ),
                                ..e
                            },
                        ),
                        config: old(store)@.config,
                    })
                } else {
                    r matches Err((404, m)) && m@ == "service '"@ + name@ + "' not found"@ && final(
                        store)@ == old(store)@
                },
            }
        }),
{
    if !starts_with(path.as_str(), "/") {
        return Err((400, "path must start with /".to_owned()));
    }
    if contains(path.as_str(), "/../") || ends_with(path.as_str(), "/..") || contains_char(
        path.as_str(),
        '%',
    ) {
        return Err((400, "path must not contain '..' or percent-encoding".to_owned()));
    }
    if port == 0 {
        return Err((400, "port must be > 0".to_owned()));
    }
    if store.add_route(name, path, port, strip) {
        Ok(201)
    } else {
        Err((404, concat3("service '", name, "' not found")))
    }
}

/// Takes the routes with a path away from a service, and gives the status.
pub fn remove_route(store: &mut ServiceStore, name: &str, path: &str) -> (status: u16)
    requires
        old(store).wf(),
    ensures
        final(store).wf(),
        ({
            let key = lowercase(name@);
            let e = old(store)@.services[key];
            let left = without_path(e.routes, path@);
            if old(store)@.services.contains_key(key) && left.len() < e.routes.len() {
                status == 204 && final(store)@ == (StoreView {
                    services: old(store)@.services.insert(key, ServiceView { routes: left, ..e }),
                    config: old(store)@.config,
                })
            } else {
                status == 404 && final(store)@ == old(store)@
            }
        }),
{
    if store.remove_route(name, path) {
        204
    } else {
        404
    }
}

/// A service with its address and where it comes from.
#[derive(Debug)]
pub struct ServiceListing {
    pub entry: ServiceEntry,
    pub url: String,
    pub source: &'static str,
}

/// Whether a listing is of a service.
pub open spec fn lists(l: ServiceListing, e: ServiceView, store: StoreView, secure: bool, tld: Seq<char>) -> bool {
    &&& l.entry@ == e
    &&& l.url@ == url_of(secure, e.name, tld)
    &&& l.source@ == (if store.config.contains(e.name) {
        "config"@
    } else {
        "api"@
    })
}

/// The services that are listed.
pub open spec fn listed_services(v: Seq<ServiceListing>) -> Seq<ServiceView> {
    v.map_values(|l: ServiceListing| l.entry@)
}

/// The services in the order of their names, each once, with their addresses and
/// where they come from.
pub fn list_services(store: &ServiceStore, secure: bool, tld: &str) -> (v: Vec<ServiceListing>)
    requires
        store.wf(),
    ensures
        is_listing(listed_services(v@), store@),
        forall|i: int|
            0 <= i < v@.len() ==> lists(#[trigger] v@[i], v@[i].entry@, store@, secure, tld@),
{
    let entries = store.list();
    let ghost row = service_row(entries@);
    let mut v: Vec<ServiceListing> = Vec::new();
    let mut i: usize = 0;
    while i < entries.len()
        invariant
            i <= entries.len(),
            row == service_row(entries@),
            v@.len() == i,
            forall|j: int| 0 <= j < i ==> lists(#[trigger] v@[j], row[j], store@, secure, tld@),
        decreases entries.len() - i,
    {
        let e = entries[i];
        assert(row[i as int] == e@);
        let source = if store.is_config_service(e.name.as_str()) {
            "config"
        } else {
            "api"
        };
        v.push(
            ServiceListing {
                entry: e.copy(),
                url: service_url(secure, e.name.as_str(), tld),
                source,
            },
        );
        i += 1;
    }
    assert(listed_services(v@) =~= row);
    v
}

/// A step of a diagnosis: a source, whether it has the name, and a remark.
#[derive(Debug)]
pub struct DiagnoseStep {
    pub source: &'static str,
    pub matched: bool,
    pub detail: Option<String>,
}

/// Whether a step says this.
pub open spec fn says(s: DiagnoseStep, source: Seq<char>, detail: Option<Seq<char>>) -> bool {
    s.source@ == source && s.matched == (detail is Some) && text_in(s.detail) == detail
}

/// What was found for a name outside of what the library holds: the override,
/// by its domain, its target and the name of its type, and the number of cached
/// answers.
pub struct Found {
    pub override_entry: Option<(String, String, QueryType)>,
    pub cached_answers: Option<usize>,
}

/// What came of asking upstream.
pub enum UpstreamProbe {
    /// There is no upstream.
    Unconfigured,
    /// It answered, with an outcome and so many answers.
    Answered(ResultCode, usize),
    /// It failed.
    Failed(String),
}

/// The remark on an override.
pub open spec fn override_remark(found: &Found) -> Option<Seq<char>> {
    match found.override_entry {
        Some((d, t, q)) => Some(d@ + " -> "@ + t@ + " ("@ + q.name() + ")"@),
        None => None,
    }
}

/// A number before a word, if there is a number.
pub open spec fn counted(n: Option<nat>, word: Seq<char>) -> Option<Seq<char>> {
    match n {
        Some(n) => Some(decimal(n) + word),
        None => None,
    }
}

/// The remark on what came of asking upstream.
pub open spec fn probe_remark(probe: &UpstreamProbe) -> Seq<char> {
    match probe {
        UpstreamProbe::Unconfigured => "no upstream configured"@,
        UpstreamProbe::Answered(code, n) => code.name() + " ("@ + decimal(*n as nat) + " answers)"@,
        UpstreamProbe::Failed(e) => "error: "@ + e@,
    }
}

/// Where a name is found: each source in the order in which it is asked.
pub fn diagnose(ctx: &ServerCtx, domain: &str, found: &Found, probe: &UpstreamProbe) -> (v: Vec<
    DiagnoseStep,
>)
    ensures
        v@.len() == 5,
        says(v@[0], "override"@, override_remark(found)),
        says(
            v@[1],
            "blocklist"@,
            if ctx.blocklist.verdict(lowercase(domain@)).blocked {
                Some("domain is in blocklist"@)
            } else {
                None
            },
        ),
        says(
            v@[2],
            "local_zone"@,
            counted(
                match ctx.zone_map@.answers(lowercase(domain@), QueryType::A) {
                    Some(a) => Some(a.len()),
                    None => None,
                },
                " records"@,
            ),
        ),
        says(
            v@[3],
            "cache"@,
            counted(
                match found.cached_answers {
                    Some(n) => Some(n as nat),
                    None => None,
                },
                " answers"@,
            ),
        ),
        v@[4].source@ == "upstream"@,
        v@[4].matched == (probe is Answered),
        text_in(v@[4].detail) == Some(probe_remark(probe)),
{
    let name = to_lowercase(domain);
    let mut v: Vec<DiagnoseStep> = Vec::new();
    let on_override = match &found.override_entry {
        Some((d, t, q)) => {
            let mut s = concat3(d.as_str(), " -> ", t.as_str());
            s.append(" (");
            s.append(q.as_str());
            s.append(")");
            Some(s)
        },
        None => None,
    };
    v.push(
        DiagnoseStep { source: "override", matched: on_override.is_some(), detail: on_override },
    );
    let blocked = ctx.blocklist.is_blocked(name.as_str());
    v.push(
        DiagnoseStep {
            source: "blocklist",
            matched: blocked,
            detail: if blocked {
                Some("domain is in blocklist".to_owned())
            } else {
                None
            },
        },
    );
    let in_zone = match ctx.zone_map.lookup(name.as_str(), QueryType::A) {
        Some(r) => {
            assert(crate::packet::records(r@).len() == r@.len());
            Some(concat(decimal_string(r.len() as u64).as_str(), " records"))
        },
        None => None,
    };
    v.push(DiagnoseStep { source: "local_zone", matched: in_zone.is_some(), detail: in_zone });
    let in_cache = match found.cached_answers {
        Some(n) => Some(concat(decimal_string(n as u64).as_str(), " answers")),
        None => None,
    };
    v.push(DiagnoseStep { source: "cache", matched: in_cache.is_some(), detail: in_cache });
    let (matched, detail) = match probe {
        UpstreamProbe::Unconfigured => (false, "no upstream configured".to_owned()),
        UpstreamProbe::Answered(code, n) => {
            let head = concat3(code.as_str(), " (", decimal_string(*n as u64).as_str());
            (true, concat(head.as_str(), " answers)"))
        },
        UpstreamProbe::Failed(e) => (false, concat("error: ", e.as_str())),
    };
    v.push(DiagnoseStep { source: "upstream", matched, detail: Some(detail) });
    v
}

/// Which entries of the log a request asks for. Names of types and ways that
/// there are none of count for nothing.
pub fn query_log_filter(
    domain: Option<String>,
    qtype: Option<&str>,
    path: Option<&str>,
    limit: Option<usize>,
) -> (f: QueryLogFilter)
    ensures
        f.domain == domain,
        f.limit == limit,
        match f.query_type {
            Some(t) => qtype is Some && !(t is UNKNOWN) && ascii_lowercase(t.name())
                == ascii_lowercase(qtype->0@),
            None => qtype is None || forall|t: QueryType|
                !(t is UNKNOWN) ==> ascii_lowercase(#[trigger] t.name()) != ascii_lowercase(
                    qtype->0@,
                ),
        },
        match f.path {
            Some(p) => path is Some && p.named(path->0@),
            None => path is None || forall|p: QueryPath| !#[trigger] p.named(path->0@),
        },
{
    let query_type = match qtype {
        Some(s) => QueryType::parse_str(s),
        None => None,
    };
    let path = match path {
        Some(s) => QueryPath::parse_str(s),
        None => None,
    };
    QueryLogFilter { domain, query_type, path, limit }
}

/// What the statistics say of the upstream.
pub open spec fn upstream_remark(ctx: &ServerCtx) -> Seq<char> {
    if ctx.upstream_mode is Recursive {
        "recursive (root hints)"@
    } else {
        ctx.upstream_pool@.shown()
    }
}

/// What the statistics say of the upstream.
pub fn upstream_label(ctx: &ServerCtx) -> (s: String)
    ensures
        s@ == upstream_remark(ctx),
{
    match ctx.upstream_mode {
        UpstreamMode::Recursive => "recursive (root hints)".to_owned(),
        _ => ctx.upstream_pool.label(),
    }
}

/// An estimate of the memory in use: the parts together, or the largest number.
pub fn total_estimated(
    cache: usize,
    blocklist: usize,
    query_log: usize,
    srtt: usize,
    overrides: usize,
) -> (n: usize)
    ensures
        n == at_most_max(
            (cache + blocklist + query_log + srtt + overrides) as nat,
        ),
{
    cache.saturating_add(blocklist).saturating_add(query_log).saturating_add(srtt).saturating_add(
        overrides,
    )
}

/// What the statistics need from the parts of the server that this library does
/// not hold.
pub struct StatsInputs {
    pub version: &'static str,
    pub config_path: String,
    pub data_dir: String,
    pub srtt_enabled: bool,
    pub srtt_entries: usize,
    pub srtt_bytes: usize,
    pub cache_entries: usize,
    pub cache_max: usize,
    pub cache_bytes: usize,
    pub overrides_active: usize,
    pub overrides_bytes: usize,
    pub blocking_paused: bool,
    pub blocklist_bytes: usize,
    pub lan_peers: usize,
    pub mobile_enabled: bool,
    pub mobile_port: u16,
    pub process_memory_bytes: usize,
}

/// The entries of the cache.
#[derive(Debug, Clone, Copy, PartialEq, Eq, Structural)]
pub struct CacheStats {
    pub entries: usize,
    pub max_entries: usize,
}

/// The state of blocking.
#[derive(Debug, Clone, Copy, PartialEq, Eq, Structural)]
pub struct BlockingStats {
    pub enabled: bool,
    pub paused: bool,
    pub domains_loaded: usize,
    pub allowlist_size: usize,
}

/// An estimate of the memory in use, by its parts.
#[derive(Debug, Clone, Copy, PartialEq, Eq, Structural)]
pub struct MemoryStats {
    pub cache_bytes: usize,
    pub blocklist_bytes: usize,
    pub query_log_bytes: usize,
    pub query_log_entries: usize,
    pub srtt_bytes: usize,
    pub srtt_entries: usize,
    pub overrides_bytes: usize,
    pub total_estimated_bytes: usize,
    pub process_memory_bytes: usize,
}

/// The statistics.
#[derive(Debug)]
pub struct StatsResponse {
    pub version: &'static str,
    pub upstream: String,
    pub mode: &'static str,
    pub config_path: String,
    pub data_dir: String,
    pub proxy_tld: String,
    pub dnssec: bool,
    pub srtt: bool,
    pub counters: StatsSnapshot,
    pub cache: CacheStats,
    pub overrides_active: usize,
    pub blocking: BlockingStats,
    pub lan_enabled: bool,
    pub lan_peers: usize,
    pub mobile_enabled: bool,
    pub mobile_port: u16,
    pub memory: MemoryStats,
}

/// Whether these are the statistics of the server at a time, where the log of
/// queries takes so much memory.
pub open spec fn stats_are(
    r: StatsResponse,
    ctx: &ServerCtx,
    i: StatsInputs,
    query_log_bytes: usize,
    now: u64,
) -> bool {
    &&& r.version == i.version
    &&& r.upstream@ == upstream_remark(ctx)
    &&& r.mode@ == ctx.upstream_mode.name()
    &&& r.config_path@ == i.config_path@
    &&& r.data_dir@ == i.data_dir@
    &&& r.proxy_tld@ == ctx.proxy_tld@
    &&& r.dnssec == ctx.dnssec_enabled
    &&& r.srtt == i.srtt_enabled
    &&& r.counters.of(&ctx.stats, now)
    &&& r.cache == (CacheStats { entries: i.cache_entries, max_entries: i.cache_max })
    &&& r.overrides_active == i.overrides_active
    &&& r.blocking == (BlockingStats {
        enabled: ctx.blocklist.enabled,
        paused: i.blocking_paused,
        domains_loaded: ctx.blocklist.domains@.len() as usize,
        allowlist_size: ctx.blocklist.exceptions@.all().len() as usize,
    })
    &&& r.lan_enabled == ctx.lan_enabled
    &&& r.lan_peers == i.lan_peers
    &&& r.mobile_enabled == i.mobile_enabled
    &&& r.mobile_port == i.mobile_port
    &&& r.memory == (MemoryStats {
        cache_bytes: i.cache_bytes,
        blocklist_bytes: i.blocklist_bytes,
        query_log_bytes,
        query_log_entries: ctx.query_log.entries@.len() as usize,
        srtt_bytes: i.srtt_bytes,
        srtt_entries: i.srtt_entries,
        overrides_bytes: i.overrides_bytes,
        total_estimated_bytes: at_most_max(
            (i.cache_bytes + i.blocklist_bytes + query_log_bytes + i.srtt_bytes
                + i.overrides_bytes) as nat,
        ) as usize,
        process_memory_bytes: i.process_memory_bytes,
    })
}

/// The statistics of the server at a time, where the log of queries takes so much
/// memory.
pub fn stats_with(ctx: &ServerCtx, i: StatsInputs, query_log_bytes: usize, now: u64) -> (r:
    StatsResponse)
    requires
        ctx.wf(),
        ctx.blocklist.exceptions@.all().len() <= usize::MAX,
    ensures
        stats_are(r, ctx, i, query_log_bytes, now),
{
    StatsResponse {
        version: i.version,
        upstream: upstream_label(ctx),
        mode: ctx.upstream_mode.as_str(),
        config_path: i.config_path,
        data_dir: i.data_dir,
        proxy_tld: ctx.proxy_tld.clone(),
        dnssec: ctx.dnssec_enabled,
        srtt: i.srtt_enabled,
        counters: ctx.stats.snapshot(now),
        cache: CacheStats { entries: i.cache_entries, max_entries: i.cache_max },
        overrides_active: i.overrides_active,
        blocking: BlockingStats {
            enabled: ctx.blocklist.enabled,
            paused: i.blocking_paused,
            domains_loaded: ctx.blocklist.domains.len(),
            allowlist_size: ctx.blocklist.exceptions.len(),
        },
        lan_enabled: ctx.lan_enabled,
        lan_peers: i.lan_peers,
        mobile_enabled: i.mobile_enabled,
        mobile_port: i.mobile_port,
        memory: MemoryStats {
            cache_bytes: i.cache_bytes,
            blocklist_bytes: i.blocklist_bytes,
            query_log_bytes,
            query_log_entries: ctx.query_log.len(),
            srtt_bytes: i.srtt_bytes,
            srtt_entries: i.srtt_entries,
            overrides_bytes: i.overrides_bytes,
            total_estimated_bytes: total_estimated(
                i.cache_bytes,
                i.blocklist_bytes,
                query_log_bytes,
                i.srtt_bytes,
                i.overrides_bytes,
            ),
            process_memory_bytes: i.process_memory_bytes,
        },
    }
}

/// The statistics of the server at a time. What the log of queries takes is an
/// estimate that rests on the allocator.
pub fn stats(ctx: &ServerCtx, i: StatsInputs, now: u64) -> (r: StatsResponse)
    requires
        ctx.wf(),
        ctx.blocklist.exceptions@.all().len() <= usize::MAX,
    ensures
        stats_are(r, ctx, i, r.memory.query_log_bytes, now),
        exists|rooms: Seq<usize>| #[trigger]
            room_of(
                r.memory.query_log_bytes,
                size_of::<QueryLogEntry>(),
                log_held(ctx.query_log.entries@),
                rooms,
            ),
{
    let query_log_bytes: usize = ctx.query_log.heap_bytes();
    let r = stats_with(ctx, i, query_log_bytes, now);
    assert(r.memory.query_log_bytes == query_log_bytes);
    r
}

/// The picture of a code for a text, with the least side and the two colours
/// that are given.
pub uninterp spec fn qr_picture(
    text: Seq<char>,
    side: u32,
    dark: Seq<char>,
    light: Seq<char>,
) -> Option<Seq<char>>;

/// `qrcode::QrCode::new`, and its `render` as SVG of at least the side and with
/// the colours that are given: a picture, or none where the text is too long
/// for a code. A function of the arguments alone.
#[verifier::external_body]
fn qr_svg(text: &str, side: u32, dark: &str, light: &str) -> (r: Option<String>)
    requires
        side <= 4096,
    ensures
        qr_picture(text@, side, dark@, light@) == (match r {
            Some(s) => Some(s@),
            None => None,
        }),
{
    let code = qrcode::QrCode::new(text).ok()?;
    let mut renderer = code.render::<qrcode::render::svg::Color>();
    renderer.min_dimensions(side, side);
    renderer.dark_color(qrcode::render::svg::Color(dark));
    renderer.light_color(qrcode::render::svg::Color(light));
    Some(renderer.build())
}

/// The address of the configuration for phones.
pub open spec fn phone_url(lan_ip: Ipv4Addr, port: u16) -> Seq<char> {
    "http://"@ + ipv4_text(lan_ip) + ":"@ + decimal(port as nat) + "/mobileconfig"@
}

/// The address of the configuration for phones.
pub fn mobile_url(lan_ip: Ipv4Addr, port: u16) -> (s: String)
    ensures
        s@ == phone_url(lan_ip, port),
{
    let mut s = concat3("http://", lan_ip.to_text().as_str(), ":");
    s.append(decimal_string(port as u64).as_str());
    s.append("/mobileconfig");
    s
}

/// What a request for a code is answered, from the picture where one was made.
pub fn qr_answer(enabled: bool, picture: Option<String>) -> (r: Result<String, u16>)
    ensures
        if !enabled {
            r == Err::<String, u16>(404)
        } else {
            match picture {
                Some(s) => r == Ok::<String, u16>(s),
                None => r == Err::<String, u16>(500),
            }
        },
{
    if !enabled {
        return Err(404);
    }
    match picture {
        Some(s) => Ok(s),
        None => Err(500),
    }
}

/// The code by which a phone finds its configuration, or the status.
pub fn serve_qr(mobile_enabled: bool, lan_ip: Ipv4Addr, mobile_port: u16) -> (r: Result<String, u16>)
    ensures
        if !mobile_enabled {
            r == Err::<String, u16>(404)
        } else {
            match qr_picture(phone_url(lan_ip, mobile_port), 180, "#2c2418"@, "#faf7f2"@) {
                Some(s) => r matches Ok(t) && t@ == s,
                None => r == Err::<String, u16>(500),
            }
        },
{
    if !mobile_enabled {
        return qr_answer(false, None);
    }
    let url = mobile_url(lan_ip, mobile_port);
    qr_answer(true, qr_svg(url.as_str(), 180, "#2c2418", "#faf7f2"))
}

/// The name of a service that can be made from ASCII text is its own key: taking
/// it to lower case again changes nothing.
pub proof fn made_name_is_its_key(name: Seq<char>, port: u16, host: Option<Seq<char>>)
    requires
        all_ascii(name),
        service_fault(name, port, host) is None,
    ensures
        lowercase(lowercase(name)) == lowercase(name),
{
    lowercase_again(name);
}

} // verus!
