//! What services come to: which can be made, where they are listed, and which a
//! server starts with.
use vstd::prelude::*;
use vstd::utf8::encode_utf8;

use crate::api::{route_fault, service_fault, url_of, wanted_host};
use crate::config::ServiceConfig;
use crate::serve::{starting_services, suffix_of, with_configured};
use crate::service_store::{
    kept_services, routes, text_in, without_path, RouteView, ServiceView, Slot, StoreView,
};
use crate::text::{
    ascii_lowercase, has_part, has_prefix, has_suffix, lowercase, trimmed, white,
};
use crate::text_laws::prefix_or_whole;

verus! {

// ---------------------------------------------------------------------------
// Making services
// ---------------------------------------------------------------------------

/// A service can be made where its name, in lower case, has 1 to 63 bytes, all of
/// them letters, digits and hyphens, where its port is not zero, and where its
/// host, if it has one of its own, is at most 253 bytes and without control
/// characters, white space, slashes and colons.
pub proof fn services_that_can_be_made(name: Seq<char>, port: u16, host: Option<Seq<char>>)
    ensures
        ({
            let n = lowercase(name);
            service_fault(name, port, host) is None <==> {
                &&& 1 <= n.len()
                &&& encode_utf8(n).len() <= 63
                &&& forall|i: int|
                    0 <= i < n.len() ==> {
                        ||| 'a' <= (#[trigger] n[i]) && n[i] <= 'z'
                        ||| 'A' <= n[i] && n[i] <= 'Z'
                        ||| '0' <= n[i] && n[i] <= '9'
                        ||| n[i] == '-'
                    }
                &&& port != 0
                &&& wanted_host(host) matches Some(h) ==> {
                    &&& encode_utf8(h).len() <= 253
                    &&& forall|i: int|
                        0 <= i < h.len() ==> !((#[trigger] h[i]) as u32 <= 0x1f || (0x7f
                            <= h[i] as u32 && h[i] as u32 <= 0x9f)) && !white(h[i]) && h[i] != '/'
                            && h[i] != ':'
                }
            }
        }),
{
    let n = lowercase(name);
    if let Some(h) = wanted_host(host) {
        if forall|i: int|
            0 <= i < h.len() ==> !((#[trigger] h[i]) as u32 <= 0x1f || (0x7f <= h[i] as u32
                && h[i] as u32 <= 0x9f)) && !white(h[i]) && h[i] != '/' && h[i] != ':' {
            assert(!crate::api::not_bare(h));
        }
        if !crate::api::not_bare(h) {
            assert forall|i: int| 0 <= i < h.len() implies !((#[trigger] h[i]) as u32 <= 0x1f || (
            0x7f <= h[i] as u32 && h[i] as u32 <= 0x9f)) && !white(h[i]) && h[i] != '/' && h[i]
                != ':' by {
                assert(!crate::api::control(h[i]));
            }
        }
    }
}

/// A host that is empty or this machine's is none of a service's own; any other
/// is, without white space round it.
pub proof fn host_of_its_own(host: Seq<char>)
    ensures
        wanted_host(None) is None,
        trimmed(host).len() == 0 || trimmed(host) == "localhost"@ || trimmed(host) == "127.0.0.1"@
            ==> wanted_host(Some(host)) is None,
        trimmed(host).len() > 0 && trimmed(host) != "localhost"@ && trimmed(host) != "127.0.0.1"@
            ==> wanted_host(Some(host)) == Some(trimmed(host)),
{
}

/// A route can be made for a path that starts with a slash, without `..` as a
/// segment behind the first and without percent signs, and for a port that is
/// not zero.
pub proof fn routes_that_can_be_made(path: Seq<char>, port: u16)
    ensures
        route_fault(path, port) is None <==> path.len() > 0 && path[0] == '/' && !has_part(
            path,
            "/../"@,
        ) && !has_suffix(path, "/.."@) && !path.contains('%') && port != 0,
{
    reveal_strlit("/");
    prefix_or_whole(path, "/"@);
    if has_prefix(path, "/"@) {
        assert(path.subrange(0, 1)[0] == "/"@[0]);
    }
    if path.len() > 0 && path[0] == '/' {
        assert(path.subrange(0, 1) =~= "/"@);
    }
}

/// A service is reached at its name in the proxy's domain, over HTTPS where that
/// is to be had.
pub proof fn services_have_a_url(name: Seq<char>, tld: Seq<char>)
    ensures
        url_of(true, name, tld) == "https://"@ + name + seq!['.'] + tld,
        url_of(false, name, tld) == "http://"@ + name + seq!['.'] + tld,
        tld.len() > 0 ==> suffix_of(tld) == seq!['.'] + tld,
        tld.len() == 0 ==> suffix_of(tld).len() == 0,
{
    reveal_strlit("https");
    reveal_strlit("http");
    reveal_strlit("://");
    reveal_strlit("https://");
    reveal_strlit("http://");
    reveal_strlit(".");
    assert("https"@ + "://"@ =~= "https://"@);
    assert("http"@ + "://"@ =~= "http://"@);
    assert("."@ =~= seq!['.']);
}

/// Taking a route away takes every route of that path, and leaves the others in
/// their order.
pub proof fn routes_of_a_path_go(rs: Seq<RouteView>, path: Seq<char>, r: RouteView)
    ensures
        without_path(rs.push(r), path) == (if r.path == path {
            without_path(rs, path)
        } else {
            without_path(rs, path).push(r)
        }),
        without_path(Seq::empty(), path).len() == 0,
{
    reveal(Seq::filter);
    assert(rs.push(r).drop_last() =~= rs);
}

// ---------------------------------------------------------------------------
// The services of a server
// ---------------------------------------------------------------------------

/// A service is found by its name in either case of letters, and no other is
/// found in its place.
pub proof fn services_are_found_by_name(store: StoreView, e: ServiceView, name: Seq<char>)
    requires
        !store.config.contains(lowercase(e.name)),
    ensures
        lowercase(name) == lowercase(e.name) ==> store.with_persisted(e).looked_up(name) == Some(e),
        lowercase(name) != lowercase(e.name) ==> store.with_persisted(e).looked_up(name)
            == store.looked_up(name),
        store.with_persisted(e).config == store.config,
{
}

/// Whether the last service of the configuration that has a name, in either case
/// of letters, is this one.
pub open spec fn last_of_name(cs: Seq<ServiceConfig>, i: int) -> bool {
    0 <= i < cs.len() && forall|j: int|
        i < j < cs.len() ==> lowercase((#[trigger] cs[j]).name@) != lowercase(cs[i].name@)
}

proof fn last_configured_stands(store: StoreView, cs: Seq<ServiceConfig>, i: int)
    requires
        last_of_name(cs, i),
    ensures
        ({
            let s = with_configured(store, cs);
            let key = lowercase(cs[i].name@);
            &&& s.config.contains(key)
            &&& s.services.contains_key(key)
            &&& s.services[key].name == key
            &&& s.services[key].target_port == cs[i].target_port
            &&& s.services[key].target_host == text_in(cs[i].target_host)
            &&& s.services[key].routes == routes(cs[i].routes@)
        }),
    decreases cs.len(),
{
    if i < cs.len() - 1 {
        let fewer = cs.drop_last();
        assert(fewer[i] == cs[i]);
        assert(lowercase(cs[cs.len() - 1].name@) != lowercase(cs[i].name@));
        assert(last_of_name(fewer, i)) by {
            assert forall|j: int| i < j < fewer.len() implies lowercase((#[trigger] fewer[j]).name@)
                != lowercase(fewer[i].name@) by {
                assert(fewer[j] == cs[j]);
            }
        }
        last_configured_stands(store, fewer, i);
    }
}

/// A server starts with the services of its configuration, the last of several
/// of one name, and nothing that was kept stands in their place.
pub proof fn configured_services_are_there(
    api_port: u16,
    cs: Seq<ServiceConfig>,
    kept: Seq<ServiceView>,
    i: int,
)
    requires
        last_of_name(cs, i),
    ensures
        starting_services(api_port, cs, kept).looked_up(cs[i].name@) matches Some(s) && s.name
            == lowercase(cs[i].name@) && s.target_port == cs[i].target_port && s.target_host
            == text_in(cs[i].target_host) && s.routes == routes(cs[i].routes@),
{
    let start = own_services(api_port);
    last_configured_stands(start, cs, i);
    crate::service_store::configured_services_stay(
        with_configured(start, cs),
        kept,
        lowercase(cs[i].name@),
    );
}

spec fn own_services(api_port: u16) -> StoreView {
    StoreView {
        services: Map::<Seq<char>, ServiceView>::empty().insert(
            lowercase("numa"@),
            ServiceView {
                name: lowercase("numa"@),
                target_port: api_port,
                target_host: None,
                routes: Seq::empty(),
            },
        ),
        config: Set::<Seq<char>>::empty().insert(lowercase("numa"@)),
    }
}

proof fn other_names_stay(store: StoreView, cs: Seq<ServiceConfig>, key: Seq<char>)
    requires
        forall|j: int| 0 <= j < cs.len() ==> lowercase((#[trigger] cs[j]).name@) != key,
    ensures
        with_configured(store, cs).config.contains(key) <==> store.config.contains(key),
        with_configured(store, cs).services.contains_key(key) <==> store.services.contains_key(key),
        store.services.contains_key(key) ==> with_configured(store, cs).services[key]
            == store.services[key],
    decreases cs.len(),
{
    if cs.len() > 0 {
        let fewer = cs.drop_last();
        assert forall|j: int| 0 <= j < fewer.len() implies lowercase((#[trigger] fewer[j]).name@)
            != key by {
            assert(fewer[j] == cs[j]);
        }
        assert(lowercase(cs[cs.len() - 1].name@) != key);
        other_names_stay(store, fewer, key);
    }
}

/// A server has a service of its own, at the port of its API, unless the
/// configuration has one of that name.
pub proof fn own_service_is_there(api_port: u16, cs: Seq<ServiceConfig>, kept: Seq<ServiceView>)
    requires
        forall|j: int|
            0 <= j < cs.len() ==> lowercase((#[trigger] cs[j]).name@) != lowercase("numa"@),
    ensures
        starting_services(api_port, cs, kept).looked_up("numa"@) matches Some(s) && s.target_port
            == api_port && s.target_host is None && s.routes.len() == 0,
{
    let start = own_services(api_port);
    other_names_stay(start, cs, lowercase("numa"@));
    crate::service_store::configured_services_stay(
        with_configured(start, cs),
        kept,
        lowercase("numa"@),
    );
}

/// What is kept for the next start is every service but those of the
/// configuration and the server's own.
pub proof fn services_that_are_kept(slots: Seq<Slot>, s: Slot, config: Set<Seq<char>>)
    ensures
        kept_services(slots.push(s), config) == (if config.contains(s.entry@.name)
            || ascii_lowercase(s.entry@.name) == seq!['n', 'u', 'm', 'a'] {
            kept_services(slots, config)
        } else {
            kept_services(slots, config).push(s.entry@)
        }),
        kept_services(Seq::empty(), config).len() == 0,
{
    reveal_strlit("numa");
    assert(slots.push(s).drop_last() =~= slots);
    assert(ascii_lowercase("numa"@) =~= seq!['n', 'u', 'm', 'a']);
}

} // verus!
