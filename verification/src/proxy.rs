//! The proxy: where a request for a service goes, and the pages for those that
//! go nowhere.
use vstd::prelude::*;

use crate::ctx::ServerCtx;
use crate::service_store::{best_route, handed_on, ServiceEntry, ServiceView};
use crate::text::{
    concat, concat3, decimal, decimal_string, drop_suffix, ends_with, has_suffix, lowercase, split,
    split_parts, to_lowercase, without_suffix,
};

verus! {

/// A page up to its title.
pub const PAGE_HEAD: &'static str = "<!DOCTYPE html>\n\
<html lang=\"en\"><head><meta charset=\"UTF-8\"><meta name=\"viewport\" content=\"width=device-width,initial-scale=1\">\n\
<title>";

/// A page between its title and its body.
pub const PAGE_STYLE: &'static str = " \u{2014} Numa</title>\n\
<style>\n\
*,*::before,*::after { margin:0;padding:0;box-sizing:border-box }\n\
body {\n\
\x20 font-family: system-ui, -apple-system, sans-serif;\n\
\x20 background: #f5f0e8;\n\
\x20 color: #2c2418;\n\
\x20 min-height: 100vh;\n\
\x20 display: flex;\n\
\x20 align-items: center;\n\
\x20 justify-content: center;\n\
\x20 -webkit-font-smoothing: antialiased;\n\
\x20 position: relative;\n\
\x20 overflow: hidden;\n\
}\n\
body::before {\n\
\x20 content: '';\n\
\x20 position: fixed;\n\
\x20 inset: 0;\n\
\x20 background-image: url(\"data:image/svg+xml,%3Csvg width='120' height='60' xmlns='http://www.w3.org/2000/svg'%3E%3Crect x='1' y='1' width='56' height='27' rx='1' fill='none' stroke='%23a39888' stroke-width='0.5' opacity='0.12'/%3E%3Crect x='61' y='1' width='56' height='27' rx='1' fill='none' stroke='%23a39888' stroke-width='0.5' opacity='0.12'/%3E%3Crect x='31' y='31' width='56' height='27' rx='1' fill='none' stroke='%23a39888' stroke-width='0.5' opacity='0.12'/%3E%3C/svg%3E\");\n\
\x20 background-size: 120px 60px;\n\
\x20 pointer-events: none;\n\
\x20 opacity: 0.5;\n\
\x20 -webkit-mask-image: radial-gradient(ellipse at center, transparent 20%, rgba(0,0,0,0.4) 70%);\n\
\x20 mask-image: radial-gradient(ellipse at center, transparent 20%, rgba(0,0,0,0.4) 70%);\n\
}\n\
.container {\n\
\x20 position: relative;\n\
\x20 z-index: 1;\n\
\x20 text-align: center;\n\
\x20 max-width: 480px;\n\
\x20 padding: 2rem;\n\
\x20 animation: rise 0.6s cubic-bezier(0.22,1,0.36,1);\n\
}\n\
@keyframes rise {\n\
\x20 from { opacity:0; transform:translateY(20px) }\n\
\x20 to { opacity:1; transform:translateY(0) }\n\
}\n\
.hero-text {\n\
\x20 font-family: Georgia, 'Times New Roman', serif;\n\
\x20 font-size: 6rem;\n\
\x20 line-height: 1;\n\
\x20 color: #c0623a;\n\
\x20 letter-spacing: 0.04em;\n\
\x20 opacity: 0.85;\n\
}\n\
.label {\n\
\x20 font-family: ui-monospace, 'SF Mono', monospace;\n\
\x20 font-size: 0.7rem;\n\
\x20 letter-spacing: 0.12em;\n\
\x20 text-transform: uppercase;\n\
\x20 color: #b5443a;\n\
\x20 margin-bottom: 1rem;\n\
}\n\
.domain {\n\
\x20 font-family: ui-monospace, 'SF Mono', monospace;\n\
\x20 font-size: 1.1rem;\n\
\x20 color: #2c2418;\n\
\x20 margin-top: 1rem;\n\
\x20 padding: 0.4rem 1rem;\n\
\x20 background: rgba(192,98,58,0.08);\n\
\x20 border: 1px solid rgba(192,98,58,0.15);\n\
\x20 border-radius: 6px;\n\
\x20 display: inline-block;\n\
}\n\
.message {\n\
\x20 color: #6b5e4f;\n\
\x20 margin-top: 1.2rem;\n\
\x20 line-height: 1.7;\n\
\x20 font-size: 0.95rem;\n\
}\n\
.message a {\n\
\x20 color: #c0623a;\n\
\x20 text-decoration: none;\n\
\x20 border-bottom: 1px solid rgba(192,98,58,0.3);\n\
}\n\
.message a:hover { border-bottom-color: #c0623a }\n\
pre {\n\
\x20 text-align: left;\n\
\x20 background: #1a1814;\n\
\x20 color: #e8e0d4;\n\
\x20 padding: 1rem 1.2rem;\n\
\x20 border-radius: 8px;\n\
\x20 font-family: ui-monospace, 'SF Mono', monospace;\n\
\x20 font-size: 0.78rem;\n\
\x20 line-height: 1.7;\n\
\x20 margin-top: 1.2rem;\n\
\x20 overflow-x: auto;\n\
}\n\
pre .prompt { color: #8baa6e }\n\
pre .flag { color: #8b9fbb }\n\
pre .str { color: #d48a5a }\n\
.aside {\n\
\x20 margin-top: 2.5rem;\n\
\x20 font-family: Georgia, 'Times New Roman', serif;\n\
\x20 font-style: italic;\n\
\x20 font-size: 0.85rem;\n\
\x20 color: #a39888;\n\
\x20 letter-spacing: 0.03em;\n\
\x20 opacity: 0;\n\
\x20 animation: fade 0.8s 1.5s forwards;\n\
}\n\
@keyframes fade { to { opacity: 1 } }\n\
</style></head><body>\n\
<div class=\"container\">\n\
";

/// A page after its body.
pub const PAGE_TAIL: &'static str = "\n\
</div>\n\
</body></html>";

/// A page with a title and a body.
pub open spec fn page(title: Seq<char>, body: Seq<char>) -> Seq<char> {
    PAGE_HEAD@ + title + PAGE_STYLE@ + body + PAGE_TAIL@
}

/// A page with a title and a body.
pub fn error_page(title: &str, body: &str) -> (s: String)
    ensures
        s@ == page(title@, body@),
{
    let mut s = PAGE_HEAD.to_owned();
    s.append(title);
    s.append(PAGE_STYLE);
    s.append(body);
    s.append(PAGE_TAIL);
    s
}

/// The body of the page for a blocked name, up to the name, between its two
/// places, and after these.
pub const BLOCKED_1: &'static str = "  <div class=\"hero-text\">&#x1f6e1;</div>\n\
\x20 <div class=\"label\">Blocked by Numa</div>\n\
\x20 <div class=\"domain\">";

pub const BLOCKED_2: &'static str = "</div>\n\
\x20 <p class=\"message\">This domain is on the ad &amp; tracker blocklist.<br>To allow it, use the <a href=\"http://numa.numa\">dashboard</a> or:</p>\n\
\x20 <pre><span class=\"prompt\">$</span> <span class=\"str\">curl</span> <span class=\"flag\">-X POST</span> localhost:5380/blocking/allowlist \\\n\
\x20   <span class=\"flag\">-d</span> '<span class=\"str\">{\"domain\":\"";

pub const BLOCKED_3: &'static str = "\"}</span>'</pre>";

/// The body of the page for a service that is not known, up to its name, between
/// its two places, and after these.
pub const UNKNOWN_1: &'static str = "  <div class=\"hero-text\">404</div>\n\
\x20 <div class=\"domain\">";

pub const UNKNOWN_2: &'static str = "</div>\n\
\x20 <p class=\"message\">This service isn't registered yet.<br>Add it from the <a href=\"http://numa.numa\">dashboard</a> or:</p>\n\
\x20 <pre><span class=\"prompt\">$</span> <span class=\"str\">curl</span> <span class=\"flag\">-X POST</span> numa.numa:5380/services \\\n\
\x20   <span class=\"flag\">-H</span> 'Content-Type: application/json' \\\n\
\x20   <span class=\"flag\">-d</span> '<span class=\"str\">{\"name\":\"";

pub const UNKNOWN_3: &'static str = "\",\"target_port\":3000}</span>'</pre>\n\
\x20 <div class=\"aside\">ma-ia hii, ma-ia huu, ma-ia haa, ma-ia ha-ha</div>";

/// The page for a blocked name.
pub open spec fn blocked_page(host: Seq<char>) -> Seq<char> {
    page("Blocked \u{2014} "@ + host, BLOCKED_1@ + host + BLOCKED_2@ + host + BLOCKED_3@)
}

/// The page for a service that is not known.
pub open spec fn unknown_page(service: Seq<char>, suffix: Seq<char>) -> Seq<char> {
    page(
        "404 \u{2014} "@ + service + suffix,
        UNKNOWN_1@ + service + suffix + UNKNOWN_2@ + service + UNKNOWN_3@,
    )
}

/// The host that the header of a request names, in lower case and without the
/// port.
pub open spec fn request_host(header: Option<Seq<char>>) -> Option<Seq<char>> {
    match header {
        Some(h) => Some(lowercase(split_parts(h, ':')[0])),
        None => None,
    }
}

/// The host that the header of a request names.
pub fn extract_host(header: Option<&str>) -> (r: Option<String>)
    ensures
        request_host(
            match header {
                Some(h) => Some(h@),
                None => None,
            },
        ) == (match r {
            Some(s) => Some(s@),
            None => None,
        }),
{
    match header {
        Some(h) => {
            let parts = split(h, ':');
            assert(split_parts(h@, ':')[0] == parts@[0]@);
            Some(to_lowercase(parts[0].as_str()))
        },
        None => None,
    }
}

/// What is done with a request.
#[derive(Debug)]
pub enum ProxyStep {
    /// It is answered with a status and a text.
    Text(u16, String),
    /// It is answered with a status and a page.
    Page(u16, String),
    /// It goes to an address.
    Forward(String),
}

/// Whether a request to a service goes to a port, with this path: by the best
/// route for it, or to the service itself.
pub open spec fn goes_to(s: ServiceView, request: Seq<char>, port: u16, path: Seq<char>) -> bool {
    if exists|i: int| best_route(s.routes, request, i) {
        exists|i: int|
            #[trigger] best_route(s.routes, request, i) && port == s.routes[i].port && path
                == handed_on(s.routes[i], request)
    } else {
        port == s.target_port && path == request
    }
}

/// The address of a path on a host, with a query where there is one.
pub open spec fn target_uri(host: Seq<char>, port: u16, path: Seq<char>, query: Option<Seq<char>>) -> Seq<
    char,
> {
    "http://"@ + host + ":"@ + decimal(port as nat) + path + match query {
        Some(q) => "?"@ + q,
        None => Seq::empty(),
    }
}

fn address(host: &str, port: u16, path: &str, query: Option<&str>) -> (s: String)
    ensures
        s@ == target_uri(
            host@,
            port,
            path@,
            match query {
                Some(q) => Some(q@),
                None => None,
            },
        ),
{
    let mut s = concat3("http://", host, ":");
    s.append(decimal_string(port as u64).as_str());
    s.append(path);
    if let Some(q) = query {
        let ghost before = s@;
        s.append("?");
        s.append(q);
        assert(s@ =~= before + ("?"@ + q@));
    } else {
        assert(s@ + Seq::<char>::empty() =~= s@);
    }
    s
}

/// The host on which a service runs.
pub open spec fn service_host(s: ServiceView) -> Seq<char> {
    match s.target_host {
        Some(h) => h,
        None => "localhost"@,
    }
}

/// What is done with a request for a path of a host. A peer is the text of the
/// address and the port of the one that serves the name, if there is one.
pub open spec fn proxied(
    ctx: &ServerCtx,
    header: Option<Seq<char>>,
    path: Seq<char>,
    query: Option<Seq<char>>,
    peer: Option<(Seq<char>, u16)>,
    r: ProxyStep,
) -> bool {
    match request_host(header) {
        None => r matches ProxyStep::Text(400, t) && t@ == "missing Host header"@,
        Some(host) => {
            let suffix = ctx.proxy_tld_suffix@;
            let service = without_suffix(host, suffix);
            if !has_suffix(host, suffix) {
                if ctx.blocklist.verdict(host).blocked {
                    r matches ProxyStep::Page(403, t) && t@ == blocked_page(host)
                } else {
                    r matches ProxyStep::Text(502, t) && t@ == "not a "@ + suffix + " domain: "@
                        + host
                }
            } else if ctx.services@.services.contains_key(lowercase(service)) {
                let s = ctx.services@.services[lowercase(service)];
                r matches ProxyStep::Forward(uri) && exists|port: u16, out: Seq<char>|
                    #[trigger] goes_to(s, path, port, out) && uri@ == target_uri(
                        service_host(s),
                        port,
                        out,
                        query,
                    )
            } else {
                match peer {
                    Some((ip, port)) => r matches ProxyStep::Forward(uri) && uri@ == target_uri(
                        ip,
                        port,
                        path,
                        query,
                    ),
                    None => r matches ProxyStep::Page(404, t) && t@ == unknown_page(service, suffix),
                }
            }
        },
    }
}

fn show_blocked(host: &str) -> (s: String)
    ensures
        s@ == blocked_page(host@),
{
    let mut body = concat3(BLOCKED_1, host, BLOCKED_2);
    body.append(host);
    body.append(BLOCKED_3);
    error_page(concat("Blocked \u{2014} ", host).as_str(), body.as_str())
}

fn show_unknown(service: &str, suffix: &str) -> (s: String)
    ensures
        s@ == unknown_page(service@, suffix@),
{
    let mut body = concat3(UNKNOWN_1, service, suffix);
    body.append(UNKNOWN_2);
    body.append(service);
    body.append(UNKNOWN_3);
    error_page(concat3("404 \u{2014} ", service, suffix).as_str(), body.as_str())
}

fn forward_to(entry: &ServiceEntry, path: &str, query: Option<&str>) -> (uri: String)
    ensures
        exists|port: u16, out: Seq<char>|
            #[trigger] goes_to(entry@, path@, port, out) && uri@ == target_uri(
                service_host(entry@),
                port,
                out,
                match query {
                    Some(q) => Some(q@),
                    None => None,
                },
            ),
{
    let (port, out) = entry.resolve_route(path);
    assert(goes_to(entry@, path@, port, out@));
    let host = match &entry.target_host {
        Some(h) => h.clone(),
        None => "localhost".to_owned(),
    };
    address(host.as_str(), port, out.as_str(), query)
}

/// Decides what is done with a request.
pub fn proxy_handler(
    ctx: &ServerCtx,
    header: Option<&str>,
    path: &str,
    query: Option<&str>,
    peer: Option<(&str, u16)>,
) -> (r: ProxyStep)
    requires
        ctx.wf(),
    ensures
        proxied(
            ctx,
            match header {
                Some(h) => Some(h@),
                None => None,
            },
            path@,
            match query {
                Some(q) => Some(q@),
                None => None,
            },
            match peer {
                Some((ip, port)) => Some((ip@, port)),
                None => None,
            },
            r,
        ),
{
    let host = match extract_host(header) {
        Some(h) => h,
        None => {
            return ProxyStep::Text(400, "missing Host header".to_owned());
        },
    };
    let suffix = ctx.proxy_tld_suffix.as_str();
    if !ends_with(host.as_str(), suffix) {
        if ctx.blocklist.is_blocked(host.as_str()) {
            return ProxyStep::Page(403, show_blocked(host.as_str()));
        }
        let mut t = concat3("not a ", suffix, " domain: ");
        t.append(host.as_str());
        return ProxyStep::Text(502, t);
    }
    let service = drop_suffix(host.as_str(), suffix);
    match ctx.services.lookup(service.as_str()) {
        Some(entry) => ProxyStep::Forward(forward_to(entry, path, query)),
        None => match peer {
            Some((ip, port)) => ProxyStep::Forward(address(ip, port, path, query)),
            None => ProxyStep::Page(404, show_unknown(service.as_str(), suffix)),
        },
    }
}

/// Whether the plain proxy takes a connection from a peer, or the status of the
/// refusal.
pub fn allow_from_guard(ctx: &ServerCtx, peer: crate::net::IpAddr) -> (r: Result<(), u16>)
    requires
        ctx.wf(),
    ensures
        r == (if ctx.allow_from.permits(peer) {
            Ok::<(), u16>(())
        } else {
            Err::<(), u16>(403)
        }),
{
    if ctx.allow_from.allows(peer) {
        Ok(())
    } else {
        Err(403)
    }
}

/// Only what is registered is forwarded to: a request goes on only where its host
/// is of the proxy's domain, and its service is registered here or at a peer.
pub proof fn only_registered_services_are_reached(
    ctx: &ServerCtx,
    header: Option<Seq<char>>,
    path: Seq<char>,
    query: Option<Seq<char>>,
    peer: Option<(Seq<char>, u16)>,
    r: ProxyStep,
)
    requires
        proxied(ctx, header, path, query, peer, r),
        r is Forward,
    ensures
        request_host(header) matches Some(host) && has_suffix(host, ctx.proxy_tld_suffix@) && (
        ctx.services@.services.contains_key(
            lowercase(without_suffix(host, ctx.proxy_tld_suffix@)),
        ) || peer is Some),
{
}

} // verus!
