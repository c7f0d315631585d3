//! URL-derived values: the client host and path of a request, and the backend
//! authority and cluster name.

use vstd::prelude::*;
use crate::headers::{lookup, opt_view, HeaderMap};
use crate::numbers::{decimal_of, push_decimal};
use crate::text::{push_str_chars, str_eq};

verus! {

/// The parts of a parsed URL that the rules read.
pub struct UrlParts {
    pub scheme: String,
    pub host: Option<String>,
    pub port: Option<u16>,
    pub path: String,
}

/// Scheme, host, explicit non-default port and path of a parsed URL.
pub open spec fn url_parts_view(u: UrlParts) -> (Seq<char>, Option<Seq<char>>, Option<u16>, Seq<char>) {
    (u.scheme@, opt_view(u.host), u.port, u.path@)
}

/// The scheme, host, port and path of a URL, or `None` when it does not parse.
pub uninterp spec fn url_parsed(s: Seq<char>) -> Option<(Seq<char>, Option<Seq<char>>, Option<u16>, Seq<char>)>;

/// Relies on url's `Url::parse` and the accessors `scheme`, `host_str`, `port`
/// and `path` of what it returns; the result depends on the text alone.
#[verifier::external_body]
pub(crate) fn parse_url(s: &str) -> (r: Option<UrlParts>)
    ensures
        match r {
            Some(u) => url_parsed(s@) == Some(url_parts_view(u)),
            None => url_parsed(s@).is_none(),
        },
{
    match url::Url::parse(s) {
        Ok(u) => Some(UrlParts {
            scheme: u.scheme().to_string(),
            host: u.host_str().map(|h| h.to_string()),
            port: u.port(),
            path: u.path().to_string(),
        }),
        Err(_) => None,
    }
}

/// The host of a URL, when it parses and has one.
pub open spec fn url_host(s: Seq<char>) -> Option<Seq<char>> {
    match url_parsed(s) {
        Some(u) => u.1,
        None => None,
    }
}

/// The client host and client path of a request: from the Referer URL, else
/// the host of the Origin URL, else the host of the Host header read as a
/// URL, else the Host or `:authority` header as is; the path from the
/// Referer URL, else the `:path` header.
pub open spec fn client_info(hs: Seq<(Seq<char>, Seq<char>)>) -> (Option<Seq<char>>, Option<Seq<char>>) {
    let (referer_host, referer_path) = match lookup(hs, "referer"@) {
        Some(r) => match url_parsed(r) {
            Some(u) => (u.1, Some(u.3)),
            None => (None, None),
        },
        None => (None, None),
    };
    let origin_host = if referer_host.is_none() {
        match lookup(hs, "origin"@) {
            Some(o) => url_host(o),
            None => None,
        }
    } else {
        referer_host
    };
    let host_url_host = if origin_host.is_none() {
        match lookup(hs, "host"@) {
            Some(h) => url_host("http://"@ + h),
            None => None,
        }
    } else {
        origin_host
    };
    let host = if host_url_host.is_none() {
        match lookup(hs, "host"@) {
            Some(h) => Some(h),
            None => lookup(hs, ":authority"@),
        }
    } else {
        host_url_host
    };
    let path = if referer_path.is_none() {
        lookup(hs, ":path"@)
    } else {
        referer_path
    };
    (host, path)
}

fn host_of_url(s: &str) -> (r: Option<String>)
    ensures
        opt_view(r) == url_host(s@),
{
    match parse_url(s) {
        Some(u) => u.host,
        None => None,
    }
}

/// Extracts the client host and path of a request from its headers.
pub fn extract_client_info(request_headers: &HeaderMap) -> (r: (Option<String>, Option<String>))
    ensures
        (opt_view(r.0), opt_view(r.1)) == client_info(request_headers@),
{
    let mut client_host: Option<String> = None;
    let mut client_path: Option<String> = None;
    match request_headers.get("referer") {
        Some(referer) => match parse_url(referer.as_str()) {
            Some(u) => {
                client_host = u.host;
                client_path = Some(u.path);
            },
            None => {},
        },
        None => {},
    }
    if client_host.is_none() {
        match request_headers.get("origin") {
            Some(origin) => {
                client_host = host_of_url(origin.as_str());
            },
            None => {},
        }
    }
    if client_host.is_none() {
        match request_headers.get("host") {
            Some(host) => {
                let mut full = String::from_str("http://");
                push_str_chars(&mut full, host.as_str());
                proof {
                    reveal_strlit("http://");
                }
                client_host = host_of_url(full.as_str());
            },
            None => {},
        }
    }
    if client_host.is_none() {
        client_host = match request_headers.get("host") {
            Some(h) => Some(h),
            None => request_headers.get(":authority"),
        };
    }
    if client_path.is_none() {
        client_path = request_headers.get(":path");
    }
    (client_host, client_path)
}

/// The backend used when the configured URL has no host.
pub open spec fn fallback_backend_host() -> Seq<char> {
    "o.softprobe.ai"@
}

/// The default port of a scheme: 443 for `https`, else 80.
pub open spec fn default_port(scheme: Seq<char>) -> u16 {
    if scheme == "https"@ {
        443
    } else {
        80
    }
}

/// The authority of the backend: host, with the port when it is explicit and
/// not the scheme's default.
pub open spec fn backend_authority(url: Seq<char>) -> Seq<char> {
    match url_parsed(url) {
        Some((scheme, Some(host), port, _)) => match port {
            Some(p) => if p == default_port(scheme) {
                host
            } else {
                host + seq![':'] + decimal_of(p as nat)
            },
            None => host,
        },
        _ => fallback_backend_host(),
    }
}

/// The cluster name that routes to the backend: `outbound|<port>||<host>`.
pub open spec fn backend_cluster_name(url: Seq<char>) -> Seq<char> {
    match url_parsed(url) {
        Some((scheme, Some(host), port, _)) => "outbound|"@ + decimal_of(
            (match port {
                Some(p) => p,
                None => default_port(scheme),
            }) as nat,
        ) + "||"@ + host,
        _ => "outbound|443||"@ + fallback_backend_host(),
    }
}

fn default_port_of(scheme: &str) -> (r: u16)
    ensures
        r == default_port(scheme@),
{
    if str_eq(scheme, "https") {
        443
    } else {
        80
    }
}

/// The authority of the backend at `backend_url`.
pub fn get_backend_authority(backend_url: &str) -> (r: String)
    ensures
        r@ == backend_authority(backend_url@),
{
    match parse_url(backend_url) {
        Some(u) => match u.host {
            Some(host) => match u.port {
                Some(port) => {
                    if port == default_port_of(u.scheme.as_str()) {
                        host
                    } else {
                        let mut r = host.clone();
                        r.push(':');
                        push_decimal(&mut r, port as u64);
                        proof {
                            assert(r@ =~= host@ + seq![':'] + decimal_of(port as nat));
                        }
                        r
                    }
                },
                None => host,
            },
            None => String::from_str("o.softprobe.ai"),
        },
        None => String::from_str("o.softprobe.ai"),
    }
}

/// The cluster name that routes to the backend at `backend_url`.
pub fn get_backend_cluster_name(backend_url: &str) -> (r: String)
    ensures
        r@ == backend_cluster_name(backend_url@),
{
    match parse_url(backend_url) {
        Some(u) => match u.host {
            Some(host) => {
                let port = match u.port {
                    Some(p) => p,
                    None => default_port_of(u.scheme.as_str()),
                };
                let mut r = String::from_str("outbound|");
                push_decimal(&mut r, port as u64);
                push_str_chars(&mut r, "||");
                push_str_chars(&mut r, host.as_str());
                r
            },
            None => {
                let mut r = String::from_str("outbound|443||");
                push_str_chars(&mut r, "o.softprobe.ai");
                r
            },
        },
        None => {
            let mut r = String::from_str("outbound|443||");
            push_str_chars(&mut r, "o.softprobe.ai");
            r
        },
    }
}

/// The path and host of a request for its record: the host's path property
/// when not empty, else the `:path` header; the `:authority` header, else the
/// Host header, when not empty.
pub open spec fn url_info(path_property: Option<Seq<char>>, hs: Seq<(Seq<char>, Seq<char>)>) -> (Option<Seq<char>>, Option<Seq<char>>) {
    let path = match path_property {
        Some(p) if p.len() > 0 => Some(p),
        _ => lookup(hs, ":path"@),
    };
    let authority = match lookup(hs, ":authority"@) {
        Some(a) => Some(a),
        None => lookup(hs, "host"@),
    };
    let host = match authority {
        Some(a) if a.len() > 0 => Some(a),
        _ => None,
    };
    (path, host)
}

/// Resolves the path and host of a request for its record.
pub fn resolve_url_info(path_property: Option<String>, request_headers: &HeaderMap) -> (r: (Option<String>, Option<String>))
    ensures
        (opt_view(r.0), opt_view(r.1)) == url_info(opt_view(path_property), request_headers@),
{
    let path = match path_property {
        Some(p) => {
            if p.as_str().is_empty() {
                request_headers.get(":path")
            } else {
                Some(p)
            }
        },
        None => request_headers.get(":path"),
    };
    let authority = match request_headers.get(":authority") {
        Some(a) => Some(a),
        None => request_headers.get("host"),
    };
    let host = match authority {
        Some(a) => {
            if a.as_str().is_empty() {
                None
            } else {
                Some(a)
            }
        },
        None => None,
    };
    (path, host)
}

} // verus!
