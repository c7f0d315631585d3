//! Outgoing calls to the backend: routing a backend URL to an upstream, the
//! request headers of a call, and the outcomes of a call.

use vstd::prelude::*;
use crate::codec::{lower_of, to_lower};
use crate::config::Config;
use crate::numbers::{decimal_of, decimal_string};
use crate::text::{has_prefix, starts_with_str, str_eq};
use crate::urls::{backend_authority, backend_cluster_name, get_backend_authority, get_backend_cluster_name};

verus! {

/// The status that the host returns when it refuses a call.
#[verifier::external_type_specification]
#[verifier::external_body]
pub struct ExStatus(proxy_wasm::types::Status);

/// A response to a call.
#[derive(Debug, Clone)]
pub struct HttpResponse {
    pub status_code: u32,
    pub headers: Vec<(String, String)>,
    pub body: Vec<u8>,
}

/// Why a call failed.
#[derive(Debug)]
pub enum HttpError {
    DispatchError(proxy_wasm::types::Status),
    TimeoutError,
    ParseError(String),
}

/// A request to send to an upstream.
pub struct PostRequest {
    pub upstream: String,
    pub headers: Vec<(String, String)>,
    pub body: Vec<u8>,
}

/// Views of header pairs.
pub open spec fn pairs_view(v: Seq<(String, String)>) -> Seq<(Seq<char>, Seq<char>)> {
    v.map_values(|h: (String, String)| (h.0@, h.1@))
}

/// The upstream and authority of a backend URL that calls can reach.
pub open spec fn route_of(url: Seq<char>) -> Option<(Seq<char>, Seq<char>)> {
    if has_prefix(url, "https://httpbin.org"@) {
        Some(("httpbin"@, "httpbin.org"@))
    } else if has_prefix(url, "http://localhost:8080"@) {
        Some(("local_backend"@, "host.docker.internal:8080"@))
    } else {
        None
    }
}

/// `hs` without its Host headers, in any case.
pub open spec fn without_host(hs: Seq<(Seq<char>, Seq<char>)>) -> Seq<(Seq<char>, Seq<char>)>
    decreases hs.len(),
{
    if hs.len() == 0 {
        hs
    } else if lower_of(hs.last().0) == "host"@ {
        without_host(hs.drop_last())
    } else {
        without_host(hs.drop_last()).push(hs.last())
    }
}

/// The headers of a POST to `path` at `authority` with the given headers.
pub open spec fn post_header_list(path: Seq<char>, authority: Seq<char>, hs: Seq<(Seq<char>, Seq<char>)>) -> Seq<(Seq<char>, Seq<char>)> {
    seq![(":method"@, "POST"@), (":path"@, path), (":authority"@, authority)] + without_host(hs)
}

fn push_pair(v: &mut Vec<(String, String)>, k: &str, val: &str)
    ensures
        pairs_view(final(v)@) == pairs_view(old(v)@).push((k@, val@)),
{
    v.push((String::from_str(k), String::from_str(val)));
    proof {
        assert(pairs_view(v@) =~= pairs_view(old(v)@).push((k@, val@)));
    }
}

/// Calls to the backend.
pub struct HttpClient;

impl HttpClient {
    /// A client.
    pub fn new() -> (r: HttpClient) {
        HttpClient
    }

    /// The upstream and authority that a backend URL routes to.
    pub fn route_for(&self, url: &str) -> (r: Option<(String, String)>)
        ensures
            match r {
                Some(p) => route_of(url@) == Some((p.0@, p.1@)),
                None => route_of(url@).is_none(),
            },
    {
        if starts_with_str(url, "https://httpbin.org") {
            Some((String::from_str("httpbin"), String::from_str("httpbin.org")))
        } else if starts_with_str(url, "http://localhost:8080") {
            Some((String::from_str("local_backend"), String::from_str("host.docker.internal:8080")))
        } else {
            None
        }
    }

    /// The headers of a POST: method, path and authority first, then the given
    /// headers but any Host header.
    pub fn post_headers(&self, path: &str, authority: &str, headers: &Vec<(String, String)>) -> (r: Vec<
        (String, String),
    >)
        ensures
            pairs_view(r@) == post_header_list(path@, authority@, pairs_view(headers@)),
    {
        let mut r: Vec<(String, String)> = Vec::new();
        push_pair(&mut r, ":method", "POST");
        push_pair(&mut r, ":path", path);
        push_pair(&mut r, ":authority", authority);
        let ghost head = pairs_view(r@);
        let ghost hv = pairs_view(headers@);
        let mut i: usize = 0;
        while i < headers.len()
            invariant
                i <= headers@.len(),
                hv == pairs_view(headers@),
                head == seq![(":method"@, "POST"@), (":path"@, path@), (":authority"@, authority@)],
                pairs_view(r@) == head + without_host(hv.take(i as int)),
            decreases headers@.len() - i,
        {
            proof {
                assert(hv.take(i + 1).drop_last() =~= hv.take(i as int));
                assert(hv.take(i + 1).last() == (headers@[i as int].0@, headers@[i as int].1@));
            }
            let lower = to_lower(headers[i].0.as_str());
            if !str_eq(lower.as_str(), "host") {
                let ghost prev = r@;
                r.push((headers[i].0.clone(), headers[i].1.clone()));
                proof {
                    assert(pairs_view(r@) =~= pairs_view(prev).push(
                        (headers@[i as int].0@, headers@[i as int].1@),
                    ));
                }
            }
            i = i + 1;
            proof {
                assert(pairs_view(r@) =~= head + without_host(hv.take(i as int)));
            }
        }
        proof {
            assert(hv.take(headers@.len() as int) =~= hv);
        }
        r
    }

    /// Synchronous calls cannot be made from the proxy: always a parse error.
    pub fn post_sync(&self, _url: &str, _headers: Vec<(String, String)>, _body: Vec<u8>) -> (r: Result<
        HttpResponse,
        HttpError,
    >)
        ensures
            match r {
                Err(HttpError::ParseError(m)) => m@ == "Synchronous calls not supported in WASM"@,
                _ => false,
            },
    {
        Err(HttpError::ParseError(String::from_str("Synchronous calls not supported in WASM")))
    }
}

/// The call that stores a completed exchange's record.
pub struct SaveCall {
    /// The cluster that routes to the backend.
    pub cluster: String,
    pub headers: Vec<(String, String)>,
}

/// The headers of a save call for a record of `len` bytes.
pub open spec fn save_header_list(cfg: Config, len: nat) -> Seq<(Seq<char>, Seq<char>)> {
    seq![
        (":method"@, "POST"@),
        (":path"@, "/v1/traces"@),
        (":authority"@, backend_authority(cfg.sp_backend_url@)),
        ("content-type"@, "application/x-protobuf"@),
        ("content-length"@, decimal_of(len)),
        ("x-api-key"@, cfg.api_key@),
    ]
}

/// The save call for an encoded record of `body_len` bytes.
pub fn save_call(config: &Config, body_len: usize) -> (r: SaveCall)
    ensures
        r.cluster@ == backend_cluster_name(config.sp_backend_url@),
        pairs_view(r.headers@) == save_header_list(*config, body_len as nat),
{
    let authority = get_backend_authority(config.sp_backend_url.as_str());
    let length = decimal_string(body_len as u64);
    let mut headers: Vec<(String, String)> = Vec::new();
    push_pair(&mut headers, ":method", "POST");
    push_pair(&mut headers, ":path", "/v1/traces");
    push_pair(&mut headers, ":authority", authority.as_str());
    push_pair(&mut headers, "content-type", "application/x-protobuf");
    push_pair(&mut headers, "content-length", length.as_str());
    push_pair(&mut headers, "x-api-key", config.api_key.as_str());
    proof {
        assert(pairs_view(headers@) =~= save_header_list(*config, body_len as nat));
    }
    SaveCall { cluster: get_backend_cluster_name(config.sp_backend_url.as_str()), headers }
}

} // verus!
