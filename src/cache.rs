//! Lookup and storage calls for records: the data of a lookup call and the
//! request that stores a completed exchange.

use vstd::prelude::*;
use crate::headers::HeaderMap;
use crate::http_client::{pairs_view, post_header_list, route_of, HttpClient, PostRequest};
use crate::numbers::{decimal_of, decimal_string};
use crate::otel::{SpanBuilder, TracesData};

verus! {

/// A response recorded for an exchange.
#[derive(Debug, Clone)]
pub struct CacheResponse {
    pub status_code: u32,
    pub headers: Vec<(String, String)>,
    pub body: Vec<u8>,
}

/// The data of a lookup call.
#[derive(Debug)]
pub struct HttpCallData {
    pub method: String,
    pub path: String,
    pub authority: String,
    pub content_type: String,
    pub content_length: String,
    pub body: Vec<u8>,
}

impl HttpCallData {
    /// The pseudo-headers and headers of the call.
    pub fn headers_as_refs(&self) -> (r: Vec<(&str, &str)>)
        ensures
            r@.len() == 5,
            r@[0].0@ == ":method"@ && r@[0].1@ == self.method@,
            r@[1].0@ == ":path"@ && r@[1].1@ == self.path@,
            r@[2].0@ == ":authority"@ && r@[2].1@ == self.authority@,
            r@[3].0@ == "content-type"@ && r@[3].1@ == self.content_type@,
            r@[4].0@ == "content-length"@ && r@[4].1@ == self.content_length@,
    {
        let mut r: Vec<(&str, &str)> = Vec::new();
        r.push((":method", self.method.as_str()));
        r.push((":path", self.path.as_str()));
        r.push((":authority", self.authority.as_str()));
        r.push(("content-type", self.content_type.as_str()));
        r.push(("content-length", self.content_length.as_str()));
        r
    }
}

/// Why a lookup or storage call could not be made.
#[derive(Debug)]
pub enum CacheError {
    HttpError(String),
    SerializationError(String),
    TimeoutError,
    InvalidResponse,
}

impl CacheError {
    /// A description of the error.
    pub fn message(&self) -> (r: String)
        ensures
            r@ == (match self {
                CacheError::HttpError(m) => "HTTP error: "@ + m@,
                CacheError::SerializationError(m) => "Serialization error: "@ + m@,
                CacheError::TimeoutError => "Timeout error"@,
                CacheError::InvalidResponse => "Invalid response"@,
            }),
    {
        match self {
            CacheError::HttpError(m) => {
                let mut r = String::from_str("HTTP error: ");
                crate::text::push_str_chars(&mut r, m.as_str());
                r
            },
            CacheError::SerializationError(m) => {
                let mut r = String::from_str("Serialization error: ");
                crate::text::push_str_chars(&mut r, m.as_str());
                r
            },
            CacheError::TimeoutError => String::from_str("Timeout error"),
            CacheError::InvalidResponse => String::from_str("Invalid response"),
        }
    }
}

/// Builds lookup and storage calls for the records of one exchange.
pub struct CacheHandler {
    pub http_client: HttpClient,
    pub softprobe_endpoint: String,
    pub span_builder: SpanBuilder,
}

/// The headers of a storage call for an encoded record of `len` bytes.
pub open spec fn store_header_list(len: nat) -> Seq<(Seq<char>, Seq<char>)> {
    seq![("content-type"@, "application/x-protobuf"@), ("content-length"@, decimal_of(len))]
}

impl CacheHandler {
    /// A handler for the local backend, with ids made from `now_nanos`.
    pub fn new(now_nanos: u64) -> (r: CacheHandler)
        ensures
            r.softprobe_endpoint@ == "http://localhost:8080"@,
            r.span_builder.trace_id@ == crate::trace_context::trace_id_at(now_nanos),
            r.span_builder.current_span_id@ == crate::trace_context::span_id_at(now_nanos),
            r.span_builder.parent_span_id.is_none(),
            r.span_builder.service_name@ == "default-service"@,
            r.span_builder.traffic_direction@ == "outbound"@,
            r.span_builder.public_key@.len() == 0,
            r.span_builder.session_id@.len() == 0,
            !r.span_builder.prior_session,
    {
        CacheHandler {
            http_client: HttpClient::new(),
            softprobe_endpoint: String::from_str("http://localhost:8080"),
            span_builder: SpanBuilder::new(now_nanos),
        }
    }

    /// Resolves the trace context of the exchange from its request headers.
    pub fn with_context(self, headers: &HeaderMap, now_nanos: u64) -> (r: CacheHandler)
        ensures
            r.softprobe_endpoint == self.softprobe_endpoint,
            r.span_builder.trace_id@ == crate::otel::resolved_trace_id(
                headers@,
                self.span_builder.trace_id@,
                now_nanos,
            ),
            r.span_builder.parent_span_id.is_some() == (crate::otel::resolved_link(headers@).is_some()
                || self.span_builder.parent_span_id.is_some()),
            crate::otel::resolved_link(headers@).is_some() ==> r.span_builder.parent_span_id.unwrap()@
                == crate::otel::resolved_link(headers@).unwrap().1,
            crate::otel::resolved_link(headers@).is_none() ==> r.span_builder.parent_span_id
                == self.span_builder.parent_span_id,
            r.span_builder.session_id@ == (match crate::otel::request_session(headers@) {
                Some(sid) => sid,
                None => crate::trace_context::session_id_at(now_nanos),
            }),
            r.span_builder.prior_session == crate::otel::has_prior_session(headers@),
            r.span_builder.current_span_id == self.span_builder.current_span_id,
            r.span_builder.service_name == self.span_builder.service_name,
            r.span_builder.traffic_direction == self.span_builder.traffic_direction,
            r.span_builder.public_key == self.span_builder.public_key,
    {
        let CacheHandler { http_client, softprobe_endpoint, span_builder } = self;
        CacheHandler {
            http_client,
            softprobe_endpoint,
            span_builder: span_builder.with_context(headers, now_nanos),
        }
    }

    /// The record of a lookup for a request, stamped with `now_nanos`.
    pub fn lookup_record(&self, request_headers: &HeaderMap, request_body: &[u8], now_nanos: u64) -> (r:
        TracesData)
        requires
            request_body@.len() <= usize::MAX / 2,
        ensures
            r.spans@.len() == 1,
            r.spans@[0].trace_id@ == self.span_builder.trace_id@,
            r.spans@[0].span_id@ == self.span_builder.current_span_id@,
            r.spans@[0].parent_span_id@ == self.span_builder.parent_bytes(),
            r.spans@[0].name@ == crate::otel::record_name(None),
            r.spans@[0].kind == crate::otel::SpanKind::Client,
            r.spans@[0].start_time_unix_nano == now_nanos,
            r.spans@[0].end_time_unix_nano == now_nanos,
            r.spans@[0].status.is_none(),
            crate::otel::attrs_view(r.spans@[0].attributes@) == self.span_builder.inject_attrs(
                request_headers@,
                request_body@,
                None,
                None,
            ),
            crate::otel::attrs_view(r.resource_attributes@) == self.span_builder.resource_attrs(),
    {
        self.span_builder.create_inject_span(request_headers, request_body, None, None, now_nanos)
    }

    /// The data of a lookup call carrying an encoded record, or the encoding error.
    pub fn prepare_cache_lookup(&self, encoded: Result<Vec<u8>, String>) -> (r: Result<
        HttpCallData,
        CacheError,
    >)
        ensures
            match encoded {
                Ok(b) => r matches Ok(d) && d.method@ == "POST"@ && d.path@ == "/v1/inject"@
                    && d.authority@ == "host.docker.internal:8080"@ && d.content_type@
                    == "application/x-protobuf"@ && d.content_length@ == decimal_of(b@.len())
                    && d.body@ == b@,
                Err(e) => r matches Err(CacheError::SerializationError(m)) && m@ == e@,
            },
    {
        match encoded {
            Ok(body) => {
                let content_length = decimal_string(body.len() as u64);
                Ok(
                    HttpCallData {
                        method: String::from_str("POST"),
                        path: String::from_str("/v1/inject"),
                        authority: String::from_str("host.docker.internal:8080"),
                        content_type: String::from_str("application/x-protobuf"),
                        content_length,
                        body,
                    },
                )
            },
            Err(e) => Err(CacheError::SerializationError(e)),
        }
    }

    /// The record of a completed exchange, ending at `now_nanos`.
    pub fn store_record(
        &self,
        request_headers: &HeaderMap,
        request_body: &[u8],
        response_headers: &HeaderMap,
        response_body: &[u8],
        now_nanos: u64,
    ) -> (r: TracesData)
        requires
            request_body@.len() <= usize::MAX / 2,
            response_body@.len() <= usize::MAX / 2,
        ensures
            r.spans@.len() == 1,
            r.spans@[0].trace_id@ == self.span_builder.trace_id@,
            r.spans@[0].span_id@ == self.span_builder.current_span_id@,
            r.spans@[0].parent_span_id@ == self.span_builder.parent_bytes(),
            r.spans@[0].name@ == crate::otel::record_name(None),
            r.spans@[0].kind == crate::otel::SpanKind::Server,
            r.spans@[0].start_time_unix_nano == now_nanos,
            r.spans@[0].end_time_unix_nano == now_nanos,
            r.spans@[0].status.is_some(),
            r.spans@[0].status.unwrap().code == 1,
            r.spans@[0].status.unwrap().message@.len() == 0,
            crate::otel::attrs_view(r.resource_attributes@) == self.span_builder.resource_attrs(),
            crate::otel::attrs_view(r.spans@[0].attributes@) == self.span_builder.extract_attrs(
                request_headers@,
                request_body@,
                response_headers@,
                response_body@,
                None,
                None,
            ),
    {
        self.span_builder.create_extract_span(
            request_headers,
            request_body,
            response_headers,
            response_body,
            None,
            None,
            None,
            now_nanos,
        )
    }

    /// The request that stores an encoded record at the endpoint's
    /// `/v1/traces`, or why it cannot be made.
    pub fn store_cache_async(&self, encoded: Result<Vec<u8>, String>) -> (r: Result<
        PostRequest,
        CacheError,
    >)
        ensures
            match encoded {
                Err(e) => r matches Err(CacheError::SerializationError(m)) && m@ == e@,
                Ok(b) => match route_of(self.softprobe_endpoint@) {
                    Some((upstream, authority)) => r matches Ok(p) && p.upstream@ == upstream
                        && pairs_view(p.headers@) == post_header_list(
                        "/v1/traces"@,
                        authority,
                        store_header_list(b@.len()),
                    ) && p.body@ == b@,
                    None => r matches Err(CacheError::HttpError(_)),
                },
            },
    {
        match encoded {
            Err(e) => Err(CacheError::SerializationError(e)),
            Ok(body) => match self.http_client.route_for(self.softprobe_endpoint.as_str()) {
                Some((upstream, authority)) => {
                    let mut headers: Vec<(String, String)> = Vec::new();
                    headers.push(
                        (String::from_str("content-type"), String::from_str("application/x-protobuf")),
                    );
                    headers.push((String::from_str("content-length"), decimal_string(body.len() as u64)));
                    proof {
                        assert(pairs_view(headers@) =~= store_header_list(body@.len()));
                    }
                    let all = self.http_client.post_headers("/v1/traces", authority.as_str(), &headers);
                    Ok(PostRequest { upstream, headers: all, body })
                },
                None => Err(CacheError::HttpError(String::from_str("unsupported backend URL"))),
            },
        }
    }
}

} // verus!
