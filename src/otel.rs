//! Trace records: the span builder that resolves the trace context of an
//! exchange and assembles the attribute-rich record describing it.

use vstd::prelude::*;
use crate::codec::{base64_encode, base64_of, lower_of, to_lower, utf8_lossy, utf8_lossy_of};
use crate::headers::{
    carrier_entries_in, carrier_entries_of, lookup, opt_view, session_entry_prefix,
    trace_entry_prefix, HeaderMap,
};
use crate::numbers::{parse_i64, parsed_i64};
use crate::text::{
    chars_of, has_prefix, push_str_chars, split_on, starts_with_chars, starts_with_str, str_eq,
    string_of_range, views,
};
use crate::trace_context::{
    format_traceparent, generate_session_id, generate_span_id, generate_trace_id, hex_encode,
    hex_of, opt_pair_view, parse_traceparent_value, parsed_traceparent, session_id_at,
    span_id_at, trace_id_at, traceparent_of, well_formed_traceparent, lemma_traceparent_round_trip,
    lower_hex,
};

verus! {

/// An attribute value.
#[derive(Debug, Clone)]
pub enum AttrValue {
    Str(String),
    Int(i64),
}

/// The mathematical value of an attribute.
pub enum AttrModel {
    Str(Seq<char>),
    Int(i64),
}

impl View for AttrValue {
    type V = AttrModel;

    open spec fn view(&self) -> AttrModel {
        match self {
            AttrValue::Str(s) => AttrModel::Str(s@),
            AttrValue::Int(n) => AttrModel::Int(*n),
        }
    }
}

/// A keyed attribute of a record.
#[derive(Debug, Clone)]
pub struct KeyValue {
    pub key: String,
    pub value: AttrValue,
}

impl View for KeyValue {
    type V = (Seq<char>, AttrModel);

    open spec fn view(&self) -> (Seq<char>, AttrModel) {
        (self.key@, self.value@)
    }
}

/// The views of a list of attributes.
pub open spec fn attrs_view(a: Seq<KeyValue>) -> Seq<(Seq<char>, AttrModel)> {
    a.map_values(|kv: KeyValue| kv@)
}

/// A string attribute.
pub open spec fn str_attr(k: Seq<char>, v: Seq<char>) -> (Seq<char>, AttrModel) {
    (k, AttrModel::Str(v))
}

/// Whether a record describes a lookup before proxying or a completed exchange.
#[derive(PartialEq, Eq, Structural, Clone, Copy, Debug)]
pub enum SpanKind {
    /// A lookup issued before the exchange is proxied.
    Client,
    /// A completed exchange.
    Server,
}

/// The status of a completed exchange's record.
#[derive(Debug, Clone)]
pub struct SpanStatus {
    pub code: i32,
    pub message: String,
}

/// One record: a span with its ids, timing and attributes.
#[derive(Debug, Clone)]
pub struct Span {
    pub trace_id: Vec<u8>,
    pub span_id: Vec<u8>,
    pub parent_span_id: Vec<u8>,
    pub name: String,
    pub kind: SpanKind,
    pub start_time_unix_nano: u64,
    pub end_time_unix_nano: u64,
    pub attributes: Vec<KeyValue>,
    pub status: Option<SpanStatus>,
}

/// Records with the attributes of the resource that produced them.
#[derive(Debug, Clone)]
pub struct TracesData {
    pub resource_attributes: Vec<KeyValue>,
    pub spans: Vec<Span>,
}

/// Header names whose values never become attributes.
pub open spec fn skipped_header_names() -> Seq<Seq<char>> {
    seq![
        "authorization"@,
        "cookie"@,
        "set-cookie"@,
        "x-public-key"@,
        "x-auth-token"@,
        "bearer"@,
        "proxy-authorization"@,
    ]
}

/// Whether a header stays out of the record.
pub open spec fn is_skipped_header(k: Seq<char>) -> bool {
    skipped_header_names().contains(lower_of(k))
}

/// One string attribute `prefix + lower-case name` for each header that is not skipped.
pub open spec fn header_attrs(prefix: Seq<char>, hs: Seq<(Seq<char>, Seq<char>)>) -> Seq<
    (Seq<char>, AttrModel),
>
    decreases hs.len(),
{
    if hs.len() == 0 {
        Seq::empty()
    } else if is_skipped_header(hs.last().0) {
        header_attrs(prefix, hs.drop_last())
    } else {
        header_attrs(prefix, hs.drop_last()).push(
            str_attr(prefix + lower_of(hs.last().0), hs.last().1),
        )
    }
}

/// Optional string values.
pub open spec fn opt_str_view(o: Option<&str>) -> Option<Seq<char>> {
    match o {
        Some(s) => Some(s@),
        None => None,
    }
}

/// The `url.path` then `url.host` attributes, for those that are known.
pub open spec fn url_attrs(host: Option<Seq<char>>, path: Option<Seq<char>>) -> Seq<
    (Seq<char>, AttrModel),
> {
    (match path {
        Some(p) => seq![str_attr("url.path"@, p)],
        None => Seq::empty(),
    }) + (match host {
        Some(h) => seq![str_attr("url.host"@, h)],
        None => Seq::empty(),
    })
}

/// Whether the content type among `hs` names text, JSON, XML or form data.
pub open spec fn text_content(hs: Seq<(Seq<char>, Seq<char>)>) -> bool {
    match lookup(hs, "content-type"@) {
        Some(ct) => has_prefix(ct, "text/"@) || has_prefix(ct, "application/json"@) || has_prefix(
            ct,
            "application/xml"@,
        ) || has_prefix(ct, "application/x-www-form-urlencoded"@),
        None => false,
    }
}

/// The attribute text of a body: as text for text content, else base64.
pub open spec fn body_text(hs: Seq<(Seq<char>, Seq<char>)>, body: Seq<u8>) -> Seq<char> {
    if text_content(hs) {
        utf8_lossy_of(body)
    } else {
        base64_of(body)
    }
}

/// The body attribute under `key`, for a body that is not empty.
pub open spec fn body_attrs(key: Seq<char>, hs: Seq<(Seq<char>, Seq<char>)>, body: Seq<u8>) -> Seq<
    (Seq<char>, AttrModel),
> {
    if body.len() > 0 {
        seq![str_attr(key, body_text(hs, body))]
    } else {
        Seq::empty()
    }
}

/// The response status code attribute, when the `:status` header is an integer.
pub open spec fn status_attrs(hs: Seq<(Seq<char>, Seq<char>)>) -> Seq<(Seq<char>, AttrModel)> {
    match lookup(hs, ":status"@) {
        Some(st) => match parsed_i64(st) {
            Some(n) => seq![("http.response.status_code"@, AttrModel::Int(n))],
            None => Seq::empty(),
        },
        None => Seq::empty(),
    }
}

/// The session attribute, when a session id is set.
pub open spec fn session_attrs(session: Seq<char>) -> Seq<(Seq<char>, AttrModel)> {
    if session.len() > 0 {
        seq![str_attr("sp.session.id"@, session)]
    } else {
        Seq::empty()
    }
}

/// The pass-through key attribute, when a key is set.
pub open spec fn key_attrs(key: Seq<char>) -> Seq<(Seq<char>, AttrModel)> {
    if key.len() > 0 {
        seq![str_attr("sp.public.key"@, key)]
    } else {
        Seq::empty()
    }
}

/// The service name of a record: the builder's, or the default when empty.
pub open spec fn record_service_name(name: Seq<char>) -> Seq<char> {
    if name.len() > 0 {
        name
    } else {
        "default-service"@
    }
}

/// The record name: the request path, when known.
pub open spec fn record_name(path: Option<Seq<char>>) -> Seq<char> {
    match path {
        Some(p) => p,
        None => "unknown_path"@,
    }
}

/// Builds the trace record of one hop and holds its resolved trace context.
#[derive(Debug, Clone)]
pub struct SpanBuilder {
    pub trace_id: Vec<u8>,
    pub parent_span_id: Option<Vec<u8>>,
    pub current_span_id: Vec<u8>,
    pub service_name: String,
    pub traffic_direction: String,
    pub public_key: String,
    pub session_id: String,
    /// Whether the request carried a session id that is not empty.
    pub prior_session: bool,
}

/// The first private trace entry among `es` whose value parses.
pub open spec fn embedded_link(es: Seq<Seq<char>>) -> Option<(Seq<u8>, Seq<u8>)>
    decreases es.len(),
{
    if es.len() == 0 {
        None
    } else if has_prefix(es[0], trace_entry_prefix()) && parsed_traceparent(
        es[0].skip(trace_entry_prefix().len() as int),
    ).is_some() {
        parsed_traceparent(es[0].skip(trace_entry_prefix().len() as int))
    } else {
        embedded_link(es.drop_first())
    }
}

/// The value of the first private session entry among `es`.
pub open spec fn entry_session(es: Seq<Seq<char>>) -> Option<Seq<char>>
    decreases es.len(),
{
    if es.len() == 0 {
        None
    } else if has_prefix(es[0], session_entry_prefix()) {
        Some(es[0].skip(session_entry_prefix().len() as int))
    } else {
        entry_session(es.drop_first())
    }
}

/// The upstream trace id and span id: from the embedded private entry, else
/// from the single-value carrier header.
pub open spec fn resolved_link(hs: Seq<(Seq<char>, Seq<char>)>) -> Option<(Seq<u8>, Seq<u8>)> {
    match embedded_link(carrier_entries_of(hs)) {
        Some(l) => Some(l),
        None => match lookup(hs, "traceparent"@) {
            Some(v) => parsed_traceparent(v),
            None => None,
        },
    }
}

/// The session id header among the ones consulted, in order.
pub open spec fn header_session(hs: Seq<(Seq<char>, Seq<char>)>) -> Option<Seq<char>> {
    match lookup(hs, "x-sp-session-id"@) {
        Some(v) => Some(v),
        None => match lookup(hs, "sp_session_id"@) {
            Some(v) => Some(v),
            None => lookup(hs, "x-session-id"@),
        },
    }
}

/// The session id that the request carries: the first session header present,
/// taken as it is, else the private session entry of the carrier header when
/// it is not empty.
pub open spec fn request_session(hs: Seq<(Seq<char>, Seq<char>)>) -> Option<Seq<char>> {
    match header_session(hs) {
        Some(v) => Some(v),
        None => match entry_session(carrier_entries_of(hs)) {
            Some(v) if v.len() > 0 => Some(v),
            _ => None,
        },
    }
}

/// Whether the request carries a session id that is not empty.
pub open spec fn has_prior_session(hs: Seq<(Seq<char>, Seq<char>)>) -> bool {
    request_session(hs).is_some() && request_session(hs).unwrap().len() > 0
}

/// The trace id after resolution: the upstream one, else the one held before
/// when it is not empty, else one made from the timestamp.
pub open spec fn resolved_trace_id(hs: Seq<(Seq<char>, Seq<char>)>, held: Seq<u8>, now_nanos: u64) -> Seq<u8> {
    match resolved_link(hs) {
        Some(l) => l.0,
        _ => if held.len() > 0 {
            held
        } else {
            trace_id_at(now_nanos)
        },
    }
}

/// When the upstream link comes from a well-formed value (embedded or single
/// value), the resolved trace id is its trace id, and encoding it with this
/// hop's span id gives a well-formed value that parses back to both ids, whose
/// trace id field is the value's trace id digits in lower case.
pub proof fn lemma_resolved_context_reencodes(
    hs: Seq<(Seq<char>, Seq<char>)>,
    held: Seq<u8>,
    now_nanos: u64,
    v: Seq<char>,
    span: Seq<u8>,
)
    requires
        resolved_link(hs) == parsed_traceparent(v),
        well_formed_traceparent(v),
        span.len() == 8,
    ensures
        resolved_trace_id(hs, held, now_nanos) == parsed_traceparent(v).unwrap().0,
        well_formed_traceparent(traceparent_of(resolved_trace_id(hs, held, now_nanos), span)),
        parsed_traceparent(traceparent_of(resolved_trace_id(hs, held, now_nanos), span)) == Some(
            (resolved_trace_id(hs, held, now_nanos), span),
        ),
        split_on(traceparent_of(resolved_trace_id(hs, held, now_nanos), span), '-') == seq![
            seq!['0', '0'],
            lower_hex(split_on(v, '-')[1]),
            hex_of(span),
            seq!['0', '1'],
        ],
{
    lemma_traceparent_round_trip(v, span);
}

fn embedded_link_in(es: &Vec<Vec<char>>) -> (r: Option<(Vec<u8>, Vec<u8>)>)
    ensures
        opt_pair_view(r) == embedded_link(views(es@)),
{
    let prefix = chars_of("x-sp-traceparent=");
    let mut i: usize = 0;
    proof {
        assert(views(es@).skip(0) =~= views(es@));
    }
    while i < es.len()
        invariant
            i <= es@.len(),
            prefix@ == trace_entry_prefix(),
            embedded_link(views(es@)) == embedded_link(views(es@).skip(i as int)),
        decreases es@.len() - i,
    {
        let e = &es[i];
        proof {
            assert(views(es@).skip(i as int)[0] == e@);
            assert(views(es@).skip(i as int).drop_first() =~= views(es@).skip(i + 1));
        }
        if starts_with_chars(e, &prefix) {
            let value = string_of_range(e, prefix.len(), e.len());
            proof {
                assert(value@ =~= e@.skip(trace_entry_prefix().len() as int));
            }
            let parsed = parse_traceparent_value(value.as_str());
            if parsed.is_some() {
                return parsed;
            }
        }
        i = i + 1;
    }
    None
}

fn entry_session_in(es: &Vec<Vec<char>>) -> (r: Option<String>)
    ensures
        opt_view(r) == entry_session(views(es@)),
{
    let prefix = chars_of("x-sp-session-id=");
    let mut i: usize = 0;
    proof {
        assert(views(es@).skip(0) =~= views(es@));
    }
    while i < es.len()
        invariant
            i <= es@.len(),
            prefix@ == session_entry_prefix(),
            entry_session(views(es@)) == entry_session(views(es@).skip(i as int)),
        decreases es@.len() - i,
    {
        let e = &es[i];
        proof {
            assert(views(es@).skip(i as int)[0] == e@);
            assert(views(es@).skip(i as int).drop_first() =~= views(es@).skip(i + 1));
        }
        if starts_with_chars(e, &prefix) {
            let value = string_of_range(e, prefix.len(), e.len());
            proof {
                assert(value@ =~= e@.skip(session_entry_prefix().len() as int));
            }
            return Some(value);
        }
        i = i + 1;
    }
    None
}

/// Reads the upstream trace link from the carrier headers.
pub fn resolve_link(headers: &HeaderMap) -> (r: Option<(Vec<u8>, Vec<u8>)>)
    ensures
        opt_pair_view(r) == resolved_link(headers@),
{
    let es = carrier_entries_in(headers);
    match embedded_link_in(&es) {
        Some(l) => Some(l),
        None => match headers.get("traceparent") {
            Some(v) => parse_traceparent_value(v.as_str()),
            None => None,
        },
    }
}

/// Reads the session id that the request carries.
pub fn resolve_request_session(headers: &HeaderMap) -> (r: Option<String>)
    ensures
        opt_view(r) == request_session(headers@),
{
    let h = match headers.get("x-sp-session-id") {
        Some(v) => Some(v),
        None => match headers.get("sp_session_id") {
            Some(v) => Some(v),
            None => headers.get("x-session-id"),
        },
    };
    if h.is_some() {
        return h;
    }
    let es = carrier_entries_in(headers);
    match entry_session_in(&es) {
        Some(v) => {
            if v.as_str().is_empty() {
                None
            } else {
                Some(v)
            }
        },
        None => None,
    }
}

fn push_str_attr(attrs: &mut Vec<KeyValue>, key: &str, value: String)
    ensures
        attrs_view(final(attrs)@) == attrs_view(old(attrs)@).push(str_attr(key@, value@)),
{
    attrs.push(KeyValue { key: String::from_str(key), value: AttrValue::Str(value) });
    proof {
        assert(attrs_view(attrs@) =~= attrs_view(old(attrs)@).push(str_attr(key@, value@)));
    }
}

fn service_name_or_default(name: &String) -> (r: String)
    ensures
        r@ == record_service_name(name@),
{
    if name.as_str().is_empty() {
        String::from_str("default-service")
    } else {
        name.clone()
    }
}

fn name_or_unknown(path: Option<&str>) -> (r: String)
    ensures
        r@ == record_name(opt_str_view(path)),
{
    match path {
        Some(p) => String::from_str(p),
        None => String::from_str("unknown_path"),
    }
}

/// Whether a header stays out of the record: its lower-case name is one of
/// the credential-bearing headers.
pub fn should_skip_header(key: &str) -> (r: bool)
    ensures
        r == is_skipped_header(key@),
{
    let lower = to_lower(key);
    let l = lower.as_str();
    let r = str_eq(l, "authorization") || str_eq(l, "cookie") || str_eq(l, "set-cookie") || str_eq(
        l,
        "x-public-key",
    ) || str_eq(l, "x-auth-token") || str_eq(l, "bearer") || str_eq(l, "proxy-authorization");
    proof {
        let names = skipped_header_names();
        if r {
            if l@ == "authorization"@ { assert(names[0] == l@); }
            if l@ == "cookie"@ { assert(names[1] == l@); }
            if l@ == "set-cookie"@ { assert(names[2] == l@); }
            if l@ == "x-public-key"@ { assert(names[3] == l@); }
            if l@ == "x-auth-token"@ { assert(names[4] == l@); }
            if l@ == "bearer"@ { assert(names[5] == l@); }
            if l@ == "proxy-authorization"@ { assert(names[6] == l@); }
        } else {
            assert forall|i: int| 0 <= i < names.len() implies names[i] != l@ by {}
        }
    }
    r
}

/// Whether the content type among `headers` names text, JSON, XML or form data.
pub fn is_text_content(headers: &HeaderMap) -> (r: bool)
    ensures
        r == text_content(headers@),
{
    match headers.get("content-type") {
        Some(ct) => {
            let c = ct.as_str();
            starts_with_str(c, "text/") || starts_with_str(c, "application/json")
                || starts_with_str(c, "application/xml") || starts_with_str(
                c,
                "application/x-www-form-urlencoded",
            )
        },
        None => false,
    }
}

fn push_header_attrs(attrs: &mut Vec<KeyValue>, prefix: &str, headers: &HeaderMap)
    ensures
        attrs_view(final(attrs)@) == attrs_view(old(attrs)@) + header_attrs(prefix@, headers@),
{
    let mut i: usize = 0;
    while i < headers.len()
        invariant
            i <= headers@.len(),
            attrs_view(attrs@) == attrs_view(old(attrs)@) + header_attrs(
                prefix@,
                headers@.take(i as int),
            ),
        decreases headers@.len() - i,
    {
        proof {
            assert(headers@.take(i + 1).drop_last() =~= headers@.take(i as int));
            assert(headers@.take(i + 1).last() == headers@[i as int]);
        }
        let k = headers.key_at(i);
        if !should_skip_header(k.as_str()) {
            let mut key = String::from_str(prefix);
            let lower = to_lower(k.as_str());
            push_str_chars(&mut key, lower.as_str());
            push_str_attr(attrs, key.as_str(), headers.value_at(i).clone());
        }
        i = i + 1;
        proof {
            assert(attrs_view(attrs@) =~= attrs_view(old(attrs)@) + header_attrs(
                prefix@,
                headers@.take(i as int),
            ));
        }
    }
    proof {
        assert(headers@.take(headers@.len() as int) =~= headers@);
    }
}

fn push_url_attrs(attrs: &mut Vec<KeyValue>, url_host: Option<&str>, url_path: Option<&str>)
    ensures
        attrs_view(final(attrs)@) == attrs_view(old(attrs)@) + url_attrs(
            opt_str_view(url_host),
            opt_str_view(url_path),
        ),
{
    match url_path {
        Some(p) => push_str_attr(attrs, "url.path", String::from_str(p)),
        None => {},
    }
    match url_host {
        Some(h) => push_str_attr(attrs, "url.host", String::from_str(h)),
        None => {},
    }
    proof {
        assert(attrs_view(final(attrs)@) =~= attrs_view(old(attrs)@) + url_attrs(
            opt_str_view(url_host),
            opt_str_view(url_path),
        ));
    }
}

fn push_body_attr(attrs: &mut Vec<KeyValue>, key: &str, headers: &HeaderMap, body: &[u8])
    requires
        body@.len() <= usize::MAX / 2,
    ensures
        attrs_view(final(attrs)@) == attrs_view(old(attrs)@) + body_attrs(key@, headers@, body@),
{
    if body.len() > 0 {
        let text = if is_text_content(headers) {
            utf8_lossy(body)
        } else {
            base64_encode(body)
        };
        push_str_attr(attrs, key, text);
    }
    proof {
        assert(attrs_view(final(attrs)@) =~= attrs_view(old(attrs)@) + body_attrs(
            key@,
            headers@,
            body@,
        ));
    }
}

impl SpanBuilder {
    /// The attributes of a lookup record.
    pub open spec fn inject_attrs(
        &self,
        hs: Seq<(Seq<char>, Seq<char>)>,
        body: Seq<u8>,
        host: Option<Seq<char>>,
        path: Option<Seq<char>>,
    ) -> Seq<(Seq<char>, AttrModel)> {
        seq![
            str_attr("sp.service.name"@, record_service_name(self.service_name@)),
            str_attr("sp.traffic.direction"@, self.traffic_direction@),
        ] + key_attrs(self.public_key@) + seq![str_attr("sp.span.type"@, "inject"@)]
            + session_attrs(self.session_id@) + header_attrs("http.request.header."@, hs)
            + url_attrs(host, path) + body_attrs("http.request.body"@, hs, body)
    }

    /// The attributes of a completed exchange's record.
    pub open spec fn extract_attrs(
        &self,
        req: Seq<(Seq<char>, Seq<char>)>,
        req_body: Seq<u8>,
        resp: Seq<(Seq<char>, Seq<char>)>,
        resp_body: Seq<u8>,
        host: Option<Seq<char>>,
        path: Option<Seq<char>>,
    ) -> Seq<(Seq<char>, AttrModel)> {
        seq![
            str_attr("sp.service.name"@, self.service_name@),
            str_attr("sp.traffic.direction"@, self.traffic_direction@),
            str_attr("sp.span.type"@, "extract"@),
        ] + session_attrs(self.session_id@) + header_attrs("http.request.header."@, req)
            + url_attrs(host, path) + body_attrs("http.request.body"@, req, req_body)
            + header_attrs("http.response.header."@, resp) + status_attrs(resp) + body_attrs(
            "http.response.body"@,
            resp,
            resp_body,
        )
    }

    /// The attributes of the resource that produces the records.
    pub open spec fn resource_attrs(&self) -> Seq<(Seq<char>, AttrModel)> {
        key_attrs(self.public_key@) + seq![
            str_attr("service.name"@, record_service_name(self.service_name@)),
            str_attr("sp.resource.type"@, "sp-envoy-proxy"@),
        ]
    }

    /// The parent span id of the records: the upstream span, or none.
    pub open spec fn parent_bytes(&self) -> Seq<u8> {
        match self.parent_span_id {
            Some(p) => p@,
            None => Seq::empty(),
        }
    }

    /// Builds the record for a lookup issued before the exchange is proxied,
    /// stamped with `now_nanos`.
    pub fn create_inject_span(
        &self,
        request_headers: &HeaderMap,
        request_body: &[u8],
        url_host: Option<&str>,
        url_path: Option<&str>,
        now_nanos: u64,
    ) -> (r: TracesData)
        requires
            request_body@.len() <= usize::MAX / 2,
        ensures
            r.spans@.len() == 1,
            r.spans@[0].trace_id@ == self.trace_id@,
            r.spans@[0].span_id@ == self.current_span_id@,
            r.spans@[0].parent_span_id@ == self.parent_bytes(),
            r.spans@[0].name@ == record_name(opt_str_view(url_path)),
            r.spans@[0].kind == SpanKind::Client,
            r.spans@[0].start_time_unix_nano == now_nanos,
            r.spans@[0].end_time_unix_nano == now_nanos,
            r.spans@[0].status.is_none(),
            attrs_view(r.spans@[0].attributes@) == self.inject_attrs(
                request_headers@,
                request_body@,
                opt_str_view(url_host),
                opt_str_view(url_path),
            ),
            attrs_view(r.resource_attributes@) == self.resource_attrs(),
    {
        let mut attributes: Vec<KeyValue> = Vec::new();
        push_str_attr(&mut attributes, "sp.service.name", service_name_or_default(&self.service_name));
        push_str_attr(&mut attributes, "sp.traffic.direction", self.traffic_direction.clone());
        if !self.public_key.as_str().is_empty() {
            push_str_attr(&mut attributes, "sp.public.key", self.public_key.clone());
        }
        push_str_attr(&mut attributes, "sp.span.type", String::from_str("inject"));
        if !self.session_id.as_str().is_empty() {
            push_str_attr(&mut attributes, "sp.session.id", self.session_id.clone());
        }
        push_header_attrs(&mut attributes, "http.request.header.", request_headers);
        push_url_attrs(&mut attributes, url_host, url_path);
        push_body_attr(&mut attributes, "http.request.body", request_headers, request_body);
        proof {
            assert(attrs_view(attributes@) =~= self.inject_attrs(
                request_headers@,
                request_body@,
                opt_str_view(url_host),
                opt_str_view(url_path),
            ));
        }
        let span = Span {
            trace_id: self.trace_id.clone(),
            span_id: self.current_span_id.clone(),
            parent_span_id: self.parent_clone(),
            name: name_or_unknown(url_path),
            kind: SpanKind::Client,
            start_time_unix_nano: now_nanos,
            end_time_unix_nano: now_nanos,
            attributes,
            status: None,
        };
        self.create_traces_data(span)
    }

    /// Builds the record of a completed exchange; it starts at
    /// `request_start_time` when known, else at `now_nanos`, and ends at `now_nanos`.
    pub fn create_extract_span(
        &self,
        request_headers: &HeaderMap,
        request_body: &[u8],
        response_headers: &HeaderMap,
        response_body: &[u8],
        url_host: Option<&str>,
        url_path: Option<&str>,
        request_start_time: Option<u64>,
        now_nanos: u64,
    ) -> (r: TracesData)
        requires
            request_body@.len() <= usize::MAX / 2,
            response_body@.len() <= usize::MAX / 2,
        ensures
            r.spans@.len() == 1,
            r.spans@[0].trace_id@ == self.trace_id@,
            r.spans@[0].span_id@ == self.current_span_id@,
            r.spans@[0].parent_span_id@ == self.parent_bytes(),
            r.spans@[0].name@ == record_name(opt_str_view(url_path)),
            r.spans@[0].kind == SpanKind::Server,
            r.spans@[0].start_time_unix_nano == (match request_start_time {
                Some(t) => t,
                None => now_nanos,
            }),
            r.spans@[0].end_time_unix_nano == now_nanos,
            r.spans@[0].status.is_some(),
            r.spans@[0].status.unwrap().code == 1,
            r.spans@[0].status.unwrap().message@.len() == 0,
            attrs_view(r.spans@[0].attributes@) == self.extract_attrs(
                request_headers@,
                request_body@,
                response_headers@,
                response_body@,
                opt_str_view(url_host),
                opt_str_view(url_path),
            ),
            attrs_view(r.resource_attributes@) == self.resource_attrs(),
    {
        let mut attributes: Vec<KeyValue> = Vec::new();
        push_str_attr(&mut attributes, "sp.service.name", self.service_name.clone());
        push_str_attr(&mut attributes, "sp.traffic.direction", self.traffic_direction.clone());
        push_str_attr(&mut attributes, "sp.span.type", String::from_str("extract"));
        if !self.session_id.as_str().is_empty() {
            push_str_attr(&mut attributes, "sp.session.id", self.session_id.clone());
        }
        push_header_attrs(&mut attributes, "http.request.header.", request_headers);
        push_url_attrs(&mut attributes, url_host, url_path);
        push_body_attr(&mut attributes, "http.request.body", request_headers, request_body);
        push_header_attrs(&mut attributes, "http.response.header.", response_headers);
        let ghost before_status = attributes@;
        match response_headers.get(":status") {
            Some(st) => match parse_i64(st.as_str()) {
                Some(code) => {
                    attributes.push(
                        KeyValue {
                            key: String::from_str("http.response.status_code"),
                            value: AttrValue::Int(code),
                        },
                    );
                },
                None => {},
            },
            None => {},
        }
        proof {
            assert(attrs_view(attributes@) =~= attrs_view(before_status) + status_attrs(
                response_headers@,
            ));
        }
        push_body_attr(&mut attributes, "http.response.body", response_headers, response_body);
        proof {
            assert(attrs_view(attributes@) =~= self.extract_attrs(
                request_headers@,
                request_body@,
                response_headers@,
                response_body@,
                opt_str_view(url_host),
                opt_str_view(url_path),
            ));
        }
        let start = match request_start_time {
            Some(t) => t,
            None => now_nanos,
        };
        let span = Span {
            trace_id: self.trace_id.clone(),
            span_id: self.current_span_id.clone(),
            parent_span_id: self.parent_clone(),
            name: name_or_unknown(url_path),
            kind: SpanKind::Server,
            start_time_unix_nano: start,
            end_time_unix_nano: now_nanos,
            attributes,
            status: Some(SpanStatus { code: 1, message: String::new() }),
        };
        self.create_traces_data(span)
    }

    fn parent_clone(&self) -> (r: Vec<u8>)
        ensures
            r@ == self.parent_bytes(),
    {
        match &self.parent_span_id {
            Some(p) => p.clone(),
            None => Vec::new(),
        }
    }

    /// Wraps one record with the attributes of the resource that produced it.
    pub fn create_traces_data(&self, span: Span) -> (r: TracesData)
        ensures
            r.spans@ == seq![span],
            attrs_view(r.resource_attributes@) == self.resource_attrs(),
    {
        let mut attributes: Vec<KeyValue> = Vec::new();
        if !self.public_key.as_str().is_empty() {
            push_str_attr(&mut attributes, "sp.public.key", self.public_key.clone());
        }
        push_str_attr(&mut attributes, "service.name", service_name_or_default(&self.service_name));
        push_str_attr(&mut attributes, "sp.resource.type", String::from_str("sp-envoy-proxy"));
        proof {
            assert(attrs_view(attributes@) =~= self.resource_attrs());
        }
        let mut spans: Vec<Span> = Vec::new();
        spans.push(span);
        proof {
            assert(spans@ =~= seq![span]);
        }
        TracesData { resource_attributes: attributes, spans }
    }

    /// A builder with ids made from the timestamp `now_nanos`, the default
    /// service name and the `outbound` direction.
    pub fn new(now_nanos: u64) -> (r: SpanBuilder)
        ensures
            r.trace_id@ == trace_id_at(now_nanos),
            r.current_span_id@ == span_id_at(now_nanos),
            r.parent_span_id.is_none(),
            r.service_name@ == "default-service"@,
            r.traffic_direction@ == "outbound"@,
            r.public_key@.len() == 0,
            r.session_id@.len() == 0,
            !r.prior_session,
    {
        SpanBuilder {
            trace_id: generate_trace_id(now_nanos),
            parent_span_id: None,
            current_span_id: generate_span_id(now_nanos),
            service_name: String::from_str("default-service"),
            traffic_direction: String::from_str("outbound"),
            public_key: String::new(),
            session_id: String::new(),
            prior_session: false,
        }
    }

    /// Sets the service name.
    pub fn with_service_name(self, service_name: String) -> (r: SpanBuilder)
        ensures
            r == (SpanBuilder { service_name, ..self }),
    {
        SpanBuilder { service_name, ..self }
    }

    /// Sets the traffic direction.
    pub fn with_traffic_direction(self, traffic_direction: String) -> (r: SpanBuilder)
        ensures
            r == (SpanBuilder { traffic_direction, ..self }),
    {
        SpanBuilder { traffic_direction, ..self }
    }

    /// Sets the pass-through key for the backend.
    pub fn with_public_key(self, public_key: String) -> (r: SpanBuilder)
        ensures
            r == (SpanBuilder { public_key, ..self }),
    {
        SpanBuilder { public_key, ..self }
    }

    /// Whether a session id is set.
    pub fn has_session_id(&self) -> (r: bool)
        ensures
            r == (self.session_id@.len() > 0),
    {
        !self.session_id.as_str().is_empty()
    }

    /// The session id, empty when none is set.
    pub fn get_session_id(&self) -> (r: &str)
        ensures
            r@ == self.session_id@,
    {
        self.session_id.as_str()
    }

    /// The current span id in hex.
    pub fn get_current_span_id_hex(&self) -> (r: String)
        ensures
            r@ == hex_of(self.current_span_id@),
    {
        hex_encode(self.current_span_id.as_slice())
    }

    /// The trace id in hex.
    pub fn get_trace_id_hex(&self) -> (r: String)
        ensures
            r@ == hex_of(self.trace_id@),
    {
        hex_encode(self.trace_id.as_slice())
    }

    /// Resolves the trace context of an exchange from its request headers:
    /// trace id and parent span from the carriers, the session id from the
    /// request or, when it carries none, one made from `now_nanos`. An empty
    /// session header is kept as the session id, and counts as no session.
    pub fn with_context(self, headers: &HeaderMap, now_nanos: u64) -> (r: SpanBuilder)
        ensures
            r.trace_id@ == resolved_trace_id(headers@, self.trace_id@, now_nanos),
            r.parent_span_id.is_some() == (resolved_link(headers@).is_some()
                || self.parent_span_id.is_some()),
            resolved_link(headers@).is_some() ==> r.parent_span_id.unwrap()@ == resolved_link(
                headers@,
            ).unwrap().1,
            resolved_link(headers@).is_none() ==> r.parent_span_id == self.parent_span_id,
            r.session_id@ == (match request_session(headers@) {
                Some(s) => s,
                None => session_id_at(now_nanos),
            }),
            r.prior_session == has_prior_session(headers@),
            r.current_span_id == self.current_span_id,
            r.service_name == self.service_name,
            r.traffic_direction == self.traffic_direction,
            r.public_key == self.public_key,
    {
        let mut b = self;
        let link = resolve_link(headers);
        match link {
            Some((t, p)) => {
                b.trace_id = t;
                b.parent_span_id = Some(p);
            },
            None => {
                if b.trace_id.len() == 0 {
                    b.trace_id = generate_trace_id(now_nanos);
                }
            },
        }
        match resolve_request_session(headers) {
            Some(sid) => {
                b.prior_session = !sid.as_str().is_empty();
                b.session_id = sid;
            },
            None => {
                b.session_id = generate_session_id(now_nanos);
                b.prior_session = false;
            },
        }
        b
    }

    /// The traceparent value for this trace and the span id `span_id`.
    pub fn generate_traceparent(&self, span_id: &[u8]) -> (r: String)
        ensures
            r@ == traceparent_of(self.trace_id@, span_id@),
    {
        format_traceparent(self.trace_id.as_slice(), span_id)
    }
}

} // verus!
