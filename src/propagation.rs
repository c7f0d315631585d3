//! The headers that carry the trace context onward: the rewritten state
//! header, the single-value header when absent, and the hop counter.

use vstd::prelude::*;
use crate::headers::{build_new_tracestate, lookup, rebuilt_entries, tracestate_header, HeaderMap};
use crate::numbers::{decimal_of, decimal_string, parse_u32, parsed_u32};
use crate::otel::SpanBuilder;
use crate::text::join_with;
use crate::trace_context::traceparent_of;

verus! {

/// The header updates for an outgoing request.
pub struct Propagation {
    /// The new value of the state-style carrier header.
    pub tracestate: String,
    /// The single-value carrier header to add, when the request has none.
    pub traceparent: Option<String>,
    /// The new value of the hop counter header.
    pub hop_count: String,
}

/// The hop count after this pass: the request's count, zero when it is
/// missing or not a number, plus one.
pub open spec fn next_hop_count(hs: Seq<(Seq<char>, Seq<char>)>) -> nat {
    match lookup(hs, "x-sp-num"@) {
        Some(v) => match parsed_u32(v) {
            Some(n) => n as nat + 1,
            None => 1,
        },
        None => 1,
    }
}

/// Computes the carrier header updates for the request of this hop, whose
/// own span is the builder's current span.
pub fn outgoing_headers(builder: &SpanBuilder, request_headers: &HeaderMap) -> (r: Propagation)
    ensures
        r.tracestate@ == join_with(
            rebuilt_entries(
                lookup(request_headers@, tracestate_header()),
                traceparent_of(builder.trace_id@, builder.current_span_id@),
                builder.session_id@,
            ),
            ',',
        ),
        r.traceparent.is_some() == lookup(request_headers@, "traceparent"@).is_none(),
        r.traceparent.is_some() ==> r.traceparent.unwrap()@ == traceparent_of(
            builder.trace_id@,
            builder.current_span_id@,
        ),
        r.hop_count@ == decimal_of(next_hop_count(request_headers@)),
{
    let traceparent = builder.generate_traceparent(builder.current_span_id.as_slice());
    let tracestate = build_new_tracestate(
        request_headers,
        traceparent.as_str(),
        builder.session_id.as_str(),
    );
    let add = if request_headers.contains_key("traceparent") {
        None
    } else {
        Some(traceparent)
    };
    let current: u64 = match request_headers.get("x-sp-num") {
        Some(v) => match parse_u32(v.as_str()) {
            Some(n) => n as u64,
            None => 0,
        },
        None => 0,
    };
    Propagation { tracestate, traceparent: add, hop_count: decimal_string(current + 1) }
}

/// Whether the trace context is propagated onto the response: when the
/// upstream response carries a single-value carrier header.
pub fn extract_and_propagate_trace_context(request_headers: &HeaderMap, response_headers: &HeaderMap) -> (r:
    bool)
    ensures
        r == lookup(response_headers@, "traceparent"@).is_some(),
{
    response_headers.contains_key("traceparent")
}

} // verus!
