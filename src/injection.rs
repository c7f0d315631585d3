//! Reading a synthesized HTTP response out of the records that a lookup returns.

use vstd::prelude::*;
use vstd::utf8::encode_utf8;
use crate::codec::{base64_decode, base64_decoded};
use crate::otel::{attrs_view, AttrModel, AttrValue, KeyValue, Span, TracesData};
use crate::text::{chars_of, has_prefix, starts_with_str, str_eq, string_of_range};

verus! {

/// A response to send in place of the upstream's.
#[derive(Debug, Clone)]
pub struct AgentResponse {
    pub status_code: u32,
    pub headers: Vec<(String, String)>,
    pub body: Vec<u8>,
}

/// Whether a text looks like base64: longer than 100 characters, all of them
/// ASCII letters, digits, `+`, `/` or `=`.
pub open spec fn looks_base64(s: Seq<char>) -> bool {
    s.len() > 100 && forall|i: int|
        0 <= i < s.len() ==> {
            let c = #[trigger] s[i];
            ('a' <= c <= 'z') || ('A' <= c <= 'Z') || ('0' <= c <= '9') || c == '+' || c == '/'
                || c == '='
        }
}

/// Whether a body text is taken for base64.
pub fn is_base64_encoded(s: &str) -> (r: bool)
    ensures
        r == looks_base64(s@),
{
    let v = chars_of(s);
    if v.len() <= 100 {
        return false;
    }
    let mut i: usize = 0;
    while i < v.len()
        invariant
            i <= v@.len(),
            v@ == s@,
            forall|j: int|
                0 <= j < i ==> {
                    let c = #[trigger] v@[j];
                    ('a' <= c <= 'z') || ('A' <= c <= 'Z') || ('0' <= c <= '9') || c == '+' || c
                        == '/' || c == '='
                },
        decreases v@.len() - i,
    {
        let c = v[i];
        if !(('a' <= c && c <= 'z') || ('A' <= c && c <= 'Z') || ('0' <= c && c <= '9') || c == '+'
            || c == '/' || c == '=') {
            return false;
        }
        i = i + 1;
    }
    true
}

/// The bytes of a response body attribute: decoded when it looks like base64
/// and decodes, else its UTF-8 encoding.
pub open spec fn body_bytes(s: Seq<char>) -> Seq<u8> {
    if looks_base64(s) && base64_decoded(s).is_some() {
        base64_decoded(s).unwrap()
    } else {
        encode_utf8(s)
    }
}

/// The low 32 bits of a status code, as `as u32` keeps them.
pub open spec fn status_bits(code: i64) -> u32 {
    (code as int % 0x1_0000_0000) as u32
}

/// The prefix of response header attributes.
pub open spec fn response_header_prefix() -> Seq<char> {
    "http.response.header."@
}

/// Status, headers and body read from attributes, in order; later ones win
/// for status and body.
pub open spec fn agent_parts(attrs: Seq<(Seq<char>, AttrModel)>) -> (u32, Seq<(Seq<char>, Seq<char>)>, Seq<u8>)
    decreases attrs.len(),
{
    if attrs.len() == 0 {
        (200, Seq::empty(), Seq::empty())
    } else {
        let (st, hs, b) = agent_parts(attrs.drop_last());
        let (k, v) = attrs.last();
        if k == "http.response.status_code"@ {
            match v {
                AttrModel::Int(code) => (status_bits(code), hs, b),
                _ => (st, hs, b),
            }
        } else if has_prefix(k, response_header_prefix()) {
            match v {
                AttrModel::Str(s) => (st, hs.push((k.skip(response_header_prefix().len() as int), s)), b),
                _ => (st, hs, b),
            }
        } else if k == "http.response.body"@ {
            match v {
                AttrModel::Str(s) => (st, hs, body_bytes(s)),
                _ => (st, hs, b),
            }
        } else {
            (st, hs, b)
        }
    }
}

/// The view of a response to inject.
pub open spec fn agent_view(r: AgentResponse) -> (u32, Seq<(Seq<char>, Seq<char>)>, Seq<u8>) {
    (r.status_code, r.headers@.map_values(|h: (String, String)| (h.0@, h.1@)), r.body@)
}

/// The response a record describes, when it has headers or a body.
pub open spec fn agent_response_of(attrs: Seq<(Seq<char>, AttrModel)>) -> Option<
    (u32, Seq<(Seq<char>, Seq<char>)>, Seq<u8>),
> {
    let p = agent_parts(attrs);
    if p.1.len() > 0 || p.2.len() > 0 {
        Some(p)
    } else {
        None
    }
}

fn low_bits(code: i64) -> (r: u32)
    ensures
        r == status_bits(code),
{
    let m: i64 = code % 0x1_0000_0000i64;
    let m2: i64 = if m < 0 {
        m + 0x1_0000_0000i64
    } else {
        m
    };
    assert(m2 as int == code as int % 0x1_0000_0000);
    m2 as u32
}

fn decode_body(s: &str) -> (r: Vec<u8>)
    ensures
        r@ == body_bytes(s@),
{
    if is_base64_encoded(s) {
        match base64_decode(s) {
            Some(b) => {
                return b;
            },
            None => {},
        }
    }
    s.as_bytes_vec()
}

/// Reads the response that a record describes.
pub fn extract_agent_response_from_span(span: &Span) -> (r: Option<AgentResponse>)
    ensures
        match r {
            Some(a) => agent_response_of(attrs_view(span.attributes@)) == Some(agent_view(a)),
            None => agent_response_of(attrs_view(span.attributes@)).is_none(),
        },
{
    let ghost av = attrs_view(span.attributes@);
    let mut status_code: u32 = 200;
    let mut headers: Vec<(String, String)> = Vec::new();
    let mut body: Vec<u8> = Vec::new();
    let mut i: usize = 0;
    while i < span.attributes.len()
        invariant
            i <= span.attributes@.len(),
            av == attrs_view(span.attributes@),
            (status_code, headers@.map_values(|h: (String, String)| (h.0@, h.1@)), body@)
                == agent_parts(av.take(i as int)),
        decreases span.attributes@.len() - i,
    {
        let attr: &KeyValue = &span.attributes[i];
        proof {
            assert(av.take(i + 1).drop_last() =~= av.take(i as int));
            assert(av.take(i + 1).last() == attr@);
        }
        let key = attr.key.as_str();
        let ghost hv = headers@;
        if str_eq(key, "http.response.status_code") {
            match &attr.value {
                AttrValue::Int(code) => {
                    status_code = low_bits(*code);
                },
                _ => {},
            }
        } else if starts_with_str(key, "http.response.header.") {
            match &attr.value {
                AttrValue::Str(v) => {
                    let kc = chars_of(key);
                    proof {
                        reveal_strlit("http.response.header.");
                    }
                    let name = string_of_range(&kc, 21, kc.len());
                    proof {
                        reveal_strlit("http.response.header.");
                        assert(name@ =~= key@.skip(response_header_prefix().len() as int));
                    }
                    headers.push((name, v.clone()));
                    proof {
                        assert(headers@.map_values(|h: (String, String)| (h.0@, h.1@)) =~= hv.map_values(
                            |h: (String, String)| (h.0@, h.1@),
                        ).push((name@, v@)));
                    }
                },
                _ => {},
            }
        } else if str_eq(key, "http.response.body") {
            match &attr.value {
                AttrValue::Str(v) => {
                    body = decode_body(v.as_str());
                },
                _ => {},
            }
        }
        i = i + 1;
    }
    proof {
        assert(av.take(span.attributes@.len() as int) =~= av);
    }
    if body.len() > 0 || headers.len() > 0 {
        Some(AgentResponse { status_code, headers, body })
    } else {
        None
    }
}

/// The first response that the records describe, by resource order.
pub open spec fn first_agent_response(spans: Seq<Span>) -> Option<(u32, Seq<(Seq<char>, Seq<char>)>, Seq<u8>)>
    decreases spans.len(),
{
    if spans.len() == 0 {
        None
    } else if agent_response_of(attrs_view(spans[0].attributes@)).is_some() {
        agent_response_of(attrs_view(spans[0].attributes@))
    } else {
        first_agent_response(spans.drop_first())
    }
}

/// Finds the response to inject in decoded lookup records.
pub fn find_agent_response(data: &TracesData) -> (r: Option<AgentResponse>)
    ensures
        match r {
            Some(a) => first_agent_response(data.spans@) == Some(agent_view(a)),
            None => first_agent_response(data.spans@).is_none(),
        },
{
    let mut i: usize = 0;
    proof {
        assert(data.spans@.skip(0) =~= data.spans@);
    }
    while i < data.spans.len()
        invariant
            i <= data.spans@.len(),
            first_agent_response(data.spans@) == first_agent_response(data.spans@.skip(i as int)),
        decreases data.spans@.len() - i,
    {
        proof {
            assert(data.spans@.skip(i as int)[0] == data.spans@[i as int]);
            assert(data.spans@.skip(i as int).drop_first() =~= data.spans@.skip(i + 1));
        }
        match extract_agent_response_from_span(&data.spans[i]) {
            Some(a) => {
                return Some(a);
            },
            None => {},
        }
        i = i + 1;
    }
    None
}

} // verus!
