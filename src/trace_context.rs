//! The `version-traceid-spanid-flags` trace-context value: hex codec, parsing,
//! encoding, and identifiers derived from a timestamp.

use vstd::prelude::*;
use crate::text::{chars_of, lacks, lemma_split_concat, lemma_split_single, split_chars, split_on, views};

verus! {

/// A hexadecimal digit of either case.
pub open spec fn is_hex_digit(c: char) -> bool {
    ('0' <= c <= '9') || ('a' <= c <= 'f') || ('A' <= c <= 'F')
}

/// The value of a hexadecimal digit.
pub open spec fn hex_val(c: char) -> int {
    if '0' <= c <= '9' {
        c as int - '0' as int
    } else if 'a' <= c <= 'f' {
        c as int - 'a' as int + 10
    } else {
        c as int - 'A' as int + 10
    }
}

/// The bytes that an even-length string of hex digits spells, two digits a byte.
pub open spec fn hex_decoded(s: Seq<char>) -> Option<Seq<u8>> {
    if s.len() % 2 == 0 && forall|i: int| 0 <= i < s.len() ==> is_hex_digit(#[trigger] s[i]) {
        Some(Seq::new((s.len() / 2) as nat, |i: int| (hex_val(s[2 * i]) * 16 + hex_val(s[2 * i + 1])) as u8))
    } else {
        None
    }
}

/// Lower-case hex digits, by value.
pub open spec fn hex_digits() -> Seq<char> {
    seq!['0', '1', '2', '3', '4', '5', '6', '7', '8', '9', 'a', 'b', 'c', 'd', 'e', 'f']
}

/// Two lower-case hex digits for each byte.
pub open spec fn hex_of(b: Seq<u8>) -> Seq<char> {
    Seq::new(
        2 * b.len(),
        |i: int|
            if i % 2 == 0 {
                hex_digits()[(b[i / 2] / 16) as int]
            } else {
                hex_digits()[(b[i / 2] % 16) as int]
            },
    )
}

fn hex_value(c: char) -> (r: Option<u8>)
    ensures
        r.is_some() == is_hex_digit(c),
        r.is_some() ==> r.unwrap() as int == hex_val(c),
{
    if '0' <= c && c <= '9' {
        Some((c as u32 - '0' as u32) as u8)
    } else if 'a' <= c && c <= 'f' {
        Some((c as u32 - 'a' as u32 + 10) as u8)
    } else if 'A' <= c && c <= 'F' {
        Some((c as u32 - 'A' as u32 + 10) as u8)
    } else {
        None
    }
}

fn hex_decode_chars(v: &Vec<char>) -> (r: Option<Vec<u8>>)
    ensures
        match r {
            Some(b) => hex_decoded(v@) == Some(b@),
            None => hex_decoded(v@).is_none(),
        },
{
    if v.len() % 2 != 0 {
        return None;
    }
    let mut bytes: Vec<u8> = Vec::new();
    let mut i: usize = 0;
    while i < v.len() / 2
        invariant
            v@.len() % 2 == 0,
            i <= v@.len() / 2,
            bytes@.len() == i,
            forall|j: int| 0 <= j < 2 * i ==> is_hex_digit(#[trigger] v@[j]),
            forall|j: int|
                0 <= j < i ==> bytes@[j] == (hex_val(v@[2 * j]) * 16 + hex_val(v@[2 * j + 1])) as u8,
        decreases v@.len() / 2 - i,
    {
        let hi = hex_value(v[2 * i]);
        let lo = hex_value(v[2 * i + 1]);
        match (hi, lo) {
            (Some(h), Some(l)) => {
                bytes.push(h * 16 + l);
            },
            _ => {
                proof {
                    if hi.is_none() {
                        assert(!is_hex_digit(v@[2 * i as int]));
                    } else {
                        assert(!is_hex_digit(v@[2 * i + 1]));
                    }
                }
                return None;
            },
        }
        i = i + 1;
    }
    proof {
        assert forall|j: int| 0 <= j < v@.len() implies is_hex_digit(#[trigger] v@[j]) by {
            assert(j < 2 * i);
        }
        assert(bytes@ =~= Seq::new(
            (v@.len() / 2) as nat,
            |j: int| (hex_val(v@[2 * j]) * 16 + hex_val(v@[2 * j + 1])) as u8,
        ));
    }
    Some(bytes)
}

/// Decodes a string of hex digits into bytes.
pub fn hex_decode(hex: &str) -> (r: Option<Vec<u8>>)
    ensures
        match r {
            Some(b) => hex_decoded(hex@) == Some(b@),
            None => hex_decoded(hex@).is_none(),
        },
{
    let v = chars_of(hex);
    hex_decode_chars(&v)
}

/// Appends the hex digits of `bytes[from..to]` to `r`.
pub fn push_hex_range(r: &mut String, bytes: &[u8], from: usize, to: usize)
    requires
        from <= to <= bytes@.len(),
    ensures
        final(r)@ == old(r)@ + hex_of(bytes@.subrange(from as int, to as int)),
{
    let digits: [char; 16] = ['0', '1', '2', '3', '4', '5', '6', '7', '8', '9', 'a', 'b', 'c', 'd', 'e', 'f'];
    proof {
        assert(digits@ =~= hex_digits());
    }
    let ghost sub = bytes@.subrange(from as int, to as int);
    let mut i: usize = from;
    while i < to
        invariant
            from <= i <= to <= bytes@.len(),
            sub == bytes@.subrange(from as int, to as int),
            digits@ == hex_digits(),
            r@ == old(r)@ + hex_of(sub).take(2 * (i - from)),
        decreases to - i,
    {
        let b = bytes[i];
        r.push(digits[(b / 16) as usize]);
        r.push(digits[(b % 16) as usize]);
        i = i + 1;
        proof {
            assert(sub[i - 1 - from] == b);
            assert(r@ =~= old(r)@ + hex_of(sub).take(2 * (i - from)));
        }
    }
    proof {
        assert(hex_of(sub).take(2 * (to - from)) =~= hex_of(sub));
    }
}

/// Encodes bytes as lower-case hex digits.
pub fn hex_encode(bytes: &[u8]) -> (r: String)
    ensures
        r@ == hex_of(bytes@),
{
    let mut r = String::new();
    push_hex_range(&mut r, bytes, 0, bytes.len());
    proof {
        assert(bytes@.subrange(0, bytes@.len() as int) =~= bytes@);
        assert(r@ =~= hex_of(bytes@));
    }
    r
}

/// The trace id and span id of a `version-traceid-spanid-flags` value:
/// exactly four hyphen-separated fields, the second of 32 hex digits and the
/// third of 16; `None` for anything else.
pub open spec fn parsed_traceparent(s: Seq<char>) -> Option<(Seq<u8>, Seq<u8>)> {
    let parts = split_on(s, '-');
    if parts.len() == 4 && parts[1].len() == 32 && parts[2].len() == 16 && hex_decoded(
        parts[1],
    ).is_some() && hex_decoded(parts[2]).is_some() {
        Some((hex_decoded(parts[1]).unwrap(), hex_decoded(parts[2]).unwrap()))
    } else {
        None
    }
}

/// The view of an optional pair of byte vectors.
pub open spec fn opt_pair_view(o: Option<(Vec<u8>, Vec<u8>)>) -> Option<(Seq<u8>, Seq<u8>)> {
    match o {
        Some(p) => Some((p.0@, p.1@)),
        None => None,
    }
}

/// Parses a value in the format `00-<trace id>-<span id>-01`.
pub fn parse_traceparent_value(traceparent: &str) -> (r: Option<(Vec<u8>, Vec<u8>)>)
    ensures
        opt_pair_view(r) == parsed_traceparent(traceparent@),
        r.is_some() ==> r.unwrap().0@.len() == 16 && r.unwrap().1@.len() == 8,
{
    let v = chars_of(traceparent);
    let parts = split_chars(&v, '-');
    proof {
        assert(views(parts@).len() == parts@.len());
    }
    if parts.len() != 4 {
        return None;
    }
    proof {
        assert(views(parts@)[1] == parts@[1]@);
        assert(views(parts@)[2] == parts@[2]@);
    }
    if parts[1].len() != 32 || parts[2].len() != 16 {
        return None;
    }
    let trace_id = match hex_decode_chars(&parts[1]) {
        Some(t) => t,
        None => return None,
    };
    let span_id = match hex_decode_chars(&parts[2]) {
        Some(s) => s,
        None => return None,
    };
    Some((trace_id, span_id))
}

/// The traceparent value for a trace id and a span id: version `00`, flags `01`.
pub open spec fn traceparent_of(trace_id: Seq<u8>, span_id: Seq<u8>) -> Seq<char> {
    seq!['0', '0', '-'] + hex_of(trace_id) + seq!['-'] + hex_of(span_id) + seq!['-', '0', '1']
}

/// Builds the traceparent value for a trace id and a span id.
pub fn format_traceparent(trace_id: &[u8], span_id: &[u8]) -> (r: String)
    ensures
        r@ == traceparent_of(trace_id@, span_id@),
{
    let mut r = String::new();
    r.push('0');
    r.push('0');
    r.push('-');
    push_hex_range(&mut r, trace_id, 0, trace_id.len());
    r.push('-');
    push_hex_range(&mut r, span_id, 0, span_id.len());
    r.push('-');
    r.push('0');
    r.push('1');
    proof {
        assert(trace_id@.subrange(0, trace_id@.len() as int) =~= trace_id@);
        assert(span_id@.subrange(0, span_id@.len() as int) =~= span_id@);
        assert(r@ =~= traceparent_of(trace_id@, span_id@));
    }
    r
}

/// A well-formed traceparent value: four hyphen-separated fields, the trace
/// id of 32 hex digits and the span id of 16.
pub open spec fn well_formed_traceparent(v: Seq<char>) -> bool {
    let p = split_on(v, '-');
    &&& p.len() == 4
    &&& p[1].len() == 32
    &&& p[2].len() == 16
    &&& forall|i: int| 0 <= i < 32 ==> is_hex_digit(#[trigger] p[1][i])
    &&& forall|i: int| 0 <= i < 16 ==> is_hex_digit(#[trigger] p[2][i])
}

proof fn lemma_hex_digit(n: int)
    requires
        0 <= n < 16,
    ensures
        is_hex_digit(hex_digits()[n]),
        hex_val(hex_digits()[n]) == n,
        hex_digits()[n] != '-',
{
    let d = hex_digits();
    assert(d[0] == '0' && d[1] == '1' && d[2] == '2' && d[3] == '3');
    assert(d[4] == '4' && d[5] == '5' && d[6] == '6' && d[7] == '7');
    assert(d[8] == '8' && d[9] == '9' && d[10] == 'a' && d[11] == 'b');
    assert(d[12] == 'c' && d[13] == 'd' && d[14] == 'e' && d[15] == 'f');
}

/// Hex digits decode back to the bytes they encode, and hold no hyphen.
pub proof fn lemma_hex_round_trip(b: Seq<u8>)
    ensures
        hex_decoded(hex_of(b)) == Some(b),
        lacks(hex_of(b), '-'),
        hex_of(b).len() == 2 * b.len(),
{
    let h = hex_of(b);
    assert forall|i: int| 0 <= i < h.len() implies is_hex_digit(#[trigger] h[i]) && h[i] != '-' by {
        if i % 2 == 0 {
            lemma_hex_digit((b[i / 2] / 16) as int);
        } else {
            lemma_hex_digit((b[i / 2] % 16) as int);
        }
    }
    let d = Seq::new((h.len() / 2) as nat, |i: int| (hex_val(h[2 * i]) * 16 + hex_val(h[2 * i + 1])) as u8);
    assert forall|i: int| 0 <= i < b.len() implies d[i] == b[i] by {
        lemma_hex_digit((b[i] / 16) as int);
        lemma_hex_digit((b[i] % 16) as int);
        assert(h[2 * i] == hex_digits()[(b[i] / 16) as int]);
        assert(h[2 * i + 1] == hex_digits()[(b[i] % 16) as int]);
    }
    assert(d =~= b);
}

/// A value made by `traceparent_of` from a 16-byte trace id and an 8-byte span
/// id is well formed and parses back to them.
pub proof fn lemma_traceparent_of_parses(t: Seq<u8>, s: Seq<u8>)
    requires
        t.len() == 16,
        s.len() == 8,
    ensures
        split_on(traceparent_of(t, s), '-') == seq![seq!['0', '0'], hex_of(t), hex_of(s), seq!['0', '1']],
        well_formed_traceparent(traceparent_of(t, s)),
        parsed_traceparent(traceparent_of(t, s)) == Some((t, s)),
{
    lemma_hex_round_trip(t);
    lemma_hex_round_trip(s);
    let h1 = hex_of(t);
    let h2 = hex_of(s);
    let a = seq!['0', '0'];
    let z = seq!['0', '1'];
    let tail2 = h2 + seq!['-'] + z;
    let tail1 = h1 + seq!['-'] + tail2;
    assert(traceparent_of(t, s) =~= a + seq!['-'] + tail1);
    lemma_split_concat(a, tail1, '-');
    lemma_split_concat(h1, tail2, '-');
    lemma_split_concat(h2, z, '-');
    assert(lacks(a, '-'));
    assert(lacks(z, '-'));
    lemma_split_single(a, '-');
    lemma_split_single(z, '-');
    lemma_split_single(h1, '-');
    lemma_split_single(h2, '-');
    let p = split_on(traceparent_of(t, s), '-');
    assert(p =~= seq![a, h1, h2, z]);
    assert(p[1] == h1 && p[2] == h2);
}

/// A hex digit in lower case; other characters as they are.
pub open spec fn lower_hex_char(c: char) -> char {
    if 'A' <= c <= 'F' {
        seq!['a', 'b', 'c', 'd', 'e', 'f'][c as int - 'A' as int]
    } else {
        c
    }
}

/// The hex digits of `s` in lower case.
pub open spec fn lower_hex(s: Seq<char>) -> Seq<char> {
    Seq::new(s.len(), |i: int| lower_hex_char(s[i]))
}

proof fn lemma_hex_digit_char(c: char)
    requires
        is_hex_digit(c),
    ensures
        0 <= hex_val(c) < 16,
        hex_digits()[hex_val(c)] == lower_hex_char(c),
{
    let d = hex_digits();
    assert(d[0] == '0' && d[1] == '1' && d[2] == '2' && d[3] == '3');
    assert(d[4] == '4' && d[5] == '5' && d[6] == '6' && d[7] == '7');
    assert(d[8] == '8' && d[9] == '9' && d[10] == 'a' && d[11] == 'b');
    assert(d[12] == 'c' && d[13] == 'd' && d[14] == 'e' && d[15] == 'f');
    let l = seq!['a', 'b', 'c', 'd', 'e', 'f'];
    assert(l[0] == 'a' && l[1] == 'b' && l[2] == 'c' && l[3] == 'd' && l[4] == 'e' && l[5] == 'f');
    assert(c == '0' || c == '1' || c == '2' || c == '3' || c == '4' || c == '5' || c == '6' || c
        == '7' || c == '8' || c == '9' || c == 'a' || c == 'b' || c == 'c' || c == 'd' || c == 'e'
        || c == 'f' || c == 'A' || c == 'B' || c == 'C' || c == 'D' || c == 'E' || c == 'F');
}

/// Decoding hex digits and encoding the bytes again gives the digits in lower case.
pub proof fn lemma_hex_decode_encode(s: Seq<char>)
    requires
        hex_decoded(s).is_some(),
    ensures
        hex_of(hex_decoded(s).unwrap()) == lower_hex(s),
{
    let b = hex_decoded(s).unwrap();
    let e = hex_of(b);
    assert forall|i: int| 0 <= i < s.len() implies #[trigger] e[i] == lower_hex(s)[i] by {
        let k = i / 2;
        assert(is_hex_digit(s[2 * k]) && is_hex_digit(s[2 * k + 1]));
        lemma_hex_digit_char(s[2 * k]);
        lemma_hex_digit_char(s[2 * k + 1]);
        let h = hex_val(s[2 * k]);
        let l = hex_val(s[2 * k + 1]);
        assert(0 <= h * 16 + l < 256) by (nonlinear_arith)
            requires
                0 <= h < 16,
                0 <= l < 16,
        ;
        assert((h * 16 + l) / 16 == h && (h * 16 + l) % 16 == l) by (nonlinear_arith)
            requires
                0 <= h < 16,
                0 <= l < 16,
        ;
        assert(b[k] as int == h * 16 + l);
        if i % 2 == 0 {
            assert(i == 2 * k);
        } else {
            assert(i == 2 * k + 1);
        }
    }
    assert(e =~= lower_hex(s));
}

/// Resolving a well-formed traceparent value and encoding it again keeps its
/// four-field shape, its 32 and 16 hex digit fields and its trace id bytes;
/// the trace id field comes back as the input's digits in lower case.
pub proof fn lemma_traceparent_round_trip(v: Seq<char>, span: Seq<u8>)
    requires
        well_formed_traceparent(v),
        span.len() == 8,
    ensures
        parsed_traceparent(v).is_some(),
        parsed_traceparent(v).unwrap().0.len() == 16,
        parsed_traceparent(v).unwrap().1.len() == 8,
        well_formed_traceparent(traceparent_of(parsed_traceparent(v).unwrap().0, span)),
        parsed_traceparent(traceparent_of(parsed_traceparent(v).unwrap().0, span)) == Some(
            (parsed_traceparent(v).unwrap().0, span),
        ),
        split_on(traceparent_of(parsed_traceparent(v).unwrap().0, span), '-') == seq![
            seq!['0', '0'],
            lower_hex(split_on(v, '-')[1]),
            hex_of(span),
            seq!['0', '1'],
        ],
{
    let p = split_on(v, '-');
    assert(p[1].len() % 2 == 0);
    assert(forall|i: int| 0 <= i < p[1].len() ==> is_hex_digit(#[trigger] p[1][i]));
    assert(forall|i: int| 0 <= i < p[2].len() ==> is_hex_digit(#[trigger] p[2][i]));
    let t = hex_decoded(p[1]).unwrap();
    assert(t.len() == 16);
    lemma_traceparent_of_parses(t, span);
    lemma_hex_decode_encode(p[1]);
}

/// The `n` low bytes of `x`, most significant first.
pub open spec fn be_bytes(x: nat, n: nat) -> Seq<u8>
    decreases n,
{
    if n == 0 {
        Seq::empty()
    } else {
        be_bytes(x / 256, (n - 1) as nat).push((x % 256) as u8)
    }
}

fn be_bytes_of(x: u64, n: usize) -> (r: Vec<u8>)
    ensures
        r@ == be_bytes(x as nat, n as nat),
    decreases n,
{
    if n == 0 {
        Vec::new()
    } else {
        let mut v = be_bytes_of(x / 256, n - 1);
        v.push((x % 256) as u8);
        v
    }
}

/// Nanoseconds in a second.
pub const NANOS_PER_SEC: u64 = 1_000_000_000;

/// A trace id made from a timestamp: its seconds, then its sub-second nanoseconds,
/// each as eight big-endian bytes.
pub open spec fn trace_id_at(now_nanos: u64) -> Seq<u8> {
    be_bytes((now_nanos / NANOS_PER_SEC) as nat, 8) + be_bytes((now_nanos % NANOS_PER_SEC) as nat, 8)
}

/// A span id made from a timestamp.
pub open spec fn span_id_at(now_nanos: u64) -> Seq<u8> {
    be_bytes((now_nanos ^ 0xCAFEBABEu64) as nat, 8)
}

/// Generates a 16-byte trace id from a timestamp in nanoseconds.
pub fn generate_trace_id(now_nanos: u64) -> (r: Vec<u8>)
    ensures
        r@ == trace_id_at(now_nanos),
        r@.len() == 16,
{
    let mut r = be_bytes_of(now_nanos / NANOS_PER_SEC, 8);
    let mut lo = be_bytes_of(now_nanos % NANOS_PER_SEC, 8);
    proof {
        lemma_be_bytes_len((now_nanos / NANOS_PER_SEC) as nat, 8);
        lemma_be_bytes_len((now_nanos % NANOS_PER_SEC) as nat, 8);
    }
    r.append(&mut lo);
    r
}

/// Generates an 8-byte span id from a timestamp in nanoseconds.
pub fn generate_span_id(now_nanos: u64) -> (r: Vec<u8>)
    ensures
        r@ == span_id_at(now_nanos),
        r@.len() == 8,
{
    proof {
        lemma_be_bytes_len((now_nanos ^ 0xCAFEBABEu64) as nat, 8);
    }
    be_bytes_of(now_nanos ^ 0xCAFEBABE, 8)
}

/// `be_bytes(x, n)` has `n` bytes.
pub proof fn lemma_be_bytes_len(x: nat, n: nat)
    ensures
        be_bytes(x, n).len() == n,
    decreases n,
{
    if n > 0 {
        lemma_be_bytes_len(x / 256, (n - 1) as nat);
    }
}

/// The bytes behind a session id made from a timestamp.
pub open spec fn session_bytes_at(now_nanos: u64) -> Seq<u8> {
    be_bytes((now_nanos / NANOS_PER_SEC) as nat, 8) + be_bytes(
        ((now_nanos % NANOS_PER_SEC) ^ 0xDEADBEEFu64) as nat,
        8,
    )
}

/// A session id made from a timestamp: `sp-session-` and its bytes in the
/// 8-4-4-4-12 grouping of a UUID.
pub open spec fn session_id_at(now_nanos: u64) -> Seq<char> {
    let b = session_bytes_at(now_nanos);
    "sp-session-"@ + hex_of(b.subrange(0, 4)) + seq!['-'] + hex_of(b.subrange(4, 6)) + seq!['-']
        + hex_of(b.subrange(6, 8)) + seq!['-'] + hex_of(b.subrange(8, 10)) + seq!['-'] + hex_of(
        b.subrange(10, 16),
    )
}

/// Generates a session id from a timestamp in nanoseconds.
pub fn generate_session_id(now_nanos: u64) -> (r: String)
    ensures
        r@ == session_id_at(now_nanos),
{
    let mut b = be_bytes_of(now_nanos / NANOS_PER_SEC, 8);
    let mut lo = be_bytes_of((now_nanos % NANOS_PER_SEC) ^ 0xDEADBEEF, 8);
    proof {
        lemma_be_bytes_len((now_nanos / NANOS_PER_SEC) as nat, 8);
        lemma_be_bytes_len(((now_nanos % NANOS_PER_SEC) ^ 0xDEADBEEFu64) as nat, 8);
    }
    b.append(&mut lo);
    let mut r = String::new();
    crate::text::push_str_chars(&mut r, "sp-session-");
    push_hex_range(&mut r, b.as_slice(), 0, 4);
    r.push('-');
    push_hex_range(&mut r, b.as_slice(), 4, 6);
    r.push('-');
    push_hex_range(&mut r, b.as_slice(), 6, 8);
    r.push('-');
    push_hex_range(&mut r, b.as_slice(), 8, 10);
    r.push('-');
    push_hex_range(&mut r, b.as_slice(), 10, 16);
    proof {
        assert(r@ =~= session_id_at(now_nanos));
    }
    r
}

} // verus!
