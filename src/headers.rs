//! Request and response header maps, service-name detection and the
//! rewrite of the comma-separated trace-state carrier header.

use vstd::prelude::*;
use crate::text::{
    is_ws, lacks, lemma_split_join, lemma_trim_keeps_prefix, lemma_split_pieces_lack, lemma_trim_clean,
    lemma_trim_idempotent, chars_of, has_prefix, join_strings, join_with, split_chars, split_on, starts_with_chars,
    str_eq, string_of, string_views, trim, trim_range, views,
};

verus! {

/// Header entries in insertion order; a key is stored at most once by `insert`.
pub struct HeaderMap {
    entries: Vec<(String, String)>,
}

/// The value stored under `k`: the first entry whose key is `k`.
pub open spec fn lookup(hs: Seq<(Seq<char>, Seq<char>)>, k: Seq<char>) -> Option<Seq<char>>
    decreases hs.len(),
{
    if hs.len() == 0 {
        None
    } else if hs[0].0 == k {
        Some(hs[0].1)
    } else {
        lookup(hs.drop_first(), k)
    }
}

/// `hs` with the first entry under `k` replaced by `(k, v)`, or `(k, v)` appended.
pub open spec fn insert_entry(hs: Seq<(Seq<char>, Seq<char>)>, k: Seq<char>, v: Seq<char>) -> Seq<
    (Seq<char>, Seq<char>),
>
    decreases hs.len(),
{
    if hs.len() == 0 {
        seq![(k, v)]
    } else if hs[0].0 == k {
        hs.update(0, (k, v))
    } else {
        seq![hs[0]] + insert_entry(hs.drop_first(), k, v)
    }
}

/// The view of an optional string.
pub open spec fn opt_view(o: Option<String>) -> Option<Seq<char>> {
    match o {
        Some(s) => Some(s@),
        None => None,
    }
}

proof fn lemma_lookup_prefix(hs: Seq<(Seq<char>, Seq<char>)>, k: Seq<char>, i: int)
    requires
        0 <= i <= hs.len(),
        forall|j: int| 0 <= j < i ==> hs[j].0 != k,
    ensures
        lookup(hs, k) == lookup(hs.skip(i), k),
    decreases i,
{
    if i > 0 {
        lemma_lookup_prefix(hs.drop_first(), k, i - 1);
        assert(hs.drop_first().skip(i - 1) =~= hs.skip(i));
    } else {
        assert(hs.skip(0) =~= hs);
    }
}

proof fn lemma_insert_at(hs: Seq<(Seq<char>, Seq<char>)>, k: Seq<char>, v: Seq<char>, i: int)
    requires
        0 <= i <= hs.len(),
        forall|j: int| 0 <= j < i ==> hs[j].0 != k,
        i < hs.len() ==> hs[i].0 == k,
    ensures
        insert_entry(hs, k, v) == (if i < hs.len() {
            hs.update(i, (k, v))
        } else {
            hs.push((k, v))
        }),
    decreases i,
{
    if i > 0 {
        lemma_insert_at(hs.drop_first(), k, v, i - 1);
        if i < hs.len() {
            assert(seq![hs[0]] + hs.drop_first().update(i - 1, (k, v)) =~= hs.update(i, (k, v)));
        } else {
            assert(seq![hs[0]] + hs.drop_first().push((k, v)) =~= hs.push((k, v)));
        }
    } else if hs.len() == 0 {
        assert(seq![(k, v)] =~= hs.push((k, v)));
    }
}

/// After an insert, the key maps to the new value and every other key is unchanged.
pub proof fn lemma_lookup_insert(hs: Seq<(Seq<char>, Seq<char>)>, k: Seq<char>, v: Seq<char>, k2: Seq<char>)
    ensures
        lookup(insert_entry(hs, k, v), k2) == (if k2 == k {
            Some(v)
        } else {
            lookup(hs, k2)
        }),
    decreases hs.len(),
{
    if hs.len() == 0 {
        let one = seq![(k, v)];
        assert(one[0] == (k, v));
        assert(one.drop_first() =~= Seq::<(Seq<char>, Seq<char>)>::empty());
        assert(lookup(one.drop_first(), k2) == None::<Seq<char>>);
    } else if hs[0].0 != k {
        lemma_lookup_insert(hs.drop_first(), k, v, k2);
        let ins = seq![hs[0]] + insert_entry(hs.drop_first(), k, v);
        assert(ins[0] == hs[0]);
        assert(ins.drop_first() =~= insert_entry(hs.drop_first(), k, v));
    } else {
        let up = hs.update(0, (k, v));
        assert(up[0] == (k, v));
        assert(up.drop_first() =~= hs.drop_first());
    }
}

impl View for HeaderMap {
    type V = Seq<(Seq<char>, Seq<char>)>;

    closed spec fn view(&self) -> Seq<(Seq<char>, Seq<char>)> {
        self.entries@.map_values(|e: (String, String)| (e.0@, e.1@))
    }
}

impl HeaderMap {
    /// An empty map.
    pub fn new() -> (r: HeaderMap)
        ensures
            r@ == Seq::<(Seq<char>, Seq<char>)>::empty(),
    {
        let r = HeaderMap { entries: Vec::new() };
        proof {
            assert(r@ =~= Seq::<(Seq<char>, Seq<char>)>::empty());
        }
        r
    }

    /// Number of entries.
    pub fn len(&self) -> (r: usize)
        ensures
            r == self@.len(),
    {
        self.entries.len()
    }

    /// Whether the map has no entry.
    pub fn is_empty(&self) -> (r: bool)
        ensures
            r == (self@.len() == 0),
    {
        self.entries.len() == 0
    }

    /// The key of entry `i`.
    pub fn key_at(&self, i: usize) -> (r: &String)
        requires
            i < self@.len(),
        ensures
            r@ == self@[i as int].0,
    {
        &self.entries[i].0
    }

    /// The value of entry `i`.
    pub fn value_at(&self, i: usize) -> (r: &String)
        requires
            i < self@.len(),
        ensures
            r@ == self@[i as int].1,
    {
        &self.entries[i].1
    }

    /// Index of the first entry under `name`, or the number of entries.
    fn position(&self, name: &str) -> (r: usize)
        ensures
            r <= self@.len(),
            forall|j: int| 0 <= j < r ==> self@[j].0 != name@,
            r < self@.len() ==> self@[r as int].0 == name@,
    {
        let mut i: usize = 0;
        while i < self.entries.len()
            invariant
                i <= self@.len(),
                self@.len() == self.entries@.len(),
                forall|j: int| 0 <= j < i ==> self@[j].0 != name@,
            decreases self@.len() - i,
        {
            if str_eq(self.entries[i].0.as_str(), name) {
                return i;
            }
            i = i + 1;
        }
        i
    }

    /// The value stored under `name`.
    pub fn get(&self, name: &str) -> (r: Option<String>)
        ensures
            opt_view(r) == lookup(self@, name@),
    {
        let i = self.position(name);
        proof {
            lemma_lookup_prefix(self@, name@, i as int);
        }
        if i < self.entries.len() {
            Some(self.entries[i].1.clone())
        } else {
            None
        }
    }

    /// Whether a value is stored under `name`.
    pub fn contains_key(&self, name: &str) -> (r: bool)
        ensures
            r == lookup(self@, name@).is_some(),
    {
        let i = self.position(name);
        proof {
            lemma_lookup_prefix(self@, name@, i as int);
        }
        i < self.entries.len()
    }

    /// Stores `value` under `name`, replacing a value stored there before.
    pub fn insert(&mut self, name: String, value: String)
        ensures
            final(self)@ == insert_entry(old(self)@, name@, value@),
    {
        let i = self.position(name.as_str());
        proof {
            lemma_insert_at(self@, name@, value@, i as int);
        }
        if i < self.entries.len() {
            self.entries.set(i, (name, value));
        } else {
            self.entries.push((name, value));
        }
        proof {
            assert(self@ =~= insert_entry(old(self)@, name@, value@));
            assert forall|k: Seq<char>|
                #[trigger] lookup(self@, k) == (if k == name@ {
                    Some(value@)
                } else {
                    lookup(old(self)@, k)
                }) by {
                lemma_lookup_insert(old(self)@, name@, value@, k);
            }
        }
    }
}

/// The service name that a configuration holds when none was set.
pub open spec fn default_service_name() -> Seq<char> {
    "default-service"@
}

/// The header that may name the service when the configuration does not.
pub open spec fn service_name_header() -> Seq<char> {
    "x-sp-service-name"@
}

/// The service name for an exchange: the configured one unless it is empty or
/// the default, else a non-empty override header, else the configured one.
pub open spec fn service_name_of(hs: Seq<(Seq<char>, Seq<char>)>, configured: Seq<char>) -> Seq<
    char,
> {
    if configured.len() > 0 && configured != default_service_name() {
        configured
    } else {
        match lookup(hs, service_name_header()) {
            Some(v) if v.len() > 0 => v,
            _ => configured,
        }
    }
}

/// Detects the service name from the configuration or the request headers.
pub fn detect_service_name(request_headers: &HeaderMap, config_service_name: &str) -> (r: String)
    ensures
        r@ == service_name_of(request_headers@, config_service_name@),
{
    let cfg = chars_of(config_service_name);
    if cfg.len() > 0 && !str_eq(config_service_name, "default-service") {
        return string_of(&cfg);
    }
    match request_headers.get("x-sp-service-name") {
        Some(v) => {
            if v.as_str().is_empty() {
                string_of(&cfg)
            } else {
                v
            }
        },
        None => string_of(&cfg),
    }
}

/// The name of the state-style carrier header.
pub open spec fn tracestate_header() -> Seq<char> {
    "tracestate"@
}

/// Prefix of the private trace entry in the carrier header.
pub open spec fn trace_entry_prefix() -> Seq<char> {
    "x-sp-traceparent="@
}

/// Prefix of the private session entry in the carrier header.
pub open spec fn session_entry_prefix() -> Seq<char> {
    "x-sp-session-id="@
}

/// The entries of a carrier header value: its comma-separated pieces, trimmed.
pub open spec fn carrier_entries(ts: Seq<char>) -> Seq<Seq<char>> {
    trimmed_all(split_on(ts, ','))
}

/// Each text of `es`, trimmed.
pub open spec fn trimmed_all(es: Seq<Seq<char>>) -> Seq<Seq<char>> {
    es.map_values(|e: Seq<char>| trim(e))
}

/// The entries of the carrier header among `hs`; none when it is absent.
pub open spec fn carrier_entries_of(hs: Seq<(Seq<char>, Seq<char>)>) -> Seq<Seq<char>> {
    match lookup(hs, tracestate_header()) {
        Some(ts) => carrier_entries(ts),
        None => Seq::empty(),
    }
}

/// The entries of a carrier header value.
pub fn carrier_entry_list(ts: &str) -> (r: Vec<Vec<char>>)
    ensures
        views(r@) == carrier_entries(ts@),
{
    let v = chars_of(ts);
    let pieces = split_chars(&v, ',');
    let mut r: Vec<Vec<char>> = Vec::new();
    let mut i: usize = 0;
    while i < pieces.len()
        invariant
            i <= pieces@.len(),
            views(pieces@) == split_on(ts@, ','),
            views(r@) == carrier_entries(ts@).take(i as int),
        decreases pieces@.len() - i,
    {
        let piece = &pieces[i];
        let entry = trim_range(piece, 0, piece.len());
        proof {
            assert(piece@.subrange(0, piece@.len() as int) =~= piece@);
            assert(views(pieces@)[i as int] == piece@);
            assert(carrier_entries(ts@)[i as int] == trim(split_on(ts@, ',')[i as int]));
        }
        let ghost before = r@;
        r.push(entry);
        i = i + 1;
        proof {
            assert(views(r@) =~= views(before).push(entry@));
            assert(views(r@) =~= carrier_entries(ts@).take(i as int));
        }
    }
    proof {
        assert(carrier_entries(ts@).take(pieces@.len() as int) =~= carrier_entries(ts@));
    }
    r
}

/// The carrier entries among some headers.
pub fn carrier_entries_in(hs: &HeaderMap) -> (r: Vec<Vec<char>>)
    ensures
        views(r@) == carrier_entries_of(hs@),
{
    match hs.get("tracestate") {
        Some(ts) => carrier_entry_list(ts.as_str()),
        None => {
            let r: Vec<Vec<char>> = Vec::new();
            proof {
                assert(views(r@) =~= Seq::<Seq<char>>::empty());
            }
            r
        },
    }
}

/// `es` without the private trace entries.
pub open spec fn without_trace_entries(es: Seq<Seq<char>>) -> Seq<Seq<char>>
    decreases es.len(),
{
    if es.len() == 0 {
        es
    } else if has_prefix(es.last(), trace_entry_prefix()) {
        without_trace_entries(es.drop_last())
    } else {
        without_trace_entries(es.drop_last()).push(es.last())
    }
}

/// The third-party entries of `es`: those that start with neither private prefix.
pub open spec fn third_party_entries(es: Seq<Seq<char>>) -> Seq<Seq<char>>
    decreases es.len(),
{
    if es.len() == 0 {
        es
    } else if has_prefix(es.last(), trace_entry_prefix()) || has_prefix(
        es.last(),
        session_entry_prefix(),
    ) {
        third_party_entries(es.drop_last())
    } else {
        third_party_entries(es.drop_last()).push(es.last())
    }
}

proof fn lemma_third_party_concat(a: Seq<Seq<char>>, b: Seq<Seq<char>>)
    ensures
        third_party_entries(a + b) == third_party_entries(a) + third_party_entries(b),
    decreases b.len(),
{
    if b.len() == 0 {
        assert(a + b =~= a);
    } else {
        lemma_third_party_concat(a, b.drop_last());
        assert((a + b).drop_last() =~= a + b.drop_last());
        assert((a + b).last() == b.last());
        assert((third_party_entries(a) + third_party_entries(b.drop_last())).push(b.last())
            =~= third_party_entries(a) + third_party_entries(b.drop_last()).push(b.last()));
    }
}

proof fn lemma_third_party_without_trace(es: Seq<Seq<char>>)
    ensures
        third_party_entries(without_trace_entries(es)) == third_party_entries(es),
    decreases es.len(),
{
    if es.len() > 0 {
        lemma_third_party_without_trace(es.drop_last());
        let w = without_trace_entries(es.drop_last());
        if !has_prefix(es.last(), trace_entry_prefix()) {
            assert(w.push(es.last()).drop_last() =~= w);
        }
    }
}

/// A carrier entry is clean: no comma, and trimmed.
pub open spec fn clean_entry(e: Seq<char>) -> bool {
    lacks(e, ',') && trim(e) == e
}

proof fn lemma_without_trace_clean(es: Seq<Seq<char>>)
    requires
        forall|i: int| 0 <= i < es.len() ==> clean_entry(#[trigger] es[i]),
    ensures
        forall|i: int|
            0 <= i < without_trace_entries(es).len() ==> clean_entry(
                #[trigger] without_trace_entries(es)[i],
            ),
    decreases es.len(),
{
    if es.len() > 0 {
        let init = es.drop_last();
        assert forall|i: int| 0 <= i < init.len() implies clean_entry(#[trigger] init[i]) by {
            assert(init[i] == es[i]);
        }
        lemma_without_trace_clean(init);
        let w = without_trace_entries(init);
        if !has_prefix(es.last(), trace_entry_prefix()) {
            assert forall|i: int| 0 <= i < w.push(es.last()).len() implies clean_entry(
                #[trigger] w.push(es.last())[i],
            ) by {
                if i < w.len() {
                    assert(w.push(es.last())[i] == w[i]);
                } else {
                    assert(es.last() == es[es.len() - 1]);
                }
            }
        }
    }
}

proof fn lemma_third_party_private(e: Seq<char>)
    requires
        has_prefix(e, trace_entry_prefix()) || has_prefix(e, session_entry_prefix()),
    ensures
        third_party_entries(seq![e]) == Seq::<Seq<char>>::empty(),
{
    let one = seq![e];
    assert(one.last() == e);
    assert(one.drop_last() =~= Seq::<Seq<char>>::empty());
    assert(third_party_entries(one.drop_last()) == one.drop_last());
    assert(third_party_entries(one) == third_party_entries(one.drop_last()));
}

proof fn lemma_carrier_entries_clean(ts: Seq<char>)
    ensures
        forall|i: int|
            0 <= i < carrier_entries(ts).len() ==> clean_entry(#[trigger] carrier_entries(ts)[i]),
{
    lemma_split_pieces_lack(ts, ',');
    assert forall|i: int| 0 <= i < carrier_entries(ts).len() implies clean_entry(
        #[trigger] carrier_entries(ts)[i],
    ) by {
        let piece = split_on(ts, ',')[i];
        assert(lacks(piece, ','));
        lemma_trim_idempotent(piece, ',');
    }
}

proof fn lemma_private_entry(prefix: Seq<char>, v: Seq<char>)
    requires
        lacks(v, ','),
        prefix.len() > 0,
        lacks(prefix, ','),
        !is_ws(prefix[0]),
        !is_ws(prefix.last()),
    ensures
        lacks(prefix + v, ','),
        has_prefix(prefix + v, prefix),
        has_prefix(trim(prefix + v), prefix),
        clean_value(v) ==> clean_entry(prefix + v),
{
    let e = prefix + v;
    assert(e.take(prefix.len() as int) =~= prefix);
    assert forall|i: int| 0 <= i < e.len() implies #[trigger] e[i] != ',' by {
        if i < prefix.len() {
            assert(e[i] == prefix[i]);
        } else {
            assert(e[i] == v[i - prefix.len()]);
        }
    }
    lemma_trim_keeps_prefix(e, prefix);
    if clean_value(v) {
        if v.len() == 0 {
            assert(e.last() == prefix.last());
        } else {
            assert(e.last() == v.last());
        }
        assert(e[0] == prefix[0]);
        lemma_trim_clean(e);
    }
}

proof fn lemma_prefix_literals()
    ensures
        trace_entry_prefix().len() > 0,
        lacks(trace_entry_prefix(), ','),
        !is_ws(trace_entry_prefix()[0]),
        !is_ws(trace_entry_prefix().last()),
        session_entry_prefix().len() > 0,
        lacks(session_entry_prefix(), ','),
        !is_ws(session_entry_prefix()[0]),
        !is_ws(session_entry_prefix().last()),
        forall|e: Seq<char>|
            !(#[trigger] has_prefix(e, trace_entry_prefix()) && has_prefix(e, session_entry_prefix())),
{
    reveal_strlit("x-sp-traceparent=");
    reveal_strlit("x-sp-session-id=");
    assert forall|e: Seq<char>|
        !(#[trigger] has_prefix(e, trace_entry_prefix()) && has_prefix(e, session_entry_prefix())) by {
        if has_prefix(e, trace_entry_prefix()) && has_prefix(e, session_entry_prefix()) {
            assert(e.take(17)[5] == e[5]);
            assert(e.take(16)[5] == e[5]);
        }
    }
}

proof fn lemma_trimmed_entries(a: Seq<Seq<char>>, b: Seq<Seq<char>>)
    ensures
        trimmed_all(a + b) == trimmed_all(a) + trimmed_all(b),
{
    assert(trimmed_all(a + b) =~= trimmed_all(a) + trimmed_all(b));
}

proof fn lemma_clean_trimmed(es: Seq<Seq<char>>)
    requires
        forall|i: int| 0 <= i < es.len() ==> clean_entry(#[trigger] es[i]),
    ensures
        trimmed_all(es) == es,
{
    assert forall|i: int| 0 <= i < es.len() implies #[trigger] trimmed_all(es)[i] == es[i] by {
        assert(clean_entry(es[i]));
    }
    assert(trimmed_all(es) =~= es);
}

/// The entries of a joined list lacking commas are the list's items, trimmed.
proof fn lemma_entries_of_join(es: Seq<Seq<char>>)
    requires
        es.len() > 0,
        forall|i: int| 0 <= i < es.len() ==> lacks(#[trigger] es[i], ','),
    ensures
        carrier_entries(join_with(es, ',')) == trimmed_all(es),
{
    lemma_split_join(es, ',');
}

/// Rewriting the carrier header keeps its third-party entries verbatim and in
/// order, when the new private values hold no comma.
pub proof fn lemma_rewrite_keeps_third_party(ts: Seq<char>, tp: Seq<char>, sid: Seq<char>)
    requires
        lacks(tp, ','),
        lacks(sid, ','),
    ensures
        third_party_entries(carrier_entries(join_with(rebuilt_entries(Some(ts), tp, sid), ',')))
            == third_party_entries(carrier_entries(ts)),
{
    lemma_prefix_literals();
    let tpp = trace_entry_prefix();
    let spp = session_entry_prefix();
    lemma_private_entry(tpp, tp);
    lemma_private_entry(spp, sid);
    let es = carrier_entries(ts);
    let kept = without_trace_entries(es);
    lemma_carrier_entries_clean(ts);
    lemma_without_trace_clean(es);
    let head = seq![tpp + tp];
    let entries = rebuilt_entries(Some(ts), tp, sid);
    let with_sid = !has_session_entry(es) && sid.len() > 0;
    let front = if with_sid {
        head + seq![spp + sid]
    } else {
        head
    };
    assert(entries =~= front + kept);
    assert forall|i: int| 0 <= i < entries.len() implies lacks(#[trigger] entries[i], ',') by {
        if i >= front.len() {
            assert(entries[i] == kept[i - front.len()]);
            assert(clean_entry(kept[i - front.len()]));
        }
    }
    lemma_entries_of_join(entries);
    lemma_trimmed_entries(front, kept);
    lemma_clean_trimmed(kept);
    let tfront = trimmed_all(front);
    lemma_third_party_concat(tfront, kept);
    lemma_third_party_without_trace(es);
    lemma_third_party_private(trim(tpp + tp));
    if with_sid {
        assert(tfront =~= seq![trim(tpp + tp)] + seq![trim(spp + sid)]);
        lemma_third_party_concat(seq![trim(tpp + tp)], seq![trim(spp + sid)]);
        lemma_third_party_private(trim(spp + sid));
    } else {
        assert(tfront =~= seq![trim(tpp + tp)]);
    }
    assert(third_party_entries(tfront) =~= Seq::<Seq<char>>::empty());
    assert(third_party_entries(tfront + kept) =~= third_party_entries(es));
}

/// Rewriting the carrier header twice keeps the same third-party entries as
/// rewriting it once.
pub proof fn lemma_rewrite_twice_keeps_third_party(
    ts: Seq<char>,
    trace_value: Seq<char>,
    session_value: Seq<char>,
    next_trace_value: Seq<char>,
    next_session_value: Seq<char>,
)
    requires
        lacks(trace_value, ','),
        lacks(session_value, ','),
        lacks(next_trace_value, ','),
        lacks(next_session_value, ','),
    ensures
        ({
            let once = join_with(rebuilt_entries(Some(ts), trace_value, session_value), ',');
            let twice = join_with(rebuilt_entries(Some(once), next_trace_value, next_session_value), ',');
            third_party_entries(carrier_entries(twice)) == third_party_entries(carrier_entries(once))
                && third_party_entries(carrier_entries(twice)) == third_party_entries(
                carrier_entries(ts),
            )
        }),
{
    let once = join_with(rebuilt_entries(Some(ts), trace_value, session_value), ',');
    lemma_rewrite_keeps_third_party(ts, trace_value, session_value);
    lemma_rewrite_keeps_third_party(once, next_trace_value, next_session_value);
}

/// A value for a private entry that survives a second rewrite as it is: no
/// comma, not ending in white space.
pub open spec fn clean_value(v: Seq<char>) -> bool {
    lacks(v, ',') && (v.len() == 0 || !is_ws(v.last()))
}

proof fn lemma_without_concat(a: Seq<Seq<char>>, b: Seq<Seq<char>>)
    ensures
        without_trace_entries(a + b) == without_trace_entries(a) + without_trace_entries(b),
    decreases b.len(),
{
    if b.len() == 0 {
        assert(a + b =~= a);
        assert(without_trace_entries(a) + without_trace_entries(b) =~= without_trace_entries(a));
    } else {
        lemma_without_concat(a, b.drop_last());
        assert((a + b).drop_last() =~= a + b.drop_last());
        assert((a + b).last() == b.last());
        assert((without_trace_entries(a) + without_trace_entries(b.drop_last())).push(b.last())
            =~= without_trace_entries(a) + without_trace_entries(b.drop_last()).push(b.last()));
    }
}

proof fn lemma_without_single(e: Seq<char>)
    ensures
        without_trace_entries(seq![e]) == (if has_prefix(e, trace_entry_prefix()) {
            Seq::<Seq<char>>::empty()
        } else {
            seq![e]
        }),
{
    let one = seq![e];
    assert(one.last() == e);
    assert(one.drop_last() =~= Seq::<Seq<char>>::empty());
    assert(without_trace_entries(one.drop_last()) == one.drop_last());
    assert(one.drop_last().push(e) =~= one);
}

proof fn lemma_without_idempotent(es: Seq<Seq<char>>)
    ensures
        without_trace_entries(without_trace_entries(es)) == without_trace_entries(es),
    decreases es.len(),
{
    if es.len() > 0 {
        lemma_without_idempotent(es.drop_last());
        let w = without_trace_entries(es.drop_last());
        if !has_prefix(es.last(), trace_entry_prefix()) {
            assert(w.push(es.last()).drop_last() =~= w);
            assert(w.push(es.last()).last() == es.last());
        }
    }
}

proof fn lemma_has_session_push(es: Seq<Seq<char>>, x: Seq<char>)
    ensures
        has_session_entry(es.push(x)) == (has_session_entry(es) || has_prefix(x, session_entry_prefix())),
{
    let p = es.push(x);
    if has_session_entry(es) {
        let w = choose|w: int| 0 <= w < es.len() && has_prefix(#[trigger] es[w], session_entry_prefix());
        assert(p[w] == es[w]);
    }
    if has_prefix(x, session_entry_prefix()) {
        assert(p[es.len() as int] == x);
    }
    if has_session_entry(p) {
        let w = choose|w: int| 0 <= w < p.len() && has_prefix(#[trigger] p[w], session_entry_prefix());
        if w < es.len() {
            assert(p[w] == es[w]);
        }
    }
}

proof fn lemma_without_keeps_session(es: Seq<Seq<char>>)
    ensures
        has_session_entry(without_trace_entries(es)) == has_session_entry(es),
    decreases es.len(),
{
    if es.len() == 0 {
        return;
    }
    lemma_prefix_literals();
    lemma_without_keeps_session(es.drop_last());
    assert(es.drop_last().push(es.last()) =~= es);
    lemma_has_session_push(es.drop_last(), es.last());
    let w = without_trace_entries(es.drop_last());
    if !has_prefix(es.last(), trace_entry_prefix()) {
        lemma_has_session_push(w, es.last());
    }
}

/// Rewriting an already rewritten carrier header again with the same values
/// gives the same header, when the values hold no comma and do not end in
/// white space.
pub proof fn lemma_rewrite_idempotent(existing: Option<Seq<char>>, tp: Seq<char>, sid: Seq<char>)
    requires
        clean_value(tp),
        clean_value(sid),
    ensures
        join_with(
            rebuilt_entries(Some(join_with(rebuilt_entries(existing, tp, sid), ',')), tp, sid),
            ',',
        ) == join_with(rebuilt_entries(existing, tp, sid), ','),
{
    lemma_prefix_literals();
    let tpp = trace_entry_prefix();
    let spp = session_entry_prefix();
    lemma_private_entry(tpp, tp);
    lemma_private_entry(spp, sid);
    let es = match existing {
        Some(ts) => carrier_entries(ts),
        None => Seq::<Seq<char>>::empty(),
    };
    match existing {
        Some(ts) => lemma_carrier_entries_clean(ts),
        None => {},
    }
    let kept = without_trace_entries(es);
    lemma_without_trace_clean(es);
    let head = seq![tpp + tp];
    let with_sid = !has_session_entry(es) && sid.len() > 0;
    let front = if with_sid {
        head + seq![spp + sid]
    } else {
        head
    };
    let e1 = rebuilt_entries(existing, tp, sid);
    assert(e1 =~= front + kept);
    assert forall|i: int| 0 <= i < e1.len() implies clean_entry(#[trigger] e1[i]) by {
        if i >= front.len() {
            assert(e1[i] == kept[i - front.len()]);
        }
    }
    assert forall|i: int| 0 <= i < e1.len() implies lacks(#[trigger] e1[i], ',') by {
        assert(clean_entry(e1[i]));
    }
    lemma_entries_of_join(e1);
    lemma_clean_trimmed(e1);
    let es2 = carrier_entries(join_with(e1, ','));
    assert(es2 == e1);
    lemma_without_concat(front, kept);
    lemma_without_idempotent(es);
    lemma_without_single(tpp + tp);
    if with_sid {
        lemma_without_concat(head, seq![spp + sid]);
        lemma_without_single(spp + sid);
        assert(without_trace_entries(front) =~= seq![spp + sid]);
        assert(e1[1] == spp + sid);
        assert(has_session_entry(e1));
    } else {
        assert(without_trace_entries(front) =~= Seq::<Seq<char>>::empty());
        if has_session_entry(es) {
            lemma_without_keeps_session(es);
            let w = choose|w: int| 0 <= w < kept.len() && has_prefix(#[trigger] kept[w], spp);
            assert(e1[front.len() + w] == kept[w]);
            assert(has_session_entry(e1));
        }
    }
    assert(rebuilt_entries(Some(join_with(e1, ',')), tp, sid) =~= e1);
}

/// Some entry of `es` is a private session entry.
pub open spec fn has_session_entry(es: Seq<Seq<char>>) -> bool {
    exists|i: int| 0 <= i < es.len() && has_prefix(#[trigger] es[i], session_entry_prefix())
}

/// The entries of the rewritten carrier header: the private trace entry first,
/// a private session entry second when none was present and `sid` is not
/// empty, then every earlier entry but the old private trace entries.
pub open spec fn rebuilt_entries(existing: Option<Seq<char>>, tp: Seq<char>, sid: Seq<char>) -> Seq<
    Seq<char>,
> {
    let es = match existing {
        Some(ts) => carrier_entries(ts),
        None => Seq::empty(),
    };
    let head = seq![trace_entry_prefix() + tp];
    if !has_session_entry(es) && sid.len() > 0 {
        head + seq![session_entry_prefix() + sid] + without_trace_entries(es)
    } else {
        head + without_trace_entries(es)
    }
}

/// Builds the new carrier header value with the private trace entry `traceparent_value`.
pub fn build_new_tracestate(request_headers: &HeaderMap, traceparent_value: &str, session_id: &str) -> (r:
    String)
    ensures
        r@ == join_with(
            rebuilt_entries(
                lookup(request_headers@, tracestate_header()),
                traceparent_value@,
                session_id@,
            ),
            ',',
        ),
{
    let tp_prefix = chars_of("x-sp-traceparent=");
    let sid_prefix = chars_of("x-sp-session-id=");
    let entries = carrier_entries_in(request_headers);
    let ghost es = views(entries@);
    let mut kept: Vec<String> = Vec::new();
    let mut has_sid = false;
    let mut i: usize = 0;
    while i < entries.len()
        invariant
            i <= entries@.len(),
            es == views(entries@),
            es == carrier_entries_of(request_headers@),
            tp_prefix@ == trace_entry_prefix(),
            sid_prefix@ == session_entry_prefix(),
            string_views(kept@) == without_trace_entries(es.take(i as int)),
            has_sid == has_session_entry(es.take(i as int)),
        decreases entries@.len() - i,
    {
        let entry = &entries[i];
        proof {
            assert(es[i as int] == entry@);
            assert(es.take(i + 1).drop_last() =~= es.take(i as int));
            assert(es.take(i + 1).last() == entry@);
        }
        let is_sid = starts_with_chars(entry, &sid_prefix);
        let is_tp = starts_with_chars(entry, &tp_prefix);
        if is_sid {
            has_sid = true;
        }
        if !is_tp {
            kept.push(string_of(entry));
        }
        i = i + 1;
        proof {
            assert(string_views(kept@) =~= without_trace_entries(es.take(i as int)));
            let t = es.take(i as int);
            if has_sid {
                if is_sid {
                    assert(has_prefix(t[i - 1], session_entry_prefix()));
                } else {
                    let w = choose|w: int|
                        0 <= w < i - 1 && has_prefix(
                            #[trigger] es.take(i - 1)[w],
                            session_entry_prefix(),
                        );
                    assert(t[w] == es.take(i - 1)[w]);
                }
            } else {
                assert forall|w: int| 0 <= w < t.len() implies !has_prefix(
                    #[trigger] t[w],
                    session_entry_prefix(),
                ) by {
                    if w < i - 1 {
                        assert(t[w] == es.take(i - 1)[w]);
                    }
                }
            }
        }
    }
    proof {
        assert(es.take(entries@.len() as int) =~= es);
    }
    let mut out: Vec<String> = Vec::new();
    let mut first = string_of(&tp_prefix);
    crate::text::push_str_chars(&mut first, traceparent_value);
    out.push(first);
    if !has_sid && !session_id.is_empty() {
        let mut second = string_of(&sid_prefix);
        crate::text::push_str_chars(&mut second, session_id);
        out.push(second);
    }
    let ghost head = string_views(out@);
    let mut j: usize = 0;
    while j < kept.len()
        invariant
            j <= kept@.len(),
            string_views(out@) == head + string_views(kept@).take(
                j as int,
            ),
        decreases kept@.len() - j,
    {
        let ghost before = out@;
        out.push(kept[j].clone());
        j = j + 1;
        proof {
            assert(out@ == before.push(kept@[j - 1]));
            assert(string_views(out@) =~= string_views(before).push(kept@[j - 1]@));
        }
        proof {
            assert(string_views(out@) =~= head + string_views(kept@).take(
                j as int,
            ));
        }
    }
    proof {
        assert(string_views(kept@).take(kept@.len() as int) =~= string_views(kept@));
        assert(string_views(out@) =~= rebuilt_entries(
            lookup(request_headers@, tracestate_header()),
            traceparent_value@,
            session_id@,
        ));
    }
    join_strings(&out, ',')
}

} // verus!
