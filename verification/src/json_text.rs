//! JSON text. `serde_json` reads the text; its numbers are kept as the
//! text it prints for them, and reading that text into the library's exact
//! numbers is done here.
use vstd::prelude::*;
use crate::assembly::{digits_value, is_ascii_digit};
use crate::env_config::{first_index, lemma_first_index_at, lemma_first_index_none};
use crate::json::{entries_model, items_model, lemma_entries_model, lemma_items_model, Decimal, Json, JsonView, Number};
use crate::text::{chars_of, str_eq};

verus! {

broadcast use vstd::string::group_string_axioms;

/// The `serde_json` crate's value type, carried as it is.
#[verifier::external_type_specification]
#[verifier::external_body]
pub struct ExJsonValue(serde_json::Value);

/// A JSON document as `serde_json` reads it, a number as the text it prints.
#[derive(Debug)]
pub enum RawJson {
    Null,
    Bool(bool),
    Num(String),
    Str(String),
    Array(Vec<RawJson>),
    Object(Vec<(String, RawJson)>),
}

/// A raw document with its strings and lists as sequences.
pub enum RawJsonView {
    Null,
    Bool(bool),
    Num(Seq<char>),
    Str(Seq<char>),
    Array(Seq<RawJsonView>),
    Object(Seq<(Seq<char>, RawJsonView)>),
}

impl RawJson {
    pub open spec fn model(self) -> RawJsonView
        decreases self, 0int,
    {
        match self {
            RawJson::Null => RawJsonView::Null,
            RawJson::Bool(b) => RawJsonView::Bool(b),
            RawJson::Num(t) => RawJsonView::Num(t@),
            RawJson::Str(s) => RawJsonView::Str(s@),
            RawJson::Array(a) => {
                proof {
                    assert(decreases_to!(self => a));
                    assert(decreases_to!(a => a@));
                }
                RawJsonView::Array(raw_items_model(a@, a@.len() as int))
            },
            RawJson::Object(o) => {
                proof {
                    assert(decreases_to!(self => o));
                    assert(decreases_to!(o => o@));
                }
                RawJsonView::Object(raw_entries_model(o@, o@.len() as int))
            },
        }
    }
}

/// The models of the first `n` items.
pub open spec fn raw_items_model(items: Seq<RawJson>, n: int) -> Seq<RawJsonView>
    decreases items, n,
{
    if n <= 0 || n > items.len() {
        Seq::empty()
    } else {
        proof {
            assert(decreases_to!(items => items[n - 1]));
        }
        raw_items_model(items, n - 1).push(items[n - 1].model())
    }
}

/// The models of the first `n` entries.
pub open spec fn raw_entries_model(entries: Seq<(String, RawJson)>, n: int) -> Seq<(Seq<char>, RawJsonView)>
    decreases entries, n,
{
    if n <= 0 || n > entries.len() {
        Seq::empty()
    } else {
        proof {
            assert(decreases_to!(entries => entries[n - 1]));
            assert(decreases_to!(entries[n - 1] => entries[n - 1].1));
        }
        raw_entries_model(entries, n - 1).push((entries[n - 1].0@, entries[n - 1].1.model()))
    }
}

pub proof fn lemma_raw_items_model(items: Seq<RawJson>, n: int)
    requires
        0 <= n <= items.len(),
    ensures
        raw_items_model(items, n).len() == n,
        forall|k: int| 0 <= k < n ==> #[trigger] raw_items_model(items, n)[k] == items[k].model(),
    decreases n,
{
    if n > 0 {
        lemma_raw_items_model(items, n - 1);
    }
}

pub proof fn lemma_raw_entries_model(entries: Seq<(String, RawJson)>, n: int)
    requires
        0 <= n <= entries.len(),
    ensures
        raw_entries_model(entries, n).len() == n,
        forall|k: int|
            0 <= k < n ==> #[trigger] raw_entries_model(entries, n)[k] == (entries[k].0@, entries[k].1.model()),
    decreases n,
{
    if n > 0 {
        lemma_raw_entries_model(entries, n - 1);
    }
}

/// What `serde_json::from_str` reads from a text; none when the text is not
/// a JSON document.
pub uninterp spec fn json_text_document(text: Seq<char>) -> Option<RawJsonView>;

/// The message `serde_json` gives for a text it cannot read.
pub uninterp spec fn json_text_error(text: Seq<char>) -> Seq<char>;

/// Reads a JSON document with `serde_json::from_str` into a
/// `serde_json::Value`, then takes it over variant by variant; on failure,
/// the error as `serde_json` prints it.
#[verifier::external_body]
pub fn parse_json_text(text: &str) -> (r: Result<RawJson, String>)
    ensures
        match json_text_document(text@) {
            Some(d) => r matches Ok(j) && j.model() == d,
            None => r matches Err(m) && m@ == json_text_error(text@),
        },
{
    match serde_json::from_str::<serde_json::Value>(text) {
        Ok(v) => Ok(RawJson::from_value(v)),
        Err(e) => Err(e.to_string()),
    }
}

impl RawJson {
    /// The `serde_json::Value` as a `RawJson`, one variant for one, a number
    /// as the text `serde_json` prints for it. It is called only by
    /// `parse_json_text`, whose contract covers the result.
    #[verifier::external_body]
    fn from_value(v: serde_json::Value) -> RawJson {
        match v {
            serde_json::Value::Null => RawJson::Null,
            serde_json::Value::Bool(b) => RawJson::Bool(b),
            serde_json::Value::Number(n) => RawJson::Num(n.to_string()),
            serde_json::Value::String(s) => RawJson::Str(s),
            serde_json::Value::Array(a) => RawJson::Array(a.into_iter().map(RawJson::from_value).collect()),
            serde_json::Value::Object(m) => RawJson::Object(m.into_iter().map(|(k, x)| (k, RawJson::from_value(x))).collect()),
        }
    }
}

// ---------------------------------------------------------------------------
// Number text.

pub open spec fn all_digits(s: Seq<char>) -> bool {
    forall|k: int| 0 <= k < s.len() ==> is_ascii_digit(#[trigger] s[k])
}

pub open spec fn signed_value(neg: bool, v: nat) -> int {
    if neg {
        -(v as int)
    } else {
        v as int
    }
}

/// The exact number a number text stands for, when the library can hold
/// it: an integer that `i64` or `u64` holds, or a plain decimal
/// `digits.digits` with at most 18 decimals whose digits fit an `i64`.
/// A text with an exponent is not held.
pub open spec fn number_of_text(t: Seq<char>) -> Option<Number> {
    let neg = t.len() > 0 && t[0] == '-';
    let body = if neg { t.drop_first() } else { t };
    match first_index(body, '.') {
        None => {
            let v = signed_value(neg, digits_value(body));
            if body.len() > 0 && all_digits(body) && -0x8000_0000_0000_0000 <= v <= 0xffff_ffff_ffff_ffff {
                Some(Number::Int(v as i128))
            } else {
                None
            }
        },
        Some(i) => {
            let ip = body.subrange(0, i);
            let fp = body.subrange(i + 1, body.len() as int);
            let m = signed_value(neg, digits_value(ip + fp));
            if ip.len() > 0 && fp.len() > 0 && fp.len() <= 18 && all_digits(ip) && all_digits(fp)
                && i64::MIN <= m <= i64::MAX {
                Some(Number::Frac(Decimal { mantissa: m as i64, scale: fp.len() as u8 }))
            } else {
                None
            }
        },
    }
}

pub const DIGITS_LIMIT: u128 = 0x1_0000_0000_0000_0000;

proof fn lemma_digits_grow(d: Seq<char>, n: int)
    requires
        0 <= n <= d.len(),
    ensures
        digits_value(d) >= digits_value(d.subrange(0, n)),
    decreases d.len() - n,
{
    if n < d.len() {
        lemma_digits_grow(d, n + 1);
        assert(d.subrange(0, n + 1).drop_last() =~= d.subrange(0, n));
    }
    if n == d.len() {
        assert(d.subrange(0, n) =~= d);
    }
}

/// The value of the digits, when they are all digits and the value is at
/// most 2^64.
fn read_digits(d: &Vec<char>) -> (r: Option<u128>)
    ensures
        match r {
            Some(v) => all_digits(d@) && v == digits_value(d@) && v <= DIGITS_LIMIT,
            None => !all_digits(d@) || digits_value(d@) > DIGITS_LIMIT,
        },
{
    let mut acc: u128 = 0;
    let mut i: usize = 0;
    while i < d.len()
        invariant
            i <= d@.len(),
            all_digits(d@.subrange(0, i as int)),
            acc == digits_value(d@.subrange(0, i as int)),
            acc <= DIGITS_LIMIT,
        decreases d.len() - i,
    {
        let c = d[i];
        assert(d@.subrange(0, i + 1).drop_last() =~= d@.subrange(0, i as int));
        assert(d@.subrange(0, i + 1).last() == c);
        if !('0' <= c && c <= '9') {
            assert(!all_digits(d@)) by {
                assert(!is_ascii_digit(d@[i as int]));
            }
            return None;
        }
        let dv = (c as u32 - '0' as u32) as u128;
        let next = acc * 10 + dv;
        assert(next == digits_value(d@.subrange(0, i + 1)));
        if next > DIGITS_LIMIT {
            proof {
                lemma_digits_grow(d@, i + 1);
            }
            return None;
        }
        acc = next;
        i = i + 1;
    }
    assert(d@.subrange(0, d@.len() as int) =~= d@);
    Some(acc)
}

/// The chars of `c` from `a` to `b`.
fn slice_chars(c: &Vec<char>, a: usize, b: usize) -> (r: Vec<char>)
    requires
        a <= b <= c@.len(),
    ensures
        r@ == c@.subrange(a as int, b as int),
{
    let mut r: Vec<char> = Vec::new();
    let mut i: usize = a;
    while i < b
        invariant
            a <= i <= b,
            b <= c@.len(),
            r@ == c@.subrange(a as int, i as int),
        decreases b - i,
    {
        r.push(c[i]);
        i = i + 1;
        assert(r@ =~= c@.subrange(a as int, i as int));
    }
    r
}

/// The exact number a number text stands for, when the library can hold it.
pub fn number_from_text(t: &str) -> (r: Option<Number>)
    ensures
        r == number_of_text(t@),
{
    let c = chars_of(t);
    let n = c.len();
    let neg = n > 0 && c[0] == '-';
    let start: usize = if neg { 1 } else { 0 };
    let body = slice_chars(&c, start, n);
    assert(body@ =~= (if neg { t@.drop_first() } else { t@ }));
    let mut dot: usize = 0;
    while dot < body.len() && body[dot] != '.'
        invariant
            dot <= body@.len(),
            forall|k: int| 0 <= k < dot ==> body@[k] != '.',
        decreases body.len() - dot,
    {
        dot = dot + 1;
    }
    let found = dot < body.len();
    if !found {
        proof {
            lemma_first_index_none(body@, '.');
        }
        if body.len() == 0 {
            return None;
        }
        match read_digits(&body) {
            Some(v) => {
                if neg {
                    if v <= 0x8000_0000_0000_0000 {
                        Some(Number::Int(-(v as i128)))
                    } else {
                        None
                    }
                } else if v <= 0xffff_ffff_ffff_ffff {
                    Some(Number::Int(v as i128))
                } else {
                    None
                }
            },
            None => None,
        }
    } else {
        proof {
            lemma_first_index_at(body@, '.', dot as int);
        }
        let ip = slice_chars(&body, 0, dot);
        let fp = slice_chars(&body, dot + 1, body.len());
        if ip.len() == 0 || fp.len() == 0 || fp.len() > 18 {
            return None;
        }
        let mut d = ip.clone();
        let mut k: usize = 0;
        while k < fp.len()
            invariant
                k <= fp@.len(),
                d@ == ip@ + fp@.subrange(0, k as int),
            decreases fp.len() - k,
        {
            d.push(fp[k]);
            k = k + 1;
            assert(d@ =~= ip@ + fp@.subrange(0, k as int));
        }
        assert(fp@.subrange(0, fp@.len() as int) =~= fp@);
        proof {
            assert(all_digits(d@) == (all_digits(ip@) && all_digits(fp@))) by {
                if all_digits(ip@) && all_digits(fp@) {
                    assert forall|q: int| 0 <= q < d@.len() implies is_ascii_digit(#[trigger] d@[q]) by {
                        if q < ip@.len() {
                            assert(d@[q] == ip@[q]);
                        } else {
                            assert(d@[q] == fp@[q - ip@.len()]);
                        }
                    }
                }
                if all_digits(d@) {
                    assert forall|q: int| 0 <= q < ip@.len() implies is_ascii_digit(#[trigger] ip@[q]) by {
                        assert(d@[q] == ip@[q]);
                    }
                    assert forall|q: int| 0 <= q < fp@.len() implies is_ascii_digit(#[trigger] fp@[q]) by {
                        assert(d@[q + ip@.len()] == fp@[q]);
                    }
                }
            }
        }
        match read_digits(&d) {
            Some(v) => {
                if neg {
                    if v <= 0x8000_0000_0000_0000 {
                        let m: i128 = -(v as i128);
                        Some(Number::Frac(Decimal { mantissa: m as i64, scale: fp.len() as u8 }))
                    } else {
                        None
                    }
                } else if v <= 0x7fff_ffff_ffff_ffff {
                    Some(Number::Frac(Decimal { mantissa: v as i64, scale: fp.len() as u8 }))
                } else {
                    None
                }
            },
            None => None,
        }
    }
}

// ---------------------------------------------------------------------------
// From a raw document to the library's JSON.

/// The library's JSON for a raw document: the same shape, each number read
/// exactly; none when a number cannot be held.
pub open spec fn json_of_raw(v: RawJsonView) -> Option<JsonView>
    decreases v, 0int,
{
    match v {
        RawJsonView::Null => Some(JsonView::Null),
        RawJsonView::Bool(b) => Some(JsonView::Bool(b)),
        RawJsonView::Num(t) => match number_of_text(t) {
            Some(n) => Some(JsonView::Num(n)),
            None => None,
        },
        RawJsonView::Str(s) => Some(JsonView::Str(s)),
        RawJsonView::Array(items) => {
            proof {
                assert(decreases_to!(v => items));
            }
            match json_items_of_raw(items, items.len() as int) {
                Some(xs) => Some(JsonView::Array(xs)),
                None => None,
            }
        },
        RawJsonView::Object(es) => {
            proof {
                assert(decreases_to!(v => es));
            }
            match json_entries_of_raw(es, es.len() as int) {
                Some(xs) => Some(JsonView::Object(xs)),
                None => None,
            }
        },
    }
}

pub open spec fn json_items_of_raw(items: Seq<RawJsonView>, n: int) -> Option<Seq<JsonView>>
    decreases items, n,
{
    if n <= 0 || n > items.len() {
        Some(Seq::empty())
    } else {
        proof {
            assert(decreases_to!(items => items[n - 1]));
        }
        match json_items_of_raw(items, n - 1) {
            Some(xs) => match json_of_raw(items[n - 1]) {
                Some(x) => Some(xs.push(x)),
                None => None,
            },
            None => None,
        }
    }
}

pub open spec fn json_entries_of_raw(es: Seq<(Seq<char>, RawJsonView)>, n: int) -> Option<
    Seq<(Seq<char>, JsonView)>,
>
    decreases es, n,
{
    if n <= 0 || n > es.len() {
        Some(Seq::empty())
    } else {
        proof {
            assert(decreases_to!(es => es[n - 1]));
            assert(decreases_to!(es[n - 1] => es[n - 1].1));
        }
        match json_entries_of_raw(es, n - 1) {
            Some(xs) => match json_of_raw(es[n - 1].1) {
                Some(x) => Some(xs.push((es[n - 1].0, x))),
                None => None,
            },
            None => None,
        }
    }
}

proof fn lemma_items_of_raw(items: Seq<RawJsonView>, n: int)
    requires
        0 <= n <= items.len(),
    ensures
        json_items_of_raw(items, n) is Some <==> forall|k: int| 0 <= k < n ==> (#[trigger] json_of_raw(items[k])) is Some,
        json_items_of_raw(items, n) matches Some(xs) ==> xs.len() == n && forall|k: int|
            0 <= k < n ==> Some(#[trigger] xs[k]) == json_of_raw(items[k]),
    decreases n,
{
    if n > 0 {
        lemma_items_of_raw(items, n - 1);
        let last = json_of_raw(items[n - 1]);
        if forall|k: int| 0 <= k < n ==> (#[trigger] json_of_raw(items[k])) is Some {
            assert(forall|k: int| 0 <= k < n - 1 ==> (#[trigger] json_of_raw(items[k])) is Some);
            assert(last is Some);
        }
        if json_items_of_raw(items, n) is Some {
            assert forall|k: int| 0 <= k < n implies (#[trigger] json_of_raw(items[k])) is Some by {
                if k < n - 1 {
                } else {
                    assert(k == n - 1);
                }
            }
        }
    }
}

proof fn lemma_entries_of_raw(es: Seq<(Seq<char>, RawJsonView)>, n: int)
    requires
        0 <= n <= es.len(),
    ensures
        json_entries_of_raw(es, n) is Some <==> forall|k: int| 0 <= k < n ==> (#[trigger] json_of_raw(es[k].1)) is Some,
        json_entries_of_raw(es, n) matches Some(xs) ==> xs.len() == n && forall|k: int|
            0 <= k < n ==> (#[trigger] xs[k]).0 == es[k].0 && Some(xs[k].1) == json_of_raw(es[k].1),
    decreases n,
{
    if n > 0 {
        lemma_entries_of_raw(es, n - 1);
        let last = json_of_raw(es[n - 1].1);
        if forall|k: int| 0 <= k < n ==> (#[trigger] json_of_raw(es[k].1)) is Some {
            assert(forall|k: int| 0 <= k < n - 1 ==> (#[trigger] json_of_raw(es[k].1)) is Some);
            assert(last is Some);
        }
        if json_entries_of_raw(es, n) is Some {
            assert forall|k: int| 0 <= k < n implies (#[trigger] json_of_raw(es[k].1)) is Some by {
                if k < n - 1 {
                } else {
                    assert(k == n - 1);
                }
            }
        }
    }
}

impl Json {
    /// The library's JSON for a document `serde_json` read: the same shape,
    /// each number read exactly; none when a number cannot be held.
    pub fn from_raw(raw: &RawJson) -> (r: Option<Json>)
        ensures
            match r {
                Some(j) => json_of_raw(raw.model()) == Some(j.model()),
                None => json_of_raw(raw.model()) is None,
            },
        decreases raw,
    {
        match raw {
            RawJson::Null => Some(Json::Null),
            RawJson::Bool(b) => Some(Json::Bool(*b)),
            RawJson::Num(t) => match number_from_text(t.as_str()) {
                Some(n) => Some(Json::Num(n)),
                None => None,
            },
            RawJson::Str(s) => Some(Json::Str(s.clone())),
            RawJson::Array(a) => {
                let ghost iv = raw_items_model(a@, a@.len() as int);
                proof {
                    lemma_raw_items_model(a@, a@.len() as int);
                    lemma_items_of_raw(iv, iv.len() as int);
                }
                let mut out: Vec<Json> = Vec::new();
                let mut i: usize = 0;
                while i < a.len()
                    invariant
                        *raw == RawJson::Array(*a),
                        raw.model() == RawJsonView::Array(iv),
                        iv == raw_items_model(a@, a@.len() as int),
                        iv.len() == a@.len(),
                        forall|k: int| 0 <= k < a@.len() ==> #[trigger] iv[k] == a@[k].model(),
                        i <= a@.len(),
                        out@.len() == i,
                        forall|k: int| 0 <= k < i ==> Some((#[trigger] out@[k]).model()) == json_of_raw(iv[k]),
                    decreases a.len() - i,
                {
                    proof {
                        assert(decreases_to!(a@ => a@[i as int]));
                    }
                    match Json::from_raw(&a[i]) {
                        Some(x) => {
                            out.push(x);
                        },
                        None => {
                            assert(json_of_raw(iv[i as int]) is None);
                            proof {
                                lemma_items_of_raw(iv, iv.len() as int);
                            }
                            return None;
                        },
                    }
                    i = i + 1;
                }
                proof {
                    lemma_items_model(out@, out@.len() as int);
                    assert forall|k: int| 0 <= k < iv.len() implies (#[trigger] json_of_raw(iv[k])) is Some by {
                        assert(Some(out@[k].model()) == json_of_raw(iv[k]));
                    }
                    let xs = json_items_of_raw(iv, iv.len() as int)->0;
                    assert(items_model(out@, out@.len() as int) =~= xs);
                }
                Some(Json::Array(out))
            },
            RawJson::Object(o) => {
                let ghost ev = raw_entries_model(o@, o@.len() as int);
                proof {
                    lemma_raw_entries_model(o@, o@.len() as int);
                    lemma_entries_of_raw(ev, ev.len() as int);
                }
                let mut out: Vec<(String, Json)> = Vec::new();
                let mut i: usize = 0;
                while i < o.len()
                    invariant
                        *raw == RawJson::Object(*o),
                        raw.model() == RawJsonView::Object(ev),
                        ev == raw_entries_model(o@, o@.len() as int),
                        ev.len() == o@.len(),
                        forall|k: int| 0 <= k < o@.len() ==> #[trigger] ev[k] == (o@[k].0@, o@[k].1.model()),
                        i <= o@.len(),
                        out@.len() == i,
                        forall|k: int|
                            0 <= k < i ==> (#[trigger] out@[k]).0@ == ev[k].0 && Some(out@[k].1.model())
                                == json_of_raw(ev[k].1),
                    decreases o.len() - i,
                {
                    proof {
                        assert(decreases_to!(o@ => o@[i as int]));
                        assert(decreases_to!(o@[i as int] => o@[i as int].1));
                    }
                    match Json::from_raw(&o[i].1) {
                        Some(x) => {
                            out.push((o[i].0.clone(), x));
                        },
                        None => {
                            assert(json_of_raw(ev[i as int].1) is None);
                            proof {
                                lemma_entries_of_raw(ev, ev.len() as int);
                            }
                            return None;
                        },
                    }
                    i = i + 1;
                }
                proof {
                    lemma_entries_model(out@, out@.len() as int);
                    assert forall|k: int| 0 <= k < ev.len() implies (#[trigger] json_of_raw(ev[k].1)) is Some by {
                        assert(Some(out@[k].1.model()) == json_of_raw(ev[k].1));
                    }
                    let xs = json_entries_of_raw(ev, ev.len() as int)->0;
                    assert(entries_model(out@, out@.len() as int) =~= xs);
                }
                Some(Json::Object(out))
            },
        }
    }
}

// ---------------------------------------------------------------------------
// Reading a raw document.

/// The value of the first entry with this key.
pub open spec fn raw_lookup(entries: Seq<(Seq<char>, RawJsonView)>, key: Seq<char>) -> Option<RawJsonView>
    decreases entries.len(),
{
    if entries.len() == 0 {
        None
    } else if entries[0].0 == key {
        Some(entries[0].1)
    } else {
        raw_lookup(entries.drop_first(), key)
    }
}

proof fn lemma_raw_lookup_at(entries: Seq<(Seq<char>, RawJsonView)>, key: Seq<char>, i: int)
    requires
        0 <= i <= entries.len(),
        forall|j: int| 0 <= j < i ==> entries[j].0 != key,
    ensures
        i < entries.len() && entries[i].0 == key ==> raw_lookup(entries, key) == Some(entries[i].1),
        i == entries.len() ==> raw_lookup(entries, key) is None,
    decreases i,
{
    if i > 0 {
        assert forall|j: int| 0 <= j < i - 1 implies entries.drop_first()[j].0 != key by {
            assert(entries.drop_first()[j] == entries[j + 1]);
        }
        lemma_raw_lookup_at(entries.drop_first(), key, i - 1);
    }
}

impl RawJsonView {
    /// `v.get(key)`: the value under `key` when `v` is an object.
    pub open spec fn field(self, key: Seq<char>) -> Option<RawJsonView> {
        match self {
            RawJsonView::Object(entries) => raw_lookup(entries, key),
            _ => None,
        }
    }
}

pub open spec fn opt_raw_model(v: Option<&RawJson>) -> Option<RawJsonView> {
    match v {
        Some(x) => Some(x.model()),
        None => None,
    }
}

impl RawJson {
    /// `v.get(key)`: the value under `key` when `v` is an object.
    pub fn get(&self, key: &str) -> (r: Option<&RawJson>)
        ensures
            opt_raw_model(r) == self.model().field(key@),
    {
        match self {
            RawJson::Object(entries) => {
                let ghost ms = raw_entries_model(entries@, entries@.len() as int);
                proof {
                    lemma_raw_entries_model(entries@, entries@.len() as int);
                }
                let mut i: usize = 0;
                while i < entries.len()
                    invariant
                        self.model().field(key@) == raw_lookup(ms, key@),
                        ms == raw_entries_model(entries@, entries@.len() as int),
                        ms.len() == entries@.len(),
                        forall|k: int| 0 <= k < entries@.len() ==> #[trigger] ms[k] == (
                            entries@[k].0@,
                            entries@[k].1.model(),
                        ),
                        i <= entries@.len(),
                        forall|j: int| 0 <= j < i ==> ms[j].0 != key@,
                    decreases entries.len() - i,
                {
                    if str_eq(entries[i].0.as_str(), key) {
                        proof {
                            lemma_raw_lookup_at(ms, key@, i as int);
                        }
                        return Some(&entries[i].1);
                    }
                    i = i + 1;
                }
                proof {
                    lemma_raw_lookup_at(ms, key@, i as int);
                }
                None
            },
            _ => None,
        }
    }
}

} // verus!
