//! The library's own model of a JSON document.
//!
//! Stage outputs, schema documents and the records read from ComfyUI and
//! Codex are all JSON. The logic reads them through this type: objects keep
//! their entries in order (the first entry of a key is the one that counts),
//! and numbers are exact: an integer, or a decimal `mantissa / 10^scale`.
use vstd::prelude::*;
use crate::text::{dec_int, dec_nat, digit_char, push_i64, push_u64, push_u128, str_eq};

verus! {

broadcast use vstd::string::group_string_axioms;

/// A decimal fraction `mantissa / 10^scale`.
#[derive(Debug, Clone, Copy, PartialEq, Eq, Structural)]
pub struct Decimal {
    pub mantissa: i64,
    pub scale: u8,
}

/// A JSON number: an integer (what `is_i64` / `is_u64` accept) or a fraction.
#[derive(Debug, Clone, Copy, PartialEq, Eq, Structural)]
pub enum Number {
    Int(i128),
    Frac(Decimal),
}

#[derive(Debug, PartialEq)]
pub enum Json {
    Null,
    Bool(bool),
    Num(Number),
    Str(String),
    Array(Vec<Json>),
    Object(Vec<(String, Json)>),
}

pub open spec fn pow10(n: nat) -> int
    decreases n,
{
    if n == 0 {
        1
    } else {
        10 * pow10((n - 1) as nat)
    }
}

pub proof fn lemma_pow10_mono(m: nat, n: nat)
    requires
        m <= n,
    ensures
        1 <= pow10(m) <= pow10(n),
    decreases n,
{
    if n > m {
        lemma_pow10_mono(m, (n - 1) as nat);
    } else if n > 0 {
        lemma_pow10_mono(0, (n - 1) as nat);
    }
}

pub proof fn lemma_pow10_pos(n: nat)
    ensures
        pow10(n) >= 1,
        n <= 18 ==> pow10(n) <= 1_000_000_000_000_000_000,
{
    lemma_pow10_mono(0, n);
    if n <= 18 {
        lemma_pow10_mono(n, 18);
        reveal_with_fuel(pow10, 19);
        assert(pow10(18) == 1_000_000_000_000_000_000);
    }
}

fn pow10_exec(n: u8) -> (r: i128)
    requires
        n <= 18,
    ensures
        r == pow10(n as nat),
        1 <= r <= 1_000_000_000_000_000_000,
{
    let mut r: i128 = 1;
    let mut i: u8 = 0;
    while i < n
        invariant
            i <= n <= 18,
            r == pow10(i as nat),
            1 <= r <= 1_000_000_000_000_000_000,
        decreases n - i,
    {
        proof {
            lemma_pow10_pos((i + 1) as nat);
        }
        r = r * 10;
        i = i + 1;
    }
    r
}

impl Decimal {
    /// Scales beyond 18 digits are not represented.
    pub open spec fn wf(self) -> bool {
        self.scale <= 18
    }

    pub fn new(mantissa: i64, scale: u8) -> (r: Decimal)
        requires
            scale <= 18,
        ensures
            r.mantissa == mantissa,
            r.scale == scale,
            r.wf(),
    {
        Decimal { mantissa, scale }
    }
}

impl Number {
    /// Integers stay within what `i64` and `u64` hold; fractions are well formed.
    pub open spec fn wf(self) -> bool {
        match self {
            Number::Int(i) => -0x8000_0000_0000_0000 <= i <= 0xffff_ffff_ffff_ffff,
            Number::Frac(d) => d.wf(),
        }
    }

    /// The number as a fraction `(numerator, scale)`.
    pub open spec fn parts(self) -> (int, nat) {
        match self {
            Number::Int(i) => (i as int, 0nat),
            Number::Frac(d) => (d.mantissa as int, d.scale as nat),
        }
    }

    /// `self < other` on the exact values.
    pub open spec fn less_than(self, other: Number) -> bool {
        self.parts().0 * pow10(other.parts().1) < other.parts().0 * pow10(self.parts().1)
    }

    /// Whether the number is well formed.
    pub fn is_wf(&self) -> (r: bool)
        ensures
            r == self.wf(),
    {
        match self {
            Number::Int(i) => -0x8000_0000_0000_0000 <= *i && *i <= 0xffff_ffff_ffff_ffff,
            Number::Frac(d) => d.scale <= 18,
        }
    }

    pub open spec fn is_integer(self) -> bool {
        self is Int
    }

    fn exact_parts(&self) -> (r: (i128, u8))
        requires
            self.wf(),
        ensures
            r.0 == self.parts().0,
            r.1 == self.parts().1,
            r.1 <= 18,
            -0x8000_0000_0000_0000 <= r.0 <= 0xffff_ffff_ffff_ffff,
    {
        match self {
            Number::Int(i) => (*i, 0),
            Number::Frac(d) => (d.mantissa as i128, d.scale),
        }
    }

    /// `self < other` on the exact values.
    pub fn lt(&self, other: &Number) -> (r: bool)
        requires
            self.wf(),
            other.wf(),
        ensures
            r == self.less_than(*other),
    {
        let (a, sa) = self.exact_parts();
        let (b, sb) = other.exact_parts();
        let pa = pow10_exec(sa);
        let pb = pow10_exec(sb);
        proof {
            assert(-0x8000_0000_0000_0000 * 1_000_000_000_000_000_000 <= a * pb
                <= 0xffff_ffff_ffff_ffff * 1_000_000_000_000_000_000) by (nonlinear_arith)
                requires
                    -0x8000_0000_0000_0000 <= a <= 0xffff_ffff_ffff_ffff,
                    1 <= pb <= 1_000_000_000_000_000_000,
            ;
            assert(-0x8000_0000_0000_0000 * 1_000_000_000_000_000_000 <= b * pa
                <= 0xffff_ffff_ffff_ffff * 1_000_000_000_000_000_000) by (nonlinear_arith)
                requires
                    -0x8000_0000_0000_0000 <= b <= 0xffff_ffff_ffff_ffff,
                    1 <= pa <= 1_000_000_000_000_000_000,
            ;
        }
        a * pb < b * pa
    }
}

/// The fractional digits of `frac` written with exactly `width` digits.
pub open spec fn padded_digits(frac: nat, width: nat) -> Seq<char>
    decreases width,
{
    if width == 0 {
        Seq::empty()
    } else {
        padded_digits(frac / 10, (width - 1) as nat).push(digit_char(frac % 10))
    }
}

/// Drops trailing zero digits from a fraction part.
pub open spec fn trim_frac(frac: nat, width: nat) -> (nat, nat)
    decreases width,
{
    if width > 0 && frac % 10 == 0 {
        trim_frac(frac / 10, (width - 1) as nat)
    } else {
        (frac, width)
    }
}

/// How `{}` prints a non-negative fraction `u / 10^s`: the integer part, and
/// the significant fraction digits after a point when there are any.
pub open spec fn frac_text_pos(u: nat, s: nat) -> Seq<char> {
    let int_part = u / (pow10(s) as nat);
    let frac = u % (pow10(s) as nat);
    if frac == 0 {
        dec_nat(int_part)
    } else {
        let (f, w) = trim_frac(frac, s);
        dec_nat(int_part) + seq!['.'] + padded_digits(f, w)
    }
}

/// How `{}` prints a number.
pub open spec fn number_text(n: Number) -> Seq<char> {
    match n {
        Number::Int(i) => dec_int(i as int),
        Number::Frac(d) => if d.mantissa < 0 {
            seq!['-'] + frac_text_pos((-d.mantissa) as nat, d.scale as nat)
        } else {
            frac_text_pos(d.mantissa as nat, d.scale as nat)
        },
    }
}

fn push_padded(s: &mut String, frac: u64, width: u8)
    ensures
        final(s)@ == old(s)@ + padded_digits(frac as nat, width as nat),
    decreases width,
{
    if width > 0 {
        push_padded(s, frac / 10, width - 1);
        let d = frac % 10;
        let mut one = String::new();
        push_u64(&mut one, d);
        assert(dec_nat(d as nat) == seq![digit_char(d as nat)]);
        s.append(one.as_str());
        assert(final(s)@ =~= old(s)@ + padded_digits(frac as nat, width as nat));
    }
}

fn trim_frac_exec(frac: u64, width: u8) -> (r: (u64, u8))
    ensures
        r.0 == trim_frac(frac as nat, width as nat).0,
        r.1 == trim_frac(frac as nat, width as nat).1,
    decreases width,
{
    if width > 0 && frac % 10 == 0 {
        trim_frac_exec(frac / 10, width - 1)
    } else {
        (frac, width)
    }
}

fn push_frac_pos(s: &mut String, u: u64, scale: u8)
    requires
        scale <= 18,
    ensures
        final(s)@ == old(s)@ + frac_text_pos(u as nat, scale as nat),
{
    let p = pow10_exec(scale);
    proof {
        lemma_pow10_pos(scale as nat);
    }
    let p64 = p as u64;
    let int_part = u / p64;
    let frac = u % p64;
    push_u64(s, int_part);
    if frac != 0 {
        let (f, w) = trim_frac_exec(frac, scale);
        proof {
            reveal_strlit(".");
        }
        s.append(".");
        push_padded(s, f, w);
    }
    assert(final(s)@ =~= old(s)@ + frac_text_pos(u as nat, scale as nat));
}

/// Appends `{}` of a number.
pub fn push_number(s: &mut String, n: &Number)
    requires
        n.wf(),
    ensures
        final(s)@ == old(s)@ + number_text(*n),
{
    match n {
        Number::Int(i) => {
            if *i < 0 {
                push_i64(s, *i as i64);
            } else {
                push_u64(s, *i as u64);
            }
        },
        Number::Frac(d) => {
            if d.mantissa < 0 {
                proof {
                    reveal_strlit("-");
                }
                s.append("-");
                let m: u64 = if d.mantissa == i64::MIN {
                    9223372036854775808u64
                } else {
                    (-d.mantissa) as u64
                };
                push_frac_pos(s, m, d.scale);
                assert(final(s)@ =~= old(s)@ + number_text(*n));
            } else {
                push_frac_pos(s, d.mantissa as u64, d.scale);
            }
        },
    }
}

/// `u / 10^s` (with `u >= 0`) in hundredths, rounded to the nearest, ties to even.
pub open spec fn hundredths(u: nat, s: nat) -> nat {
    if s <= 2 {
        u * (pow10((2 - s) as nat) as nat)
    } else {
        let d = pow10((s - 2) as nat) as nat;
        let q = u / d;
        let r = u % d;
        if 2 * r > d || (2 * r == d && q % 2 == 1) {
            q + 1
        } else {
            q
        }
    }
}

/// How `{:.2}` prints a number: exactly two digits after the point.
pub open spec fn fixed2_text(n: Number) -> Seq<char> {
    let m = n.parts().0;
    let u = (if m < 0 {
        -m
    } else {
        m
    }) as nat;
    let h = hundredths(u, n.parts().1);
    (if m < 0 {
        seq!['-']
    } else {
        Seq::empty()
    }) + dec_nat(h / 100) + seq!['.'] + padded_digits(h % 100, 2)
}

/// Appends `{:.2}` of a number.
pub fn push_number_fixed2(s: &mut String, n: &Number)
    requires
        n.wf(),
    ensures
        final(s)@ == old(s)@ + fixed2_text(*n),
{
    let (m, sc) = n.exact_parts();
    let u: u128 = if m < 0 {
        (-m) as u128
    } else {
        m as u128
    };
    assert(u <= 0x1_0000_0000_0000_0000);
    let h: u128 = if sc <= 2 {
        let p = pow10_exec(2 - sc);
        proof {
            reveal_with_fuel(pow10, 3);
        }
        assert(p <= 100);
        assert(u * p <= 0x1_0000_0000_0000_0000 * 100) by (nonlinear_arith)
            requires
                u <= 0x1_0000_0000_0000_0000,
                p <= 100,
                p >= 1,
        ;
        u * (p as u128)
    } else {
        let d = pow10_exec(sc - 2) as u128;
        let q = u / d;
        let r = u % d;
        assert(q <= u) by (nonlinear_arith)
            requires
                d >= 1,
                q == u / d,
        ;
        if 2 * r > d || (2 * r == d && q % 2 == 1) {
            q + 1
        } else {
            q
        }
    };
    assert(h == hundredths(u as nat, sc as nat));
    if m < 0 {
        proof {
            reveal_strlit("-");
        }
        s.append("-");
    }
    push_u128(s, h / 100);
    proof {
        reveal_strlit(".");
    }
    s.append(".");
    push_padded(s, (h % 100) as u64, 2);
    assert(final(s)@ =~= old(s)@ + fixed2_text(*n));
}

/// The entry that a key looks up in an object: the first one with that key.
pub open spec fn lookup(entries: Seq<(String, Json)>, key: Seq<char>) -> Option<Json>
    decreases entries.len(),
{
    if entries.len() == 0 {
        None
    } else if entries[0].0@ == key {
        Some(entries[0].1)
    } else {
        lookup(entries.drop_first(), key)
    }
}

/// The position of the first entry with this key.
pub open spec fn lookup_index(entries: Seq<(String, Json)>, key: Seq<char>) -> Option<int>
    decreases entries.len(),
{
    if entries.len() == 0 {
        None
    } else if entries[0].0@ == key {
        Some(0)
    } else {
        match lookup_index(entries.drop_first(), key) {
            Some(i) => Some(i + 1),
            None => None,
        }
    }
}

pub proof fn lemma_lookup_index(entries: Seq<(String, Json)>, key: Seq<char>)
    ensures
        lookup_index(entries, key) matches Some(i) ==> 0 <= i < entries.len() && entries[i].0@
            == key && lookup(entries, key) == Some(entries[i].1) && forall|j: int|
            0 <= j < i ==> entries[j].0@ != key,
        lookup_index(entries, key) is None ==> lookup(entries, key) is None && forall|j: int|
            0 <= j < entries.len() ==> entries[j].0@ != key,
    decreases entries.len(),
{
    if entries.len() > 0 && entries[0].0@ != key {
        lemma_lookup_index(entries.drop_first(), key);
        assert forall|j: int| 1 <= j < entries.len() implies entries[j] == entries.drop_first()[j
            - 1] by {}
    }
}

impl Json {
    pub open spec fn is_object(self) -> bool {
        self is Object
    }

    /// `v.get(key)`: the value under `key` when `v` is an object.
    pub open spec fn field(self, key: Seq<char>) -> Option<Json> {
        match self {
            Json::Object(entries) => lookup(entries@, key),
            _ => None,
        }
    }

    pub open spec fn str_of(self) -> Option<Seq<char>> {
        match self {
            Json::Str(s) => Some(s@),
            _ => None,
        }
    }

    pub open spec fn items(self) -> Option<Seq<Json>> {
        match self {
            Json::Array(a) => Some(a@),
            _ => None,
        }
    }

    pub open spec fn bool_of(self) -> Option<bool> {
        match self {
            Json::Bool(b) => Some(b),
            _ => None,
        }
    }

    /// Every number inside is well formed.
    pub open spec fn wf(self) -> bool
        decreases self,
    {
        match self {
            Json::Num(n) => n.wf(),
            Json::Array(a) => forall|i: int| 0 <= i < a@.len() ==> (#[trigger] a@[i]).wf(),
            Json::Object(o) => forall|i: int| 0 <= i < o@.len() ==> (#[trigger] o@[i]).1.wf(),
            _ => true,
        }
    }

    /// `v.get(key)`.
    pub fn get(&self, key: &str) -> (r: Option<&Json>)
        ensures
            r matches Some(x) ==> self.field(key@) == Some(*x),
            r is None ==> self.field(key@) is None,
    {
        match self {
            Json::Object(entries) => {
                let mut i: usize = 0;
                while i < entries.len()
                    invariant
                        self.field(key@) == lookup(entries@, key@),
                        i <= entries@.len(),
                        forall|j: int| 0 <= j < i ==> entries@[j].0@ != key@,
                    decreases entries.len() - i,
                {
                    if str_eq(entries[i].0.as_str(), key) {
                        proof {
                            lemma_lookup_first(entries@, key@, i as int);
                        }
                        return Some(&entries[i].1);
                    }
                    i = i + 1;
                }
                proof {
                    lemma_lookup_absent(entries@, key@);
                }
                None
            },
            _ => None,
        }
    }

    /// `v.as_str()`.
    pub fn as_str(&self) -> (r: Option<&str>)
        ensures
            r matches Some(s) ==> self.str_of() == Some(s@),
            r is None ==> self.str_of() is None,
    {
        match self {
            Json::Str(s) => Some(s.as_str()),
            _ => None,
        }
    }

    /// `v.as_array()`.
    pub fn as_array(&self) -> (r: Option<&Vec<Json>>)
        ensures
            r matches Some(a) ==> self.items() == Some(a@),
            r is None ==> self.items() is None,
    {
        match self {
            Json::Array(a) => Some(a),
            _ => None,
        }
    }

    /// `v.as_bool()`.
    pub fn as_bool(&self) -> (r: Option<bool>)
        ensures
            r == self.bool_of(),
    {
        match self {
            Json::Bool(b) => Some(*b),
            _ => None,
        }
    }

    pub fn is_null(&self) -> (r: bool)
        ensures
            r == (self is Null),
    {
        match self {
            Json::Null => true,
            _ => false,
        }
    }

    /// `v.get(key).and_then(as_str)`.
    pub fn get_str(&self, key: &str) -> (r: Option<&str>)
        ensures
            r matches Some(s) ==> self.field(key@) matches Some(v) && v.str_of() == Some(s@),
            r is None ==> !(self.field(key@) matches Some(v) && v.str_of() is Some),
    {
        match self.get(key) {
            Some(v) => v.as_str(),
            None => None,
        }
    }

    /// `v.get(key).and_then(as_array)`.
    pub fn get_array(&self, key: &str) -> (r: Option<&Vec<Json>>)
        ensures
            r matches Some(a) ==> self.field(key@) matches Some(v) && v.items() == Some(a@),
            r is None ==> !(self.field(key@) matches Some(v) && v.items() is Some),
    {
        match self.get(key) {
            Some(v) => v.as_array(),
            None => None,
        }
    }

    /// `v.get(key).and_then(as_bool)`.
    pub fn get_bool(&self, key: &str) -> (r: Option<bool>)
        ensures
            r == (match self.field(key@) {
                Some(v) => v.bool_of(),
                None => None,
            }),
    {
        match self.get(key) {
            Some(v) => v.as_bool(),
            None => None,
        }
    }

    /// Whether `key` is present in an object.
    pub fn contains_key(&self, key: &str) -> (r: bool)
        ensures
            r == (self.field(key@) is Some),
    {
        self.get(key).is_some()
    }

    /// An object with no entries.
    pub fn empty_object() -> (r: Json)
        ensures
            r matches Json::Object(e) && e@.len() == 0,
    {
        Json::Object(Vec::new())
    }

    /// A string value.
    pub fn string(s: &str) -> (r: Json)
        ensures
            r.str_of() == Some(s@),
    {
        Json::Str(String::from_str(s))
    }
}

pub proof fn lemma_lookup_first(entries: Seq<(String, Json)>, key: Seq<char>, i: int)
    requires
        0 <= i < entries.len(),
        entries[i].0@ == key,
        forall|j: int| 0 <= j < i ==> entries[j].0@ != key,
    ensures
        lookup(entries, key) == Some(entries[i].1),
    decreases i,
{
    if i > 0 {
        lemma_lookup_first(entries.drop_first(), key, i - 1);
    }
}

pub proof fn lemma_lookup_absent(entries: Seq<(String, Json)>, key: Seq<char>)
    requires
        forall|j: int| 0 <= j < entries.len() ==> entries[j].0@ != key,
    ensures
        lookup(entries, key) is None,
    decreases entries.len(),
{
    if entries.len() > 0 {
        lemma_lookup_absent(entries.drop_first(), key);
    }
}

/// A stage's outputs: an object keyed by top-level output keys.
#[derive(Debug, PartialEq)]
pub struct Outputs {
    pub entries: Vec<(String, Json)>,
}

impl Outputs {
    pub open spec fn field(self, key: Seq<char>) -> Option<Json> {
        lookup(self.entries@, key)
    }

    pub fn new() -> (r: Outputs)
        ensures
            r.entries@.len() == 0,
    {
        Outputs { entries: Vec::new() }
    }

    /// The outputs as a JSON object.
    pub open spec fn as_json(self) -> Json {
        Json::Object(self.entries)
    }

    /// `outputs.get(key)`.
    pub fn get(&self, key: &str) -> (r: Option<&Json>)
        ensures
            r matches Some(x) ==> self.field(key@) == Some(*x),
            r is None ==> self.field(key@) is None,
    {
        let mut i: usize = 0;
        while i < self.entries.len()
            invariant
                i <= self.entries@.len(),
                forall|j: int| 0 <= j < i ==> self.entries@[j].0@ != key@,
            decreases self.entries.len() - i,
        {
            if str_eq(self.entries[i].0.as_str(), key) {
                proof {
                    lemma_lookup_first(self.entries@, key@, i as int);
                }
                return Some(&self.entries[i].1);
            }
            i = i + 1;
        }
        proof {
            lemma_lookup_absent(self.entries@, key@);
        }
        None
    }

    /// `outputs.insert(key, value)`: replaces the value under `key`, or adds the key.
    pub fn insert(&mut self, key: String, value: Json)
        ensures
            final(self).field(key@) == Some(value),
            forall|k: Seq<char>| k != key@ ==> #[trigger] final(self).field(k) == old(self).field(k),
    {
        let mut i: usize = 0;
        while i < self.entries.len()
            invariant
                i <= self.entries@.len(),
                self.entries@ == old(self).entries@,
                forall|j: int| 0 <= j < i ==> self.entries@[j].0@ != key@,
            decreases self.entries.len() - i,
        {
            if str_eq(self.entries[i].0.as_str(), key.as_str()) {
                let ghost before = self.entries@;
                self.entries.set(i, (key, value));
                proof {
                    lemma_lookup_first(self.entries@, key@, i as int);
                    assert forall|k: Seq<char>| k != key@ implies #[trigger] lookup(self.entries@, k)
                        == lookup(before, k) by {
                        lemma_lookup_replace(before, i as int, self.entries@[i as int], k);
                    }
                }
                return;
            }
            i = i + 1;
        }
        let ghost before = self.entries@;
        self.entries.push((key, value));
        proof {
            lemma_lookup_push(before, self.entries@[before.len() as int]);
            assert forall|k: Seq<char>| k != key@ implies #[trigger] lookup(self.entries@, k)
                == lookup(before, k) by {
                lemma_lookup_push_other(before, self.entries@[before.len() as int], k);
            }
        }
    }
}

proof fn lemma_lookup_replace(entries: Seq<(String, Json)>, i: int, e: (String, Json), k: Seq<char>)
    requires
        0 <= i < entries.len(),
        entries[i].0@ == e.0@,
        k != e.0@,
    ensures
        lookup(entries.update(i, e), k) == lookup(entries, k),
    decreases entries.len(),
{
    if i > 0 {
        lemma_lookup_replace(entries.drop_first(), i - 1, e, k);
        assert(entries.update(i, e).drop_first() =~= entries.drop_first().update(i - 1, e));
    } else {
        assert(entries.update(i, e).drop_first() =~= entries.drop_first());
    }
}

proof fn lemma_lookup_push(entries: Seq<(String, Json)>, e: (String, Json))
    requires
        forall|j: int| 0 <= j < entries.len() ==> entries[j].0@ != e.0@,
    ensures
        lookup(entries.push(e), e.0@) == Some(e.1),
    decreases entries.len(),
{
    if entries.len() > 0 {
        lemma_lookup_push(entries.drop_first(), e);
        assert(entries.push(e).drop_first() =~= entries.drop_first().push(e));
    }
}

proof fn lemma_lookup_push_other(entries: Seq<(String, Json)>, e: (String, Json), k: Seq<char>)
    requires
        k != e.0@,
    ensures
        lookup(entries.push(e), k) == lookup(entries, k),
    decreases entries.len(),
{
    if entries.len() > 0 {
        lemma_lookup_push_other(entries.drop_first(), e, k);
        assert(entries.push(e).drop_first() =~= entries.drop_first().push(e));
        assert(entries.push(e)[0] == entries[0]);
    } else {
        assert(entries.push(e).drop_first() =~= Seq::<(String, Json)>::empty());
        assert(entries.push(e)[0] == e);
        assert(lookup(entries.push(e).drop_first(), k) is None);
    }
}

/// The view of `v.as_object().map(|o| o.keys())` in entry order.
pub open spec fn keys_of(entries: Seq<(String, Json)>) -> Seq<Seq<char>> {
    entries.map_values(|e: (String, Json)| e.0@)
}

/// What `Value::kind` would be called in a violation message.
pub open spec fn kind_name(v: Json) -> Seq<char> {
    match v {
        Json::Null => "null"@,
        Json::Bool(_) => "布尔值"@,
        Json::Num(_) => "数字"@,
        Json::Str(_) => "字符串"@,
        Json::Array(_) => "数组"@,
        Json::Object(_) => "对象"@,
    }
}

pub fn kind_of(v: &Json) -> (r: &'static str)
    ensures
        r@ == kind_name(*v),
{
    match v {
        Json::Null => "null",
        Json::Bool(_) => "布尔值",
        Json::Num(_) => "数字",
        Json::Str(_) => "字符串",
        Json::Array(_) => "数组",
        Json::Object(_) => "对象",
    }
}

// ---------------------------------------------------------------------------
// JSON values as mathematical values.

/// A JSON value with its strings and lists as sequences.
#[verifier::ext_equal]
pub enum JsonView {
    Null,
    Bool(bool),
    Num(Number),
    Str(Seq<char>),
    Array(Seq<JsonView>),
    Object(Seq<(Seq<char>, JsonView)>),
}

impl Json {
    /// The value as a mathematical value.
    pub open spec fn model(self) -> JsonView
        decreases self, 0int,
    {
        match self {
            Json::Null => JsonView::Null,
            Json::Bool(b) => JsonView::Bool(b),
            Json::Num(n) => JsonView::Num(n),
            Json::Str(s) => JsonView::Str(s@),
            Json::Array(a) => {
                proof {
                    assert(decreases_to!(self => a));
                    assert(decreases_to!(a => a@));
                }
                JsonView::Array(items_model(a@, a@.len() as int))
            },
            Json::Object(o) => {
                proof {
                    assert(decreases_to!(self => o));
                    assert(decreases_to!(o => o@));
                }
                JsonView::Object(entries_model(o@, o@.len() as int))
            },
        }
    }
}

/// The models of the first `n` items.
pub open spec fn items_model(items: Seq<Json>, n: int) -> Seq<JsonView>
    decreases items, n,
{
    if n <= 0 || n > items.len() {
        Seq::empty()
    } else {
        proof {
            assert(decreases_to!(items => items[n - 1]));
        }
        items_model(items, n - 1).push(items[n - 1].model())
    }
}

/// The models of the first `n` entries.
pub open spec fn entries_model(entries: Seq<(String, Json)>, n: int) -> Seq<(Seq<char>, JsonView)>
    decreases entries, n,
{
    if n <= 0 || n > entries.len() {
        Seq::empty()
    } else {
        proof {
            assert(decreases_to!(entries => entries[n - 1]));
            assert(decreases_to!(entries[n - 1] => entries[n - 1].1));
        }
        entries_model(entries, n - 1).push((entries[n - 1].0@, entries[n - 1].1.model()))
    }
}

pub proof fn lemma_entries_model(entries: Seq<(String, Json)>, n: int)
    requires
        0 <= n <= entries.len(),
    ensures
        entries_model(entries, n).len() == n,
        forall|k: int|
            0 <= k < n ==> #[trigger] entries_model(entries, n)[k] == (
                entries[k].0@,
                entries[k].1.model(),
            ),
    decreases n,
{
    if n > 0 {
        lemma_entries_model(entries, n - 1);
    }
}

pub proof fn lemma_items_model(items: Seq<Json>, n: int)
    requires
        0 <= n <= items.len(),
    ensures
        items_model(items, n).len() == n,
        forall|k: int| 0 <= k < n ==> #[trigger] items_model(items, n)[k] == items[k].model(),
    decreases n,
{
    if n > 0 {
        lemma_items_model(items, n - 1);
    }
}

/// The entries of an object as mathematical values.
pub open spec fn entry_models(entries: Seq<(String, Json)>) -> Seq<(Seq<char>, JsonView)> {
    entries_model(entries, entries.len() as int)
}


impl Json {
    /// A deep copy.
    pub fn copy(&self) -> (r: Json)
        ensures
            r.model() == self.model(),
        decreases self,
    {
        match self {
            Json::Null => Json::Null,
            Json::Bool(b) => Json::Bool(*b),
            Json::Num(n) => Json::Num(*n),
            Json::Str(s) => Json::Str(s.clone()),
            Json::Array(a) => {
                let mut out: Vec<Json> = Vec::new();
                let mut i: usize = 0;
                while i < a.len()
                    invariant
                        *self == Json::Array(*a),
                        i <= a@.len(),
                        out@.len() == i,
                        forall|k: int| 0 <= k < i ==> (#[trigger] out@[k]).model() == a@[k].model(),
                    decreases a.len() - i,
                {
                    proof {
                        let ghost whole: Json = *self;
                        let ghost items: Vec<Json> = whole->Array_0;
                        assert(decreases_to!(whole => items));
                        assert(decreases_to!(items => items@));
                        assert(decreases_to!(a@ => a@[i as int]));
                    }
                    let c = a[i].copy();
                    out.push(c);
                    i = i + 1;
                }
                proof {
                    lemma_items_model(out@, out@.len() as int);
                    lemma_items_model(a@, a@.len() as int);
                    assert(items_model(out@, out@.len() as int) =~= items_model(a@, a@.len() as int));
                }
                Json::Array(out)
            },
            Json::Object(e) => {
                let mut out: Vec<(String, Json)> = Vec::new();
                let mut i: usize = 0;
                while i < e.len()
                    invariant
                        *self == Json::Object(*e),
                        i <= e@.len(),
                        out@.len() == i,
                        forall|k: int|
                            0 <= k < i ==> (#[trigger] out@[k]).0@ == e@[k].0@ && out@[k].1.model()
                                == e@[k].1.model(),
                    decreases e.len() - i,
                {
                    proof {
                        let ghost whole: Json = *self;
                        let ghost entries: Vec<(String, Json)> = whole->Object_0;
                        assert(decreases_to!(whole => entries));
                        assert(decreases_to!(entries => entries@));
                        assert(decreases_to!(e@ => e@[i as int]));
                        assert(decreases_to!(e@[i as int] => e@[i as int].1));
                    }
                    let c = e[i].1.copy();
                    out.push((e[i].0.clone(), c));
                    i = i + 1;
                }
                proof {
                    lemma_entries_model(out@, out@.len() as int);
                    lemma_entries_model(e@, e@.len() as int);
                    assert(entries_model(out@, out@.len() as int) =~= entries_model(e@, e@.len() as int));
                }
                Json::Object(out)
            },
        }
    }
}

} // verus!
