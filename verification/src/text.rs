//! Character-level text helpers shared by every module.
//!
//! Strings are reasoned about through their views, sequences of `char`.
//! Everything here works on those sequences: substring search, prefixes,
//! trimming, decimal rendering of integers and joining.
use vstd::prelude::*;

verus! {

broadcast use vstd::string::group_string_axioms;

/// `needle` occurs in `hay` starting at position `i`.
pub open spec fn occurs_at(hay: Seq<char>, needle: Seq<char>, i: int) -> bool {
    0 <= i && i + needle.len() <= hay.len() && hay.subrange(i, i + needle.len()) == needle
}

/// `needle` is a substring of `hay`.
pub open spec fn seq_contains(hay: Seq<char>, needle: Seq<char>) -> bool {
    exists|i: int| occurs_at(hay, needle, i)
}

pub open spec fn seq_starts_with(s: Seq<char>, p: Seq<char>) -> bool {
    p.len() <= s.len() && s.subrange(0, p.len() as int) == p
}

pub open spec fn seq_ends_with(s: Seq<char>, p: Seq<char>) -> bool {
    p.len() <= s.len() && s.subrange(s.len() - p.len(), s.len() as int) == p
}

/// Position of the first occurrence of `needle` in `hay` at or after `from`.
pub open spec fn first_occurrence_from(hay: Seq<char>, needle: Seq<char>, from: int) -> Option<int> {
    if exists|i: int| from <= i && occurs_at(hay, needle, i) {
        Some(choose|i: int| from <= i && occurs_at(hay, needle, i)
            && forall|j: int| from <= j < i ==> !occurs_at(hay, needle, j))
    } else {
        None
    }
}

/// Unicode `White_Space`, the set that `char::is_whitespace` and `str::trim` use.
pub open spec fn is_white_space(c: char) -> bool {
    let u = c as u32;
    (0x9 <= u <= 0xd) || u == 0x20 || u == 0x85 || u == 0xa0 || u == 0x1680 || (0x2000 <= u
        <= 0x200a) || u == 0x2028 || u == 0x2029 || u == 0x202f || u == 0x205f || u == 0x3000
}

pub fn char_is_white_space(c: char) -> (r: bool)
    ensures
        r == is_white_space(c),
{
    let u = c as u32;
    (0x9 <= u && u <= 0xd) || u == 0x20 || u == 0x85 || u == 0xa0 || u == 0x1680 || (0x2000 <= u
        && u <= 0x200a) || u == 0x2028 || u == 0x2029 || u == 0x202f || u == 0x205f || u == 0x3000
}

/// Number of leading white-space characters.
pub open spec fn leading_ws(s: Seq<char>) -> nat
    decreases s.len(),
{
    if s.len() > 0 && is_white_space(s[0]) {
        1 + leading_ws(s.drop_first())
    } else {
        0
    }
}

/// Number of trailing white-space characters.
pub open spec fn trailing_ws(s: Seq<char>) -> nat
    decreases s.len(),
{
    if s.len() > 0 && is_white_space(s.last()) {
        1 + trailing_ws(s.drop_last())
    } else {
        0
    }
}

pub open spec fn trim_start_seq(s: Seq<char>) -> Seq<char> {
    s.subrange(leading_ws(s) as int, s.len() as int)
}

pub open spec fn trim_end_seq(s: Seq<char>) -> Seq<char> {
    s.subrange(0, s.len() - trailing_ws(s))
}

/// What `str::trim` leaves.
pub open spec fn trim_seq(s: Seq<char>) -> Seq<char> {
    trim_end_seq(trim_start_seq(s))
}

pub proof fn lemma_leading_ws_bound(s: Seq<char>)
    ensures
        leading_ws(s) <= s.len(),
        forall|i: int| 0 <= i < leading_ws(s) ==> is_white_space(#[trigger] s[i]),
        leading_ws(s) < s.len() ==> !is_white_space(s[leading_ws(s) as int]),
    decreases s.len(),
{
    if s.len() > 0 && is_white_space(s[0]) {
        lemma_leading_ws_bound(s.drop_first());
        assert forall|i: int| 0 <= i < leading_ws(s) implies is_white_space(#[trigger] s[i]) by {
            if i > 0 {
                assert(s[i] == s.drop_first()[i - 1]);
            }
        }
    }
}

pub proof fn lemma_trailing_ws_bound(s: Seq<char>)
    ensures
        trailing_ws(s) <= s.len(),
        forall|i: int| s.len() - trailing_ws(s) <= i < s.len() ==> is_white_space(#[trigger] s[i]),
        trailing_ws(s) < s.len() ==> !is_white_space(s[s.len() - trailing_ws(s) - 1]),
    decreases s.len(),
{
    if s.len() > 0 && is_white_space(s.last()) {
        lemma_trailing_ws_bound(s.drop_last());
        assert forall|i: int| s.len() - trailing_ws(s) <= i < s.len() implies is_white_space(
            #[trigger] s[i],
        ) by {
            if i < s.len() - 1 {
                assert(s[i] == s.drop_last()[i]);
            }
        }
    }
}

/// A string is blank: nothing is left once it is trimmed.
pub open spec fn is_blank(s: Seq<char>) -> bool {
    forall|i: int| 0 <= i < s.len() ==> is_white_space(#[trigger] s[i])
}

fn leading_ws_exec(c: &Vec<char>) -> (r: usize)
    ensures
        r == leading_ws(c@),
{
    let mut k: usize = 0;
    while k < c.len() && char_is_white_space(c[k])
        invariant
            k <= c@.len(),
            forall|m: int| 0 <= m < k ==> is_white_space(#[trigger] c@[m]),
        decreases c.len() - k,
    {
        k = k + 1;
    }
    proof {
        lemma_leading_ws_bound(c@);
        let l = leading_ws(c@) as int;
        if (k as int) < l {
            assert(is_white_space(c@[k as int]));
        } else if (k as int) > l {
            assert(is_white_space(c@[l]));
        }
    }
    k
}

fn trailing_ws_exec(c: &Vec<char>) -> (r: usize)
    ensures
        r == trailing_ws(c@),
{
    let mut k: usize = 0;
    while k < c.len() && char_is_white_space(c[c.len() - 1 - k])
        invariant
            k <= c@.len(),
            forall|m: int| c@.len() - k <= m < c@.len() ==> is_white_space(#[trigger] c@[m]),
        decreases c.len() - k,
    {
        k = k + 1;
    }
    proof {
        lemma_trailing_ws_bound(c@);
        let t = trailing_ws(c@) as int;
        if (k as int) < t {
            assert(is_white_space(c@[c@.len() - k - 1]));
        } else if (k as int) > t {
            assert(is_white_space(c@[c@.len() - t - 1]));
        }
    }
    k
}

/// `str::trim_start`.
pub fn trim_start_str(s: &str) -> (r: &str)
    ensures
        r@ == trim_start_seq(s@),
{
    let c = chars_of(s);
    let k = leading_ws_exec(&c);
    proof {
        lemma_leading_ws_bound(s@);
    }
    s.substring_char(k, c.len())
}

/// `str::trim_end`.
pub fn trim_end_str(s: &str) -> (r: &str)
    ensures
        r@ == trim_end_seq(s@),
{
    let c = chars_of(s);
    let k = trailing_ws_exec(&c);
    proof {
        lemma_trailing_ws_bound(s@);
    }
    s.substring_char(0, c.len() - k)
}

/// `str::trim`.
pub fn trim_str(s: &str) -> (r: &str)
    ensures
        r@ == trim_seq(s@),
{
    trim_end_str(trim_start_str(s))
}

/// The characters of a string.
pub fn chars_of(s: &str) -> (r: Vec<char>)
    ensures
        r@ == s@,
{
    let n = s.unicode_len();
    let mut out: Vec<char> = Vec::new();
    let mut i: usize = 0;
    while i < n
        invariant
            n == s@.len(),
            i <= n,
            out@ == s@.subrange(0, i as int),
        decreases n - i,
    {
        let c = s.get_char(i);
        out.push(c);
        i = i + 1;
        assert(out@ =~= s@.subrange(0, i as int));
    }
    assert(out@ =~= s@);
    out
}

/// Does `needle` occur in `hay` at position `i`?
pub fn occurs_at_exec(hay: &Vec<char>, needle: &Vec<char>, i: usize) -> (r: bool)
    ensures
        r == occurs_at(hay@, needle@, i as int),
{
    if needle.len() > hay.len() || i > hay.len() - needle.len() {
        return false;
    }
    let hl = hay.len();
    let mut j: usize = 0;
    while j < needle.len()
        invariant
            hl == hay@.len(),
            i + needle@.len() <= hay@.len(),
            j <= needle@.len(),
            forall|k: int| 0 <= k < j ==> hay@[i + k] == needle@[k],
        decreases needle.len() - j,
    {
        assert(i + j < hay@.len());
        if hay[i + j] != needle[j] {
            assert(hay@.subrange(i as int, i + needle@.len())[j as int] != needle@[j as int]);
            return false;
        }
        j = j + 1;
    }
    assert(hay@.subrange(i as int, i + needle@.len()) =~= needle@);
    true
}

/// The first position at or after `from` where `needle` occurs.
pub fn find_from(hay: &Vec<char>, needle: &Vec<char>, from: usize) -> (r: Option<usize>)
    ensures
        r == (match first_occurrence_from(hay@, needle@, from as int) {
            Some(i) => Some(i as usize),
            None => None::<usize>,
        }),
        r matches Some(i) ==> from <= i && occurs_at(hay@, needle@, i as int)
            && first_occurrence_from(hay@, needle@, from as int) == Some(i as int),
        r is None ==> forall|i: int| from <= i ==> !occurs_at(hay@, needle@, i),
        r is None ==> first_occurrence_from(hay@, needle@, from as int) is None,
{
    if needle.len() > hay.len() {
        assert forall|i: int| from <= i implies !occurs_at(hay@, needle@, i) by {}
        return None;
    }
    if needle.len() == 0 {
        if from <= hay.len() {
            proof {
                assert(hay@.subrange(from as int, from as int) =~= needle@);
                let w = choose|k: int| from <= k && occurs_at(hay@, needle@, k)
                    && forall|j: int| from <= j < k ==> !occurs_at(hay@, needle@, j);
                assert(from <= from && occurs_at(hay@, needle@, from as int));
                if w > from {
                }
                assert(w == from);
            }
            return Some(from);
        }
        assert forall|i: int| from <= i implies !occurs_at(hay@, needle@, i) by {}
        return None;
    }
    let last = hay.len() - needle.len();
    let mut i = from;
    while i <= last
        invariant
            last == hay@.len() - needle@.len(),
            needle@.len() > 0,
            last < usize::MAX,
            from <= i,
            forall|j: int| from <= j < i ==> !occurs_at(hay@, needle@, j),
        decreases last + 1 - i,
    {
        if occurs_at_exec(hay, needle, i) {
            proof {
                let w = choose|k: int| from <= k && occurs_at(hay@, needle@, k)
                    && forall|j: int| from <= j < k ==> !occurs_at(hay@, needle@, j);
                assert(from <= i && occurs_at(hay@, needle@, i as int) && forall|j: int|
                    from <= j < i ==> !occurs_at(hay@, needle@, j));
                if w < i {
                } else if w > i {
                }
                assert(w == i);
            }
            return Some(i);
        }
        i = i + 1;
    }
    assert forall|j: int| from <= j implies !occurs_at(hay@, needle@, j) by {}
    None
}

/// Whether `needle` is a substring of `hay`.
pub fn contains_chars(hay: &Vec<char>, needle: &Vec<char>) -> (r: bool)
    ensures
        r == seq_contains(hay@, needle@),
{
    match find_from(hay, needle, 0) {
        Some(_) => true,
        None => {
            assert(!seq_contains(hay@, needle@)) by {
                if seq_contains(hay@, needle@) {
                    let w = choose|i: int| occurs_at(hay@, needle@, i);
                    assert(0 <= w);
                }
            }
            false
        },
    }
}

/// `str::contains` with a string pattern.
pub fn str_contains(hay: &str, needle: &str) -> (r: bool)
    ensures
        r == seq_contains(hay@, needle@),
{
    let h = chars_of(hay);
    let n = chars_of(needle);
    contains_chars(&h, &n)
}

/// `str::starts_with` with a string pattern.
pub fn str_starts_with(s: &str, p: &str) -> (r: bool)
    ensures
        r == seq_starts_with(s@, p@),
{
    let sc = chars_of(s);
    let pc = chars_of(p);
    let r = occurs_at_exec(&sc, &pc, 0);
    assert(r == seq_starts_with(s@, p@));
    r
}

/// `str::ends_with` with a string pattern.
pub fn str_ends_with(s: &str, p: &str) -> (r: bool)
    ensures
        r == seq_ends_with(s@, p@),
{
    let sc = chars_of(s);
    let pc = chars_of(p);
    if pc.len() > sc.len() {
        return false;
    }
    occurs_at_exec(&sc, &pc, sc.len() - pc.len())
}

/// `==` on strings.
pub fn str_eq(a: &str, b: &str) -> (r: bool)
    ensures
        r == (a@ == b@),
{
    let ac = chars_of(a);
    let bc = chars_of(b);
    if ac.len() != bc.len() {
        return false;
    }
    let r = occurs_at_exec(&ac, &bc, 0);
    assert(ac@ =~= ac@.subrange(0, bc@.len() as int));
    r
}

/// Whether every character is white space, i.e. `s.trim().is_empty()`.
pub fn str_is_blank(s: &str) -> (r: bool)
    ensures
        r == is_blank(s@),
{
    let c = chars_of(s);
    let mut i: usize = 0;
    while i < c.len()
        invariant
            c@ == s@,
            i <= c@.len(),
            forall|k: int| 0 <= k < i ==> is_white_space(#[trigger] c@[k]),
        decreases c.len() - i,
    {
        if !char_is_white_space(c[i]) {
            return false;
        }
        i = i + 1;
    }
    true
}

/// The decimal digits of a natural number.
pub open spec fn dec_nat(n: nat) -> Seq<char>
    decreases n,
{
    if n < 10 {
        seq![digit_char(n)]
    } else {
        dec_nat(n / 10).push(digit_char(n % 10))
    }
}

pub open spec fn digit_char(d: nat) -> char {
    if d == 0 {
        '0'
    } else if d == 1 {
        '1'
    } else if d == 2 {
        '2'
    } else if d == 3 {
        '3'
    } else if d == 4 {
        '4'
    } else if d == 5 {
        '5'
    } else if d == 6 {
        '6'
    } else if d == 7 {
        '7'
    } else if d == 8 {
        '8'
    } else {
        '9'
    }
}

/// The decimal rendering of an integer, as `{}` prints it.
pub open spec fn dec_int(n: int) -> Seq<char> {
    if n < 0 {
        seq!['-'] + dec_nat((-n) as nat)
    } else {
        dec_nat(n as nat)
    }
}

fn digit_str(d: u64) -> (r: &'static str)
    requires
        d < 10,
    ensures
        r@ == seq![digit_char(d as nat)],
{
    proof {
        reveal_strlit("0");
        reveal_strlit("1");
        reveal_strlit("2");
        reveal_strlit("3");
        reveal_strlit("4");
        reveal_strlit("5");
        reveal_strlit("6");
        reveal_strlit("7");
        reveal_strlit("8");
        reveal_strlit("9");
    }
    let r = if d == 0 {
        "0"
    } else if d == 1 {
        "1"
    } else if d == 2 {
        "2"
    } else if d == 3 {
        "3"
    } else if d == 4 {
        "4"
    } else if d == 5 {
        "5"
    } else if d == 6 {
        "6"
    } else if d == 7 {
        "7"
    } else if d == 8 {
        "8"
    } else {
        "9"
    };
    assert(r@ =~= seq![digit_char(d as nat)]);
    r
}

/// Appends the decimal digits of `n` to `s`.
pub fn push_u64(s: &mut String, n: u64)
    ensures
        final(s)@ == old(s)@ + dec_nat(n as nat),
    decreases n,
{
    if n < 10 {
        s.append(digit_str(n));
    } else {
        push_u64(s, n / 10);
        s.append(digit_str(n % 10));
        assert(dec_nat(n as nat) == dec_nat((n / 10) as nat).push(digit_char((n % 10) as nat)));
        assert(final(s)@ =~= old(s)@ + dec_nat(n as nat));
    }
}

/// Appends the decimal digits of a wide unsigned integer to `s`.
pub fn push_u128(s: &mut String, n: u128)
    ensures
        final(s)@ == old(s)@ + dec_nat(n as nat),
    decreases n,
{
    if n < 10 {
        s.append(digit_str(n as u64));
    } else {
        push_u128(s, n / 10);
        s.append(digit_str((n % 10) as u64));
        assert(dec_nat(n as nat) == dec_nat((n / 10) as nat).push(digit_char((n % 10) as nat)));
        assert(final(s)@ =~= old(s)@ + dec_nat(n as nat));
    }
}

/// Appends the decimal rendering of a signed integer to `s`.
pub fn push_i64(s: &mut String, n: i64)
    ensures
        final(s)@ == old(s)@ + dec_int(n as int),
{
    if n < 0 {
        proof {
            reveal_strlit("-");
        }
        s.append("-");
        let m: u64 = if n == i64::MIN {
            9223372036854775808u64
        } else {
            (-n) as u64
        };
        push_u64(s, m);
        assert(final(s)@ =~= old(s)@ + dec_int(n as int));
    } else {
        push_u64(s, n as u64);
    }
}

/// `n.to_string()` for an unsigned integer.
pub fn u64_to_string(n: u64) -> (r: String)
    ensures
        r@ == dec_nat(n as nat),
{
    let mut s = String::new();
    push_u64(&mut s, n);
    assert(s@ =~= dec_nat(n as nat));
    s
}

/// `n.to_string()` for a signed integer.
pub fn i64_to_string(n: i64) -> (r: String)
    ensures
        r@ == dec_int(n as int),
{
    let mut s = String::new();
    push_i64(&mut s, n);
    assert(s@ =~= dec_int(n as int));
    s
}

/// What `{:?}` prints for a string: the text in double quotes, with Rust's
/// escapes (a function of the text alone).
pub uninterp spec fn debug_text(s: Seq<char>) -> Seq<char>;

/// Calls `<str as Debug>::fmt` through `format!`; the result is [`debug_text`] of the argument.
#[verifier::external_body]
pub fn debug_str(s: &str) -> (r: String)
    ensures
        r@ == debug_text(s@),
{
    format!("{:?}", s)
}

/// Joins the pieces with a separator between neighbours, as `[..].join(sep)` does.
pub open spec fn join_seq(parts: Seq<Seq<char>>, sep: Seq<char>) -> Seq<char>
    decreases parts.len(),
{
    if parts.len() == 0 {
        Seq::empty()
    } else if parts.len() == 1 {
        parts[0]
    } else {
        join_seq(parts.drop_last(), sep) + sep + parts.last()
    }
}

/// The views of a list of strings.
pub open spec fn views_of(v: Seq<String>) -> Seq<Seq<char>> {
    v.map_values(|s: String| s@)
}

/// The views of a list of string slices.
pub open spec fn str_views_of(v: Seq<&str>) -> Seq<Seq<char>> {
    v.map_values(|s: &str| s@)
}

/// `parts.join(sep)`.
pub fn join(parts: &Vec<String>, sep: &str) -> (r: String)
    ensures
        r@ == join_seq(views_of(parts@), sep@),
{
    let mut out = String::new();
    let ghost vs = views_of(parts@);
    let mut i: usize = 0;
    while i < parts.len()
        invariant
            vs == views_of(parts@),
            i <= parts@.len(),
            out@ == join_seq(vs.subrange(0, i as int), sep@),
        decreases parts.len() - i,
    {
        proof {
            assert(vs.subrange(0, i + 1).drop_last() =~= vs.subrange(0, i as int));
            assert(vs.subrange(0, i + 1).last() == parts@[i as int]@);
        }
        if i > 0 {
            out.append(sep);
        } else {
            assert(vs.subrange(0, 0) =~= Seq::<Seq<char>>::empty());
        }
        out.append(parts[i].as_str());
        i = i + 1;
        proof {
            if i == 1 {
                assert(out@ =~= vs.subrange(0, 1)[0]);
            }
        }
    }
    assert(vs.subrange(0, parts@.len() as int) =~= vs);
    out
}

/// `parts.join(sep)` over string slices.
pub fn join_strs(parts: &Vec<&str>, sep: &str) -> (r: String)
    ensures
        r@ == join_seq(str_views_of(parts@), sep@),
{
    let mut out = String::new();
    let ghost vs = str_views_of(parts@);
    let mut i: usize = 0;
    while i < parts.len()
        invariant
            vs == str_views_of(parts@),
            i <= parts@.len(),
            out@ == join_seq(vs.subrange(0, i as int), sep@),
        decreases parts.len() - i,
    {
        proof {
            assert(vs.subrange(0, i + 1).drop_last() =~= vs.subrange(0, i as int));
            assert(vs.subrange(0, i + 1).last() == parts@[i as int]@);
        }
        if i > 0 {
            out.append(sep);
        } else {
            assert(vs.subrange(0, 0) =~= Seq::<Seq<char>>::empty());
        }
        out.append(parts[i]);
        i = i + 1;
        proof {
            if i == 1 {
                assert(out@ =~= vs.subrange(0, 1)[0]);
            }
        }
    }
    assert(vs.subrange(0, parts@.len() as int) =~= vs);
    out
}

/// A fresh owned copy of a string slice.
pub fn owned(s: &str) -> (r: String)
    ensures
        r@ == s@,
{
    String::from_str(s)
}

/// Appends several pieces at once.
pub fn concat3(a: &str, b: &str, c: &str) -> (r: String)
    ensures
        r@ == a@ + b@ + c@,
{
    let mut s = String::from_str(a);
    s.append(b);
    s.append(c);
    s
}

/// `n` spaces.
pub open spec fn blanks(n: nat) -> Seq<char> {
    Seq::new(n, |i: int| ' ')
}

/// The fill that `{:<w}` or `{:>w}` adds: up to `w` characters.
pub open spec fn fill_to(s: Seq<char>, w: nat) -> Seq<char> {
    blanks(if s.len() < w { (w - s.len()) as nat } else { 0 })
}

/// `format!("{:<w}", s)`: the text, then spaces up to `w` characters.
pub open spec fn pad_end(s: Seq<char>, w: nat) -> Seq<char> {
    s + fill_to(s, w)
}

/// `format!("{:>w}", s)`: spaces up to `w` characters, then the text.
pub open spec fn pad_start(s: Seq<char>, w: nat) -> Seq<char> {
    fill_to(s, w) + s
}

fn push_blanks(out: &mut String, n: usize)
    ensures
        final(out)@ == old(out)@ + blanks(n as nat),
{
    proof {
        reveal_strlit(" ");
    }
    let mut k: usize = 0;
    while k < n
        invariant
            k <= n,
            " "@ == seq![' '],
            out@ == old(out)@ + blanks(k as nat),
        decreases n - k,
    {
        out.append(" ");
        assert(blanks((k + 1) as nat) =~= blanks(k as nat) + seq![' ']);
        k = k + 1;
    }
}

/// Appends `format!("{:<w}", s)`.
pub fn push_pad_end(out: &mut String, s: &str, w: usize)
    ensures
        final(out)@ == old(out)@ + pad_end(s@, w as nat),
{
    let n = s.unicode_len();
    out.append(s);
    push_blanks(out, if n < w { w - n } else { 0 });
}

/// Appends `format!("{:>w}", s)`.
pub fn push_pad_start(out: &mut String, s: &str, w: usize)
    ensures
        final(out)@ == old(out)@ + pad_start(s@, w as nat),
{
    let n = s.unicode_len();
    push_blanks(out, if n < w { w - n } else { 0 });
    out.append(s);
}

} // verus!
