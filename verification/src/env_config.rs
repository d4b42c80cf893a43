//! The runtime configuration files: each `.env` line `KEY=value` (blank
//! lines and `#` comments skipped, the key and value trimmed, quotes around
//! the value dropped), and which file a setting is taken from.
use vstd::prelude::*;
use crate::doctor::{lines, lines_of};
use crate::text::{str_eq, trim_seq, trim_str, views_of};

verus! {

broadcast use vstd::string::group_string_axioms;

/// The position of the first `c` in `s`.
pub open spec fn first_index(s: Seq<char>, c: char) -> Option<int>
    decreases s.len(),
{
    if s.len() == 0 {
        None
    } else if s[0] == c {
        Some(0)
    } else {
        match first_index(s.drop_first(), c) {
            Some(i) => Some(i + 1),
            None => None,
        }
    }
}

/// How many `"` the text opens with.
pub open spec fn leading_quotes(s: Seq<char>) -> nat
    decreases s.len(),
{
    if s.len() > 0 && s[0] == '"' {
        1 + leading_quotes(s.drop_first())
    } else {
        0
    }
}

/// How many `"` the text ends with.
pub open spec fn trailing_quotes(s: Seq<char>) -> nat
    decreases s.len(),
{
    if s.len() > 0 && s.last() == '"' {
        1 + trailing_quotes(s.drop_last())
    } else {
        0
    }
}

/// `s.trim_matches('"')`.
pub open spec fn strip_quotes(s: Seq<char>) -> Seq<char> {
    let rest = s.subrange(leading_quotes(s) as int, s.len() as int);
    rest.subrange(0, rest.len() - trailing_quotes(rest))
}

/// The setting a line holds, if any.
pub open spec fn env_entry(line: Seq<char>) -> Option<(Seq<char>, Seq<char>)> {
    let t = trim_seq(line);
    if t.len() == 0 || t[0] == '#' {
        None
    } else {
        match first_index(t, '=') {
            Some(i) => Some(
                (trim_seq(t.subrange(0, i)), strip_quotes(trim_seq(t.subrange(i + 1, t.len() as int)))),
            ),
            None => None,
        }
    }
}

/// The settings of the first `n` lines, in order.
pub open spec fn env_entries(lines: Seq<Seq<char>>, n: int) -> Seq<(Seq<char>, Seq<char>)>
    decreases n,
{
    if n <= 0 || n > lines.len() {
        Seq::empty()
    } else {
        match env_entry(lines[n - 1]) {
            Some(e) => env_entries(lines, n - 1).push(e),
            None => env_entries(lines, n - 1),
        }
    }
}

/// The settings of a `.env` text, in the order of its lines.
pub open spec fn env_file_entries(text: Seq<char>) -> Seq<(Seq<char>, Seq<char>)> {
    env_entries(lines_of(text), lines_of(text).len() as int)
}

pub open spec fn entry_views(v: Seq<(String, String)>) -> Seq<(Seq<char>, Seq<char>)> {
    v.map_values(|e: (String, String)| (e.0@, e.1@))
}

fn leading_quotes_exec(s: &str) -> (r: usize)
    ensures
        r == leading_quotes(s@),
{
    let n = s.unicode_len();
    let mut i: usize = 0;
    assert(s@.subrange(0, n as int) =~= s@);
    while i < n && s.get_char(i) == '"'
        invariant
            n == s@.len(),
            i <= n,
            forall|k: int| 0 <= k < i ==> s@[k] == '"',
            leading_quotes(s@) == i + leading_quotes(s@.subrange(i as int, n as int)),
        decreases n - i,
    {
        assert(s@.subrange(i as int, n as int).drop_first() =~= s@.subrange(i + 1, n as int));
        i = i + 1;
    }
    if i < n {
        assert(s@.subrange(i as int, n as int)[0] == s@[i as int]);
    }
    i
}

fn trailing_quotes_exec(s: &str) -> (r: usize)
    ensures
        r == trailing_quotes(s@),
{
    let n = s.unicode_len();
    let mut j: usize = n;
    assert(s@.subrange(0, n as int) =~= s@);
    while j > 0 && s.get_char(j - 1) == '"'
        invariant
            n == s@.len(),
            j <= n,
            trailing_quotes(s@) == (n - j) + trailing_quotes(s@.subrange(0, j as int)),
        decreases j,
    {
        assert(s@.subrange(0, j as int).drop_last() =~= s@.subrange(0, j - 1));
        j = j - 1;
    }
    if j > 0 {
        assert(s@.subrange(0, j as int).last() == s@[j - 1]);
    }
    n - j
}

fn strip_quotes_exec(s: &str) -> (r: &str)
    ensures
        r@ == strip_quotes(s@),
{
    let n = s.unicode_len();
    let a = leading_quotes_exec(s);
    proof {
        lemma_leading_quotes_le(s@);
    }
    let rest = s.substring_char(a, n);
    let b = trailing_quotes_exec(rest);
    proof {
        lemma_trailing_quotes_le(rest@);
    }
    let m = rest.unicode_len();
    rest.substring_char(0, m - b)
}

proof fn lemma_leading_quotes_le(s: Seq<char>)
    ensures
        leading_quotes(s) <= s.len(),
    decreases s.len(),
{
    if s.len() > 0 && s[0] == '"' {
        lemma_leading_quotes_le(s.drop_first());
    }
}

proof fn lemma_trailing_quotes_le(s: Seq<char>)
    ensures
        trailing_quotes(s) <= s.len(),
    decreases s.len(),
{
    if s.len() > 0 && s.last() == '"' {
        lemma_trailing_quotes_le(s.drop_last());
    }
}

fn first_index_exec(s: &str, c: char) -> (r: Option<usize>)
    ensures
        match r {
            Some(i) => first_index(s@, c) == Some(i as int) && i < s@.len(),
            None => first_index(s@, c) is None,
        },
{
    let n = s.unicode_len();
    let mut i: usize = 0;
    assert(s@.subrange(0, n as int) =~= s@);
    while i < n
        invariant
            n == s@.len(),
            i <= n,
            forall|k: int| 0 <= k < i ==> s@[k] != c,
        decreases n - i,
    {
        if s.get_char(i) == c {
            proof {
                lemma_first_index_at(s@, c, i as int);
            }
            return Some(i);
        }
        i = i + 1;
    }
    proof {
        lemma_first_index_none(s@, c);
    }
    None
}

pub proof fn lemma_first_index_at(s: Seq<char>, c: char, i: int)
    requires
        0 <= i < s.len(),
        s[i] == c,
        forall|k: int| 0 <= k < i ==> s[k] != c,
    ensures
        first_index(s, c) == Some(i),
    decreases i,
{
    if i > 0 {
        assert forall|k: int| 0 <= k < i - 1 implies s.drop_first()[k] != c by {
            assert(s.drop_first()[k] == s[k + 1]);
        }
        lemma_first_index_at(s.drop_first(), c, i - 1);
    }
}

pub proof fn lemma_first_index_none(s: Seq<char>, c: char)
    requires
        forall|k: int| 0 <= k < s.len() ==> s[k] != c,
    ensures
        first_index(s, c) is None,
    decreases s.len(),
{
    if s.len() > 0 {
        assert forall|k: int| 0 <= k < s.len() - 1 implies s.drop_first()[k] != c by {
            assert(s.drop_first()[k] == s[k + 1]);
        }
        lemma_first_index_none(s.drop_first(), c);
    }
}

/// The setting a `.env` line holds, if any.
pub fn parse_env_line(line: &str) -> (r: Option<(String, String)>)
    ensures
        match r {
            Some(e) => env_entry(line@) == Some((e.0@, e.1@)),
            None => env_entry(line@) is None,
        },
{
    let t = trim_str(line);
    let n = t.unicode_len();
    if n == 0 || t.get_char(0) == '#' {
        return None;
    }
    match first_index_exec(t, '=') {
        Some(i) => {
            let k = trim_str(t.substring_char(0, i));
            let v = strip_quotes_exec(trim_str(t.substring_char(i + 1, n)));
            Some((k.to_string(), v.to_string()))
        },
        None => None,
    }
}

/// The settings of a `.env` text, in the order of its lines.
pub fn parse_env(text: &str) -> (r: Vec<(String, String)>)
    ensures
        entry_views(r@) == env_file_entries(text@),
{
    let ls = lines(text);
    let ghost lv = views_of(ls@);
    let mut out: Vec<(String, String)> = Vec::new();
    let mut i: usize = 0;
    while i < ls.len()
        invariant
            lv == views_of(ls@),
            lv == lines_of(text@),
            i <= ls@.len(),
            entry_views(out@) == env_entries(lv, i as int),
        decreases ls.len() - i,
    {
        let ghost before = entry_views(out@);
        match parse_env_line(ls[i].as_str()) {
            Some(e) => {
                out.push(e);
                assert(entry_views(out@) =~= before.push((e.0@, e.1@)));
            },
            None => {},
        }
        i = i + 1;
    }
    out
}

/// The value of `key` in one file's settings: its first entry.
pub open spec fn file_value(entries: Seq<(Seq<char>, Seq<char>)>, key: Seq<char>) -> Option<Seq<char>>
    decreases entries.len(),
{
    if entries.len() == 0 {
        None
    } else if entries[0].0 == key {
        Some(entries[0].1)
    } else {
        file_value(entries.drop_first(), key)
    }
}

/// The value of `key` from the first file, in order of precedence, that sets it.
pub open spec fn configured_value(files: Seq<Seq<(Seq<char>, Seq<char>)>>, key: Seq<char>) -> Option<Seq<char>>
    decreases files.len(),
{
    if files.len() == 0 {
        None
    } else {
        match file_value(files[0], key) {
            Some(v) => Some(v),
            None => configured_value(files.drop_first(), key),
        }
    }
}

pub open spec fn files_views(files: Seq<Vec<(String, String)>>) -> Seq<Seq<(Seq<char>, Seq<char>)>> {
    files.map_values(|f: Vec<(String, String)>| entry_views(f@))
}

fn file_lookup(entries: &Vec<(String, String)>, key: &str) -> (r: Option<String>)
    ensures
        match r {
            Some(v) => file_value(entry_views(entries@), key@) == Some(v@),
            None => file_value(entry_views(entries@), key@) is None,
        },
{
    let ghost ev = entry_views(entries@);
    let mut i: usize = 0;
    assert(ev.subrange(0, ev.len() as int) =~= ev);
    while i < entries.len()
        invariant
            ev == entry_views(entries@),
            i <= entries@.len(),
            file_value(ev, key@) == file_value(ev.subrange(i as int, ev.len() as int), key@),
        decreases entries.len() - i,
    {
        let ghost rest = ev.subrange(i as int, ev.len() as int);
        assert(rest[0] == ev[i as int]);
        if str_eq(entries[i].0.as_str(), key) {
            let v = entries[i].1.clone();
            return Some(v);
        }
        assert(rest.drop_first() =~= ev.subrange(i + 1, ev.len() as int));
        i = i + 1;
    }
    None
}

/// The value of `key` from the first of `files` (in order of precedence)
/// that sets it; the process environment comes after them all.
pub fn lookup_setting(files: &Vec<Vec<(String, String)>>, key: &str) -> (r: Option<String>)
    ensures
        match r {
            Some(v) => configured_value(files_views(files@), key@) == Some(v@),
            None => configured_value(files_views(files@), key@) is None,
        },
{
    let ghost fv = files_views(files@);
    let mut i: usize = 0;
    assert(fv.subrange(0, fv.len() as int) =~= fv);
    while i < files.len()
        invariant
            fv == files_views(files@),
            i <= files@.len(),
            configured_value(fv, key@) == configured_value(fv.subrange(i as int, fv.len() as int), key@),
        decreases files.len() - i,
    {
        let ghost rest = fv.subrange(i as int, fv.len() as int);
        assert(rest[0] == fv[i as int]);
        match file_lookup(&files[i], key) {
            Some(v) => {
                return Some(v);
            },
            None => {},
        }
        assert(rest.drop_first() =~= fv.subrange(i + 1, fv.len() as int));
        i = i + 1;
    }
    None
}

/// `s.split(',')`.
pub open spec fn comma_split(s: Seq<char>) -> Seq<Seq<char>>
    decreases s.len(),
{
    match first_index(s, ',') {
        Some(i) => if 0 <= i < s.len() {
            seq![s.subrange(0, i)] + comma_split(s.subrange(i + 1, s.len() as int))
        } else {
            seq![s]
        },
        None => seq![s],
    }
}

/// The first piece that is not blank, trimmed.
pub open spec fn first_nonblank(ps: Seq<Seq<char>>) -> Option<Seq<char>>
    decreases ps.len(),
{
    if ps.len() == 0 {
        None
    } else if trim_seq(ps[0]).len() > 0 {
        Some(trim_seq(ps[0]))
    } else {
        first_nonblank(ps.drop_first())
    }
}

/// The first node of a comma-separated list (`COMFY_NODES`), trimmed;
/// blank items are skipped.
pub fn first_node(list: &str) -> (r: Option<String>)
    ensures
        match r {
            Some(n) => first_nonblank(comma_split(list@)) == Some(n@),
            None => first_nonblank(comma_split(list@)) is None,
        },
    decreases list@.len(),
{
    let n = list.unicode_len();
    match first_index_exec(list, ',') {
        Some(i) => {
            let head = trim_str(list.substring_char(0, i));
            assert(comma_split(list@) == seq![list@.subrange(0, i as int)] + comma_split(
                list@.subrange(i + 1, list@.len() as int),
            ));
            let ghost ps = comma_split(list@);
            assert(ps[0] == list@.subrange(0, i as int));
            assert(ps.len() > 0);
            if head.unicode_len() > 0 {
                assert(first_nonblank(ps) == Some(head@));
                Some(head.to_string())
            } else {
                let rest = list.substring_char(i + 1, n);
                assert(ps.drop_first() =~= comma_split(rest@));
                assert(first_nonblank(ps) == first_nonblank(ps.drop_first()));
                first_node(rest)
            }
        },
        None => {
            let t = trim_str(list);
            let ghost ps = comma_split(list@);
            assert(ps == seq![list@]);
            assert(ps[0] == list@);
            assert(ps.drop_first() =~= Seq::<Seq<char>>::empty());
            assert(first_nonblank(ps.drop_first()) is None);
            if t.unicode_len() > 0 {
                assert(first_nonblank(ps) == Some(t@));
                Some(t.to_string())
            } else {
                None
            }
        },
    }
}

} // verus!
