//! The free text of a stage's outputs: every string leaf with its path,
//! sorted, skipping the fields the control plane fills in (those whose key
//! starts with `_`).
use vstd::prelude::*;
use crate::json::{Json, Outputs};
use crate::order::{pair_leq, pair_views, sort_pairs};
use crate::text::{chars_of, dec_nat, push_u64, seq_starts_with};

verus! {

broadcast use vstd::string::group_string_axioms;

/// The path of item `i` under `path`.
pub open spec fn item_path(path: Seq<char>, i: int) -> Seq<char> {
    path + "["@ + dec_nat(i as nat) + "]"@
}

/// The path of field `key` under `path`.
pub open spec fn field_path(path: Seq<char>, key: Seq<char>) -> Seq<char> {
    path + "."@ + key
}

/// Fields written by the control plane start with `_`; they are not prose.
pub open spec fn is_control_key(key: Seq<char>) -> bool {
    key.len() > 0 && key[0] == '_'
}

/// The string leaves of a value, in document order.
pub open spec fn leaves(v: Json, path: Seq<char>) -> Seq<(Seq<char>, Seq<char>)>
    decreases v, 0int,
{
    match v {
        Json::Str(s) => seq![(path, s@)],
        Json::Array(a) => {
            proof {
                assert(decreases_to!(v => a));
                assert(decreases_to!(a => a@));
            }
            leaves_items(a@, path, a@.len() as int)
        },
        Json::Object(o) => {
            proof {
                assert(decreases_to!(v => o));
                assert(decreases_to!(o => o@));
            }
            leaves_entries(o@, path, o@.len() as int)
        },
        _ => Seq::empty(),
    }
}

/// The leaves of the first `n` items of an array.
pub open spec fn leaves_items(items: Seq<Json>, path: Seq<char>, n: int) -> Seq<
    (Seq<char>, Seq<char>),
>
    decreases items, n,
{
    if n <= 0 || n > items.len() {
        Seq::empty()
    } else {
        leaves_items(items, path, n - 1) + leaves(items[n - 1], item_path(path, n - 1))
    }
}

/// The leaves of the first `n` entries of an object, control fields left out.
pub open spec fn leaves_entries(entries: Seq<(String, Json)>, path: Seq<char>, n: int) -> Seq<
    (Seq<char>, Seq<char>),
>
    decreases entries, n,
{
    if n <= 0 || n > entries.len() {
        Seq::empty()
    } else {
        let e = entries[n - 1];
        proof {
            assert(decreases_to!(entries => entries[n - 1]));
            assert(decreases_to!(entries[n - 1] => entries[n - 1].1));
        }
        leaves_entries(entries, path, n - 1) + if is_control_key(e.0@) {
            Seq::empty()
        } else {
            leaves(e.1, field_path(path, e.0@))
        }
    }
}

/// The leaves of every top-level output, each under its own key.
pub open spec fn top_leaves(entries: Seq<(String, Json)>, n: int) -> Seq<(Seq<char>, Seq<char>)>
    decreases n,
{
    if n <= 0 || n > entries.len() {
        Seq::empty()
    } else {
        top_leaves(entries, n - 1) + leaves(entries[n - 1].1, entries[n - 1].0@)
    }
}

/// All the free text of the outputs with its paths, sorted.
pub open spec fn prose_of(o: Outputs) -> Seq<(Seq<char>, Seq<char>)> {
    top_leaves(o.entries@, o.entries@.len() as int).sort_by(pair_leq())
}

fn item_path_exec(path: &str, i: usize) -> (r: String)
    ensures
        r@ == item_path(path@, i as int),
{
    let mut s = String::from_str(path);
    s.append("[");
    push_u64(&mut s, i as u64);
    s.append("]");
    s
}

fn field_path_exec(path: &str, key: &str) -> (r: String)
    ensures
        r@ == field_path(path@, key@),
{
    let mut s = String::from_str(path);
    s.append(".");
    s.append(key);
    s
}

fn is_control_key_exec(key: &str) -> (r: bool)
    ensures
        r == is_control_key(key@),
{
    let c = chars_of(key);
    c.len() > 0 && c[0] == '_'
}

fn collect(v: &Json, path: &str, out: &mut Vec<(String, String)>)
    ensures
        pair_views(final(out)@) == pair_views(old(out)@) + leaves(*v, path@),
    decreases *v, 0int,
{
    match v {
        Json::Str(s) => {
            out.push((String::from_str(path), s.clone()));
            assert(pair_views(final(out)@) =~= pair_views(old(out)@) + leaves(*v, path@));
        },
        Json::Array(a) => {
            let mut i: usize = 0;
            while i < a.len()
                invariant
                    i <= a@.len(),
                    *v == Json::Array(*a),
                    pair_views(out@) == pair_views(old(out)@) + leaves_items(a@, path@, i as int),
                decreases a.len() - i,
            {
                proof {
                    let ghost whole: Json = *v;
                    let ghost items: Vec<Json> = whole->Array_0;
                    assert(decreases_to!(whole => items));
                    assert(decreases_to!(items => items@));
                    assert(decreases_to!(items@ => items@[i as int]));
                }
                let p = item_path_exec(path, i);
                collect(&a[i], p.as_str(), out);
                i = i + 1;
                assert(pair_views(out@) =~= pair_views(old(out)@) + leaves_items(
                    a@,
                    path@,
                    i as int,
                ));
            }
        },
        Json::Object(o) => {
            let mut i: usize = 0;
            while i < o.len()
                invariant
                    i <= o@.len(),
                    *v == Json::Object(*o),
                    pair_views(out@) == pair_views(old(out)@) + leaves_entries(
                        o@,
                        path@,
                        i as int,
                    ),
                decreases o.len() - i,
            {
                proof {
                    let ghost whole: Json = *v;
                    let ghost entries: Vec<(String, Json)> = whole->Object_0;
                    assert(decreases_to!(whole => entries));
                    assert(decreases_to!(entries => entries@));
                    assert(decreases_to!(entries@ => entries@[i as int]));
                    assert(decreases_to!(entries@[i as int] => entries@[i as int].1));
                }
                if !is_control_key_exec(o[i].0.as_str()) {
                    let p = field_path_exec(path, o[i].0.as_str());
                    collect(&o[i].1, p.as_str(), out);
                }
                i = i + 1;
                assert(pair_views(out@) =~= pair_views(old(out)@) + leaves_entries(
                    o@,
                    path@,
                    i as int,
                ));
            }
        },
        _ => {
            assert(pair_views(final(out)@) =~= pair_views(old(out)@) + leaves(*v, path@));
        },
    }
}

/// All the free text of the outputs with its paths, sorted.
pub fn prose(outputs: &Outputs) -> (r: Vec<(String, String)>)
    ensures
        pair_views(r@) == prose_of(*outputs),
{
    let mut out: Vec<(String, String)> = Vec::new();
    let mut i: usize = 0;
    while i < outputs.entries.len()
        invariant
            i <= outputs.entries@.len(),
            pair_views(out@) == top_leaves(outputs.entries@, i as int),
        decreases outputs.entries.len() - i,
    {
        collect(&outputs.entries[i].1, outputs.entries[i].0.as_str(), &mut out);
        i = i + 1;
        assert(pair_views(out@) =~= top_leaves(outputs.entries@, i as int));
    }
    sort_pairs(out)
}

} // verus!
