//! The order of strings (code-point lexicographic, which is the byte order of
//! UTF-8 that `String`'s `Ord` uses) and a sort of path/text pairs by it.
use vstd::prelude::*;
use vstd::relations::{sorted_by, total_ordering};

verus! {

/// `a <= b` in the order of `String`.
pub open spec fn text_le(a: Seq<char>, b: Seq<char>) -> bool
    decreases a.len(),
{
    if a.len() == 0 {
        true
    } else if b.len() == 0 {
        false
    } else if a[0] != b[0] {
        (a[0] as u32) < (b[0] as u32)
    } else {
        text_le(a.drop_first(), b.drop_first())
    }
}

/// `x <= y` in the order of `(String, String)`.
pub open spec fn pair_le(x: (Seq<char>, Seq<char>), y: (Seq<char>, Seq<char>)) -> bool {
    if x.0 == y.0 {
        text_le(x.1, y.1)
    } else {
        text_le(x.0, y.0)
    }
}

pub open spec fn pair_leq() -> spec_fn((Seq<char>, Seq<char>), (Seq<char>, Seq<char>)) -> bool {
    |x: (Seq<char>, Seq<char>), y: (Seq<char>, Seq<char>)| pair_le(x, y)
}

proof fn lemma_char_order(a: char, b: char)
    ensures
        (a as u32) == (b as u32) ==> a == b,
{
}

pub proof fn lemma_text_le_reflexive(a: Seq<char>)
    ensures
        text_le(a, a),
    decreases a.len(),
{
    if a.len() > 0 {
        lemma_text_le_reflexive(a.drop_first());
    }
}

pub proof fn lemma_text_le_antisymmetric(a: Seq<char>, b: Seq<char>)
    requires
        text_le(a, b),
        text_le(b, a),
    ensures
        a == b,
    decreases a.len(),
{
    if a.len() > 0 && b.len() > 0 {
        lemma_char_order(a[0], b[0]);
        if a[0] == b[0] {
            lemma_text_le_antisymmetric(a.drop_first(), b.drop_first());
            assert(a =~= seq![a[0]] + a.drop_first());
            assert(b =~= seq![b[0]] + b.drop_first());
        }
    }
    assert(a =~= b);
}

pub proof fn lemma_text_le_transitive(a: Seq<char>, b: Seq<char>, c: Seq<char>)
    requires
        text_le(a, b),
        text_le(b, c),
    ensures
        text_le(a, c),
    decreases a.len(),
{
    if a.len() > 0 && b.len() > 0 && c.len() > 0 {
        lemma_char_order(a[0], b[0]);
        lemma_char_order(b[0], c[0]);
        lemma_char_order(a[0], c[0]);
        if a[0] == b[0] && b[0] == c[0] {
            lemma_text_le_transitive(a.drop_first(), b.drop_first(), c.drop_first());
        }
    }
}

pub proof fn lemma_text_le_total(a: Seq<char>, b: Seq<char>)
    ensures
        text_le(a, b) || text_le(b, a),
    decreases a.len(),
{
    if a.len() > 0 && b.len() > 0 {
        lemma_char_order(a[0], b[0]);
        if a[0] == b[0] {
            lemma_text_le_total(a.drop_first(), b.drop_first());
        }
    }
}

/// The order of pairs is a total order.
pub proof fn lemma_pair_le_total_ordering()
    ensures
        total_ordering(pair_leq()),
{
    assert forall|x: (Seq<char>, Seq<char>)| #[trigger] pair_leq()(x, x) by {
        lemma_text_le_reflexive(x.1);
    }
    assert forall|x: (Seq<char>, Seq<char>), y: (Seq<char>, Seq<char>)|
        #[trigger] pair_leq()(x, y) && #[trigger] pair_leq()(y, x) implies x == y by {
        if x.0 == y.0 {
            lemma_text_le_antisymmetric(x.1, y.1);
        } else {
            lemma_text_le_antisymmetric(x.0, y.0);
        }
    }
    assert forall|x: (Seq<char>, Seq<char>), y: (Seq<char>, Seq<char>), z: (Seq<char>, Seq<char>)|
        #[trigger] pair_leq()(x, y) && #[trigger] pair_leq()(y, z) implies pair_leq()(x, z) by {
        if x.0 == y.0 && y.0 == z.0 {
            lemma_text_le_transitive(x.1, y.1, z.1);
        } else if x.0 == y.0 {
        } else if y.0 == z.0 {
        } else {
            lemma_text_le_transitive(x.0, y.0, z.0);
            if x.0 == z.0 {
                lemma_text_le_antisymmetric(x.0, y.0);
            }
        }
    }
    assert forall|x: (Seq<char>, Seq<char>), y: (Seq<char>, Seq<char>)|
        #[trigger] pair_leq()(x, y) || #[trigger] pair_leq()(y, x) by {
        if x.0 == y.0 {
            lemma_text_le_total(x.1, y.1);
        } else {
            lemma_text_le_total(x.0, y.0);
        }
    }
}

/// `a <= b` on strings.
pub fn text_le_exec(a: &Vec<char>, b: &Vec<char>) -> (r: bool)
    ensures
        r == text_le(a@, b@),
{
    let mut i: usize = 0;
    assert(a@.skip(0) =~= a@);
    assert(b@.skip(0) =~= b@);
    while i < a.len() && i < b.len()
        invariant
            i <= a@.len(),
            i <= b@.len(),
            text_le(a@, b@) == text_le(a@.skip(i as int), b@.skip(i as int)),
        decreases a.len() - i,
    {
        if a[i] != b[i] {
            return (a[i] as u32) < (b[i] as u32);
        }
        proof {
            assert(a@.skip(i as int).drop_first() =~= a@.skip(i + 1));
            assert(b@.skip(i as int).drop_first() =~= b@.skip(i + 1));
        }
        i = i + 1;
    }
    i == a.len()
}

pub open spec fn pair_views(v: Seq<(String, String)>) -> Seq<(Seq<char>, Seq<char>)> {
    v.map_values(|p: (String, String)| (p.0@, p.1@))
}

fn pair_le_exec(x: &(Vec<char>, Vec<char>), y: &(Vec<char>, Vec<char>)) -> (r: bool)
    ensures
        r == pair_le((x.0@, x.1@), (y.0@, y.1@)),
{
    let f1 = text_le_exec(&x.0, &y.0);
    let f2 = text_le_exec(&y.0, &x.0);
    if f1 && f2 {
        proof {
            lemma_text_le_antisymmetric(x.0@, y.0@);
        }
        text_le_exec(&x.1, &y.1)
    } else {
        proof {
            if x.0@ == y.0@ {
                lemma_text_le_reflexive(x.0@);
            }
        }
        f1
    }
}

/// Sorts path/text pairs in the order of `(String, String)`.
pub fn sort_pairs(v: Vec<(String, String)>) -> (r: Vec<(String, String)>)
    ensures
        pair_views(r@) == pair_views(v@).sort_by(pair_leq()),
{
    let mut keys: Vec<(Vec<char>, Vec<char>)> = Vec::new();
    let mut out: Vec<(String, String)> = Vec::new();
    let mut i: usize = 0;
    proof {
        lemma_pair_le_total_ordering();
        assert(pair_views(out@) =~= Seq::<(Seq<char>, Seq<char>)>::empty());
        assert(pair_views(v@.subrange(0, 0)) =~= Seq::<(Seq<char>, Seq<char>)>::empty());
    }
    while i < v.len()
        invariant
            i <= v@.len(),
            total_ordering(pair_leq()),
            keys@.len() == out@.len(),
            forall|k: int| 0 <= k < out@.len() ==> (#[trigger] keys@[k]).0@ == out@[k].0@
                && keys@[k].1@ == out@[k].1@,
            sorted_by(pair_views(out@), pair_leq()),
            pair_views(out@).to_multiset() == pair_views(v@.subrange(0, i as int)).to_multiset(),
        decreases v.len() - i,
    {
        let key = (crate::text::chars_of(v[i].0.as_str()), crate::text::chars_of(v[i].1.as_str()));
        let ghost x = (v@[i as int].0@, v@[i as int].1@);
        let mut j: usize = 0;
        while j < out.len() && pair_le_exec(&keys[j], &key)
            invariant
                j <= out@.len(),
                keys@.len() == out@.len(),
                key.0@ == x.0 && key.1@ == x.1,
                forall|k: int| 0 <= k < out@.len() ==> (#[trigger] keys@[k]).0@ == out@[k].0@
                    && keys@[k].1@ == out@[k].1@,
                forall|k: int| 0 <= k < j ==> pair_le(#[trigger] pair_views(out@)[k], x),
            decreases out.len() - j,
        {
            j = j + 1;
        }
        let ghost before = pair_views(out@);
        proof {
            if j < out@.len() {
                assert(!pair_le(before[j as int], x));
                assert(!pair_leq()(before[j as int], x));
                assert(pair_leq()(x, before[j as int]));
            }
        }
        keys.insert(j, key);
        out.insert(j, (v[i].0.clone(), v[i].1.clone()));
        proof {
            assert(pair_views(out@) =~= before.insert(j as int, x));
            assert forall|a: int, b: int| 0 <= a < b < pair_views(out@).len() implies #[trigger] pair_leq()(
                pair_views(out@)[a],
                pair_views(out@)[b],
            ) by {
                let s = pair_views(out@);
                if a < j && b < j {
                    assert(pair_leq()(before[a], before[b]));
                } else if a < j && b == j {
                } else if a < j && b > j {
                    assert(pair_leq()(before[a], before[b - 1]));
                } else if a == j {
                    if b - 1 > j {
                        assert(pair_leq()(before[j as int], before[b - 1]));
                    }
                    assert(pair_leq()(x, before[b - 1]));
                } else {
                    assert(pair_leq()(before[a - 1], before[b - 1]));
                }
            }
            vstd::seq_lib::to_multiset_insert(before, j as int, x);
            assert(v@.subrange(0, i + 1) =~= v@.subrange(0, i as int).push(v@[i as int]));
            assert(pair_views(v@.subrange(0, i + 1)) =~= pair_views(v@.subrange(0, i as int)).push(x));
            vstd::seq_lib::to_multiset_build(pair_views(v@.subrange(0, i as int)), x);
        }
        i = i + 1;
    }
    proof {
        assert(v@.subrange(0, v@.len() as int) =~= v@);
        pair_views(v@).lemma_sort_by_ensures(pair_leq());
        vstd::seq_lib::lemma_sorted_unique(pair_views(out@), pair_views(v@).sort_by(pair_leq()), pair_leq());
    }
    out
}

/// A list of texts in string order.
pub open spec fn sorted_texts(s: Seq<Seq<char>>) -> Seq<Seq<char>> {
    s.map_values(|x: Seq<char>| (x, Seq::<char>::empty())).sort_by(pair_leq()).map_values(
        |p: (Seq<char>, Seq<char>)| p.0,
    )
}

/// Sorts strings in the order of `String`.
pub fn sort_strings(v: Vec<String>) -> (r: Vec<String>)
    ensures
        crate::text::views_of(r@) == sorted_texts(crate::text::views_of(v@)),
{
    let ghost vs = crate::text::views_of(v@);
    let mut pairs: Vec<(String, String)> = Vec::new();
    let mut i: usize = 0;
    while i < v.len()
        invariant
            i <= v@.len(),
            vs == crate::text::views_of(v@),
            pair_views(pairs@) == vs.subrange(0, i as int).map_values(
                |x: Seq<char>| (x, Seq::<char>::empty()),
            ),
        decreases v.len() - i,
    {
        let ghost prev = pair_views(pairs@);
        let e = String::new();
        assert(e@ =~= Seq::<char>::empty());
        pairs.push((v[i].clone(), e));
        assert(pair_views(pairs@) =~= prev.push((vs[i as int], Seq::<char>::empty())));
        i = i + 1;
        assert(pair_views(pairs@) =~= vs.subrange(0, i as int).map_values(
            |x: Seq<char>| (x, Seq::<char>::empty()),
        ));
    }
    assert(vs.subrange(0, v@.len() as int) =~= vs);
    let sorted = sort_pairs(pairs);
    let mut out: Vec<String> = Vec::new();
    let mut m: usize = 0;
    while m < sorted.len()
        invariant
            m <= sorted@.len(),
            crate::text::views_of(out@) == pair_views(sorted@).subrange(0, m as int).map_values(
                |p: (Seq<char>, Seq<char>)| p.0,
            ),
        decreases sorted.len() - m,
    {
        let ghost prev = crate::text::views_of(out@);
        out.push(sorted[m].0.clone());
        assert(crate::text::views_of(out@) =~= prev.push(pair_views(sorted@)[m as int].0));
        assert(pair_views(sorted@).subrange(0, m + 1) =~= pair_views(sorted@).subrange(0, m as int).push(
            pair_views(sorted@)[m as int],
        ));
        m = m + 1;
    }
    assert(pair_views(sorted@).subrange(0, sorted@.len() as int) =~= pair_views(sorted@));
    out
}

} // verus!
