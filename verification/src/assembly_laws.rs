//! Laws of the assembly's checks: the syntax of binding targets, and where
//! the violations of a shot declaration point.
use vstd::prelude::*;
use crate::assembly::{
    anchor_rules, asset_violations, first_dot, frame_slot_rules, guide_rules, guides_rules,
    reference_rules, references_rules, shape_rules, shot_path, shot_violations, target_parts,
    DeclView, Fragment, FragmentSet, GuideView, RefView, segment_of, find_key, on_frame_grid,
    nearest_of,
};
use crate::error::ViolationView;
use crate::text::{dec_int, dec_nat, seq_starts_with};

verus! {

/// The first dot of a text whose first dot is known.
proof fn lemma_first_dot_at(s: Seq<char>, i: int)
    requires
        0 <= i < s.len(),
        s[i] == '.',
        forall|k: int| 0 <= k < i ==> s[k] != '.',
    ensures
        first_dot(s) == Some(i),
{
    let j = choose|j: int| 0 <= j < s.len() && s[j] == '.' && forall|k: int| 0 <= k < j ==> s[k] != '.';
    assert(j == i) by {
        if j < i {
            assert(s[j] != '.');
        }
        if j > i {
            assert(s[i] != '.');
        }
    }
}

proof fn lemma_min_dot(s: Seq<char>, j: int) -> (i: int)
    requires
        0 <= j < s.len(),
        s[j] == '.',
    ensures
        0 <= i <= j,
        s[i] == '.',
        forall|k: int| 0 <= k < i ==> s[k] != '.',
    decreases j,
{
    if exists|k: int| 0 <= k < j && s[k] == '.' {
        let k = choose|k: int| 0 <= k < j && s[k] == '.';
        lemma_min_dot(s, k)
    } else {
        j
    }
}

proof fn lemma_first_dot_props(s: Seq<char>)
    ensures
        first_dot(s) matches Some(i) ==> 0 <= i < s.len() && s[i] == '.' && forall|k: int|
            0 <= k < i ==> s[k] != '.',
{
    if exists|i: int| 0 <= i < s.len() && s[i] == '.' {
        let j = choose|i: int| 0 <= i < s.len() && s[i] == '.';
        let m = lemma_min_dot(s, j);
        assert(0 <= m < s.len() && s[m] == '.' && forall|k: int| 0 <= k < m ==> s[k] != '.');
    }
}

/// A binding target splits exactly when it is `<node>.inputs.<field>` with a
/// non-empty node that holds no dot and a non-empty field (which may hold dots).
pub proof fn lemma_target_parts_exact(path: Seq<char>, node: Seq<char>, field: Seq<char>)
    ensures
        target_parts(path) == Some((node, field)) <==> (path == node + ".inputs."@ + field && node.len() > 0
            && !node.contains('.') && field.len() > 0),
{
    reveal_strlit(".inputs.");
    reveal_strlit("inputs.");
    reveal_strlit("inputs");
    let sep = ".inputs."@;
    if path == node + sep + field && node.len() > 0 && !node.contains('.') && field.len() > 0 {
        let n = node.len() as int;
        assert(path[n] == '.');
        assert forall|k: int| 0 <= k < n implies path[k] != '.' by {
            assert(path[k] == node[k]);
        }
        lemma_first_dot_at(path, n);
        let rest = path.subrange(n + 1, path.len() as int);
        assert(rest =~= "inputs."@ + field);
        assert(rest[6] == '.');
        assert forall|k: int| 0 <= k < 6 implies rest[k] != '.' by {}
        lemma_first_dot_at(rest, 6);
        assert(path.subrange(0, n) =~= node);
        assert(rest.subrange(0, 6) =~= "inputs"@);
        assert(rest.subrange(7, rest.len() as int) =~= field);
    }
    if target_parts(path) == Some((node, field)) {
        lemma_first_dot_props(path);
        let d1 = first_dot(path)->0;
        let rest = path.subrange(d1 + 1, path.len() as int);
        lemma_first_dot_props(rest);
        let d2 = first_dot(rest)->0;
        assert(rest.subrange(0, d2) == "inputs"@);
        assert(d2 == 6);
        assert(node == path.subrange(0, d1));
        assert(!node.contains('.')) by {
            if node.contains('.') {
                let k = choose|k: int| 0 <= k < node.len() && node[k] == '.';
                assert(node[k] == path[k]);
                assert(path[k] != '.');
            }
        }
        assert(path =~= node + sep + field) by {
            assert forall|k: int| 0 <= k < path.len() implies path[k] == (node + sep + field)[k] by {
                if k < d1 {
                } else if k == d1 {
                } else if k <= d1 + 6 {
                    assert(rest[k - d1 - 1] == path[k]);
                    assert(rest.subrange(0, 6)[k - d1 - 1] == "inputs"@[k - d1 - 1]);
                } else if k == d1 + 7 {
                    assert(rest[6] == path[k]);
                } else {
                    assert(rest[k - d1 - 1] == path[k]);
                }
            }
        }
    }
}


/// Every violation's path starts with `prefix`.
pub open spec fn all_under(vs: Seq<ViolationView>, prefix: Seq<char>) -> bool {
    forall|k: int| 0 <= k < vs.len() ==> seq_starts_with(#[trigger] vs[k].0, prefix)
}

/// The path of shot `index` itself.
pub open spec fn shot_prefix(index: int) -> Seq<char> {
    "prompt_pack.shots["@ + dec_nat(index as nat) + "]."@
}

proof fn lemma_under_concat(a: Seq<ViolationView>, b: Seq<ViolationView>, p: Seq<char>)
    requires
        all_under(a, p),
        all_under(b, p),
    ensures
        all_under(a + b, p),
{
    assert forall|k: int| 0 <= k < (a + b).len() implies seq_starts_with(#[trigger] (a + b)[k].0, p) by {
        if k < a.len() {
            assert((a + b)[k] == a[k]);
        } else {
            assert((a + b)[k] == b[k - a.len()]);
        }
    }
}

proof fn lemma_shot_path_under(index: int, field: Seq<char>)
    ensures
        seq_starts_with(shot_path(index, field), shot_prefix(index)),
{
    assert(shot_path(index, field).subrange(0, shot_prefix(index).len() as int) =~= shot_prefix(index));
}

proof fn lemma_single_under(index: int, field: Seq<char>, m: Seq<char>)
    ensures
        all_under(seq![(shot_path(index, field), m)], shot_prefix(index)),
{
    lemma_shot_path_under(index, field);
}

proof fn lemma_asset_under(a: Seq<char>, index: int, field: Seq<char>, known: Seq<Seq<char>>, prior: Seq<Seq<char>>)
    ensures
        all_under(asset_violations(a, shot_path(index, field), known, prior), shot_prefix(index)),
{
    lemma_shot_path_under(index, field);
}

proof fn lemma_anchor_under(a: Seq<char>, len: int, index: int, field: Seq<char>)
    ensures
        all_under(anchor_rules(a, len, shot_path(index, field)), shot_prefix(index)),
{
    lemma_shot_path_under(index, field);
    let p = shot_prefix(index);
    let v = anchor_rules(a, len, shot_path(index, field));
    assert forall|k: int| 0 <= k < v.len() implies seq_starts_with(#[trigger] v[k].0, p) by {}
}

proof fn lemma_every_shot_path_under(index: int)
    ensures
        forall|f: Seq<char>| seq_starts_with(#[trigger] shot_path(index, f), shot_prefix(index)),
{
    assert forall|f: Seq<char>| seq_starts_with(#[trigger] shot_path(index, f), shot_prefix(index)) by {
        lemma_shot_path_under(index, f);
    }
}

proof fn lemma_reference_under(
    head: Fragment,
    refs: Seq<RefView>,
    i: int,
    index: int,
    known: Seq<Seq<char>>,
    prior: Seq<Seq<char>>,
)
    requires
        0 <= i < refs.len(),
    ensures
        all_under(reference_rules(head, refs, i, index, known, prior), shot_prefix(index)),
{
    lemma_every_shot_path_under(index);
    let ri = "references["@ + dec_nat(i as nat) + "]"@;
    lemma_asset_under(refs[i].1, index, ri + ".asset_id"@, known, prior);
    let v = reference_rules(head, refs, i, index, known, prior);
    let a = asset_violations(refs[i].1, shot_path(index, ri + ".asset_id"@), known, prior);
    assert(v.subrange(v.len() - a.len(), v.len() as int) =~= a);
    assert forall|k: int| 0 <= k < v.len() implies seq_starts_with(#[trigger] v[k].0, shot_prefix(index)) by {
        if k >= v.len() - a.len() {
            assert(v[k] == a[k - (v.len() - a.len())]);
        }
    }
}

proof fn lemma_references_under(
    head: Fragment,
    refs: Seq<RefView>,
    index: int,
    known: Seq<Seq<char>>,
    prior: Seq<Seq<char>>,
    n: int,
)
    ensures
        all_under(references_rules(head, refs, index, known, prior, n), shot_prefix(index)),
    decreases n,
{
    if n > 0 && n <= refs.len() {
        lemma_references_under(head, refs, index, known, prior, n - 1);
        lemma_reference_under(head, refs, n - 1, index, known, prior);
        lemma_under_concat(
            references_rules(head, refs, index, known, prior, n - 1),
            reference_rules(head, refs, n - 1, index, known, prior),
            shot_prefix(index),
        );
    }
}

proof fn lemma_guide_under(
    head: Fragment,
    g: GuideView,
    j: int,
    length: int,
    frames_only: bool,
    index: int,
    known: Seq<Seq<char>>,
    prior: Seq<Seq<char>>,
)
    ensures
        all_under(guide_rules(head, g, j, length, frames_only, index, known, prior), shot_prefix(index)),
{
    lemma_every_shot_path_under(index);
    let gj = "guides["@ + dec_nat(j as nat) + "]"@;
    let path = shot_path(index, gj + ".asset_id"@);
    lemma_asset_under(g.2, index, gj + ".asset_id"@, known, prior);
    lemma_anchor_under(g.2, length, index, gj + ".asset_id"@);
    let a = asset_violations(g.2, path, known, prior);
    let b = anchor_rules(g.2, length, path);
    lemma_under_concat(a, b, shot_prefix(index));
    let v = guide_rules(head, g, j, length, frames_only, index, known, prior);
    let ab = a + b;
    assert(v.subrange(v.len() - ab.len(), v.len() as int) =~= ab);
    assert forall|k: int| 0 <= k < v.len() implies seq_starts_with(#[trigger] v[k].0, shot_prefix(index)) by {
        if k >= v.len() - ab.len() {
            assert(v[k] == ab[k - (v.len() - ab.len())]);
        }
    }
}

proof fn lemma_guides_under(
    head: Fragment,
    guides: Seq<GuideView>,
    length: int,
    frames_only: bool,
    index: int,
    known: Seq<Seq<char>>,
    prior: Seq<Seq<char>>,
    n: int,
)
    ensures
        all_under(guides_rules(head, guides, length, frames_only, index, known, prior, n), shot_prefix(index)),
    decreases n,
{
    if n > 0 && n <= guides.len() {
        lemma_guides_under(head, guides, length, frames_only, index, known, prior, n - 1);
        lemma_guide_under(head, guides[n - 1], n - 1, length, frames_only, index, known, prior);
        lemma_under_concat(
            guides_rules(head, guides, length, frames_only, index, known, prior, n - 1),
            guide_rules(head, guides[n - 1], n - 1, length, frames_only, index, known, prior),
            shot_prefix(index),
        );
    }
}

proof fn lemma_frame_slot_under(
    set: FragmentSet,
    head: Fragment,
    field: Seq<char>,
    slot: Seq<char>,
    asset: Option<Seq<char>>,
    index: int,
    known: Seq<Seq<char>>,
    prior: Seq<Seq<char>>,
)
    ensures
        all_under(frame_slot_rules(set, head, field, slot, asset, index, known, prior), shot_prefix(index)),
{
    lemma_every_shot_path_under(index);
    match asset {
        Some(a) => lemma_asset_under(a, index, field, known, prior),
        None => {},
    }
}

proof fn lemma_shape_under(head: Fragment, shot: DeclView, index: int)
    ensures
        all_under(shape_rules(head, shot, index), shot_prefix(index)),
{
    lemma_every_shot_path_under(index);
    let v = shape_rules(head, shot, index);
    assert forall|k: int| 0 <= k < v.len() implies seq_starts_with(#[trigger] v[k].0, shot_prefix(index)) by {}
}

/// Every violation found in shot `index` of a prompt pack is addressed under
/// `prompt_pack.shots[index].`, so each one can be traced to its field.
pub proof fn lemma_violations_are_addressed(
    set: FragmentSet,
    shot: DeclView,
    known: Seq<Seq<char>>,
    prior: Seq<Seq<char>>,
    index: int,
)
    ensures
        all_under(shot_violations(set, shot, known, prior, index), shot_prefix(index)),
{
    lemma_every_shot_path_under(index);
    match crate::assembly::find_key(set.heads@, shot.head) {
        None => {},
        Some(head) => {
            let len = shot.length_frames as int;
            let frames_only = head.autogrow@.len() == 0 && head.frames@.len() > 0;
            let p = shot_prefix(index);
            let a = shape_rules(head, shot, index);
            let b = references_rules(head, shot.references, index, known, prior, shot.references.len() as int);
            let c = if frames_only && shot.guides.len() > 2 {
                seq![
                    (
                        shot_path(index, "guides"@),
                        "head「"@ + head.id@ + "」只有首尾两个帧槽位，挂不了 "@ + dec_nat(shot.guides.len())
                            + " 个 guide。"@,
                    ),
                ]
            } else {
                Seq::empty()
            };
            let d = guides_rules(head, shot.guides, len, frames_only, index, known, prior, shot.guides.len() as int);
            let e = frame_slot_rules(set, head, "first_frame"@, "first"@, shot.first_frame, index, known, prior);
            let f = frame_slot_rules(set, head, "last_frame"@, "last"@, shot.last_frame, index, known, prior);
            lemma_shape_under(head, shot, index);
            lemma_references_under(head, shot.references, index, known, prior, shot.references.len() as int);
            lemma_guides_under(head, shot.guides, len, frames_only, index, known, prior, shot.guides.len() as int);
            lemma_frame_slot_under(set, head, "first_frame"@, "first"@, shot.first_frame, index, known, prior);
            lemma_frame_slot_under(set, head, "last_frame"@, "last"@, shot.last_frame, index, known, prior);
            assert(all_under(c, p));
            lemma_under_concat(a, b, p);
            lemma_under_concat(a + b, c, p);
            lemma_under_concat(a + b + c, d, p);
            lemma_under_concat(a + b + c + d, e, p);
            lemma_under_concat(a + b + c + d + e, f, p);
            assert(shot_violations(set, shot, known, prior, index) == a + b + c + d + e + f);
        },
    }
}

/// With no registered assets listed, the registry rule (V7) is skipped: a
/// reference can only be refused as a segment of a shot that is not earlier.
pub proof fn lemma_empty_registry_skips_v7(asset: Seq<char>, path: Seq<char>, prior: Seq<Seq<char>>)
    ensures
        segment_of(asset) is None ==> asset_violations(asset, path, Seq::empty(), prior) == Seq::<ViolationView>::empty(),
{
}

// ---------------------------------------------------------------------------
// The canvas height is checked on its own.

/// No violation is reported at path `p`.
pub open spec fn avoids(vs: Seq<ViolationView>, p: Seq<char>) -> bool {
    forall|k: int| 0 <= k < vs.len() ==> (#[trigger] vs[k]).0 != p
}

proof fn lemma_avoids_concat(a: Seq<ViolationView>, b: Seq<ViolationView>, p: Seq<char>)
    requires
        avoids(a, p),
        avoids(b, p),
    ensures
        avoids(a + b, p),
{
    assert forall|k: int| 0 <= k < (a + b).len() implies (#[trigger] (a + b)[k]).0 != p by {
        if k < a.len() {
            assert((a + b)[k] == a[k]);
        } else {
            assert((a + b)[k] == b[k - a.len()]);
        }
    }
}

/// Two fields of a shot that start with different letters have different paths.
proof fn lemma_other_field(index: int, f: Seq<char>, side: Seq<char>)
    requires
        f.len() > 0,
        side.len() > 0,
        f[0] != side[0],
    ensures
        shot_path(index, f) != shot_path(index, side),
{
    let pre = shot_prefix(index);
    assert(shot_path(index, f) =~= pre + f);
    assert(shot_path(index, side) =~= pre + side);
    assert((pre + f)[pre.len() as int] == f[0]);
    assert((pre + side)[pre.len() as int] == side[0]);
}

proof fn lemma_asset_avoids(
    a: Seq<char>,
    index: int,
    field: Seq<char>,
    len: int,
    known: Seq<Seq<char>>,
    prior: Seq<Seq<char>>,
    side: Seq<char>,
)
    requires
        field.len() > 0,
        side.len() > 0,
        field[0] != side[0],
    ensures
        avoids(asset_violations(a, shot_path(index, field), known, prior), shot_path(index, side)),
        avoids(anchor_rules(a, len, shot_path(index, field)), shot_path(index, side)),
{
    lemma_other_field(index, field, side);
    let v = anchor_rules(a, len, shot_path(index, field));
    assert forall|k: int| 0 <= k < v.len() implies (#[trigger] v[k]).0 != shot_path(index, side) by {}
}

proof fn lemma_prefixed_field(x: Seq<char>, y: Seq<char>, c: char)
    requires
        x.len() > 0,
        x[0] == c,
    ensures
        (x + y).len() > 0,
        (x + y)[0] == c,
{
}

proof fn lemma_reference_avoids(
    head: Fragment,
    refs: Seq<RefView>,
    i: int,
    index: int,
    known: Seq<Seq<char>>,
    prior: Seq<Seq<char>>,
    side: Seq<char>,
)
    requires
        0 <= i < refs.len(),
        side.len() > 0,
        side[0] != 'r',
    ensures
        avoids(reference_rules(head, refs, i, index, known, prior), shot_path(index, side)),
{
    reveal_strlit("references[");
    let ri = "references["@ + dec_nat(i as nat) + "]"@;
    assert(ri[0] == 'r');
    lemma_prefixed_field(ri, ".kind"@, 'r');
    lemma_prefixed_field(ri, ".with_audio"@, 'r');
    lemma_prefixed_field(ri, ".asset_id"@, 'r');
    lemma_other_field(index, ri, side);
    lemma_other_field(index, ri + ".kind"@, side);
    lemma_other_field(index, ri + ".with_audio"@, side);
    lemma_asset_avoids(refs[i].1, index, ri + ".asset_id"@, 0, known, prior, side);
    let v = reference_rules(head, refs, i, index, known, prior);
    let a = asset_violations(refs[i].1, shot_path(index, ri + ".asset_id"@), known, prior);
    assert forall|k: int| 0 <= k < v.len() implies (#[trigger] v[k]).0 != shot_path(index, side) by {
        if k >= v.len() - a.len() {
            assert(v[k] == a[k - (v.len() - a.len())]);
        }
    }
}

proof fn lemma_references_avoid(
    head: Fragment,
    refs: Seq<RefView>,
    index: int,
    known: Seq<Seq<char>>,
    prior: Seq<Seq<char>>,
    n: int,
    side: Seq<char>,
)
    requires
        side.len() > 0,
        side[0] != 'r',
    ensures
        avoids(references_rules(head, refs, index, known, prior, n), shot_path(index, side)),
    decreases n,
{
    if n > 0 && n <= refs.len() {
        lemma_references_avoid(head, refs, index, known, prior, n - 1, side);
        lemma_reference_avoids(head, refs, n - 1, index, known, prior, side);
        lemma_avoids_concat(
            references_rules(head, refs, index, known, prior, n - 1),
            reference_rules(head, refs, n - 1, index, known, prior),
            shot_path(index, side),
        );
    }
}

proof fn lemma_guide_avoids(
    head: Fragment,
    g: GuideView,
    j: int,
    length: int,
    frames_only: bool,
    index: int,
    known: Seq<Seq<char>>,
    prior: Seq<Seq<char>>,
    side: Seq<char>,
)
    requires
        side.len() > 0,
        side[0] != 'g',
    ensures
        avoids(guide_rules(head, g, j, length, frames_only, index, known, prior), shot_path(index, side)),
{
    reveal_strlit("guides[");
    let gj = "guides["@ + dec_nat(j as nat) + "]"@;
    assert(gj[0] == 'g');
    lemma_prefixed_field(gj, ".at_frame"@, 'g');
    lemma_prefixed_field(gj, ".asset_id"@, 'g');
    lemma_other_field(index, gj + ".at_frame"@, side);
    lemma_asset_avoids(g.2, index, gj + ".asset_id"@, length, known, prior, side);
    let path = shot_path(index, gj + ".asset_id"@);
    let a = asset_violations(g.2, path, known, prior);
    let b = anchor_rules(g.2, length, path);
    lemma_avoids_concat(a, b, shot_path(index, side));
    let v = guide_rules(head, g, j, length, frames_only, index, known, prior);
    let ab = a + b;
    assert forall|k: int| 0 <= k < v.len() implies (#[trigger] v[k]).0 != shot_path(index, side) by {
        if k >= v.len() - ab.len() {
            assert(v[k] == ab[k - (v.len() - ab.len())]);
        }
    }
}

proof fn lemma_guides_avoid(
    head: Fragment,
    guides: Seq<GuideView>,
    length: int,
    frames_only: bool,
    index: int,
    known: Seq<Seq<char>>,
    prior: Seq<Seq<char>>,
    n: int,
    side: Seq<char>,
)
    requires
        side.len() > 0,
        side[0] != 'g',
    ensures
        avoids(guides_rules(head, guides, length, frames_only, index, known, prior, n), shot_path(index, side)),
    decreases n,
{
    if n > 0 && n <= guides.len() {
        lemma_guides_avoid(head, guides, length, frames_only, index, known, prior, n - 1, side);
        lemma_guide_avoids(head, guides[n - 1], n - 1, length, frames_only, index, known, prior, side);
        lemma_avoids_concat(
            guides_rules(head, guides, length, frames_only, index, known, prior, n - 1),
            guide_rules(head, guides[n - 1], n - 1, length, frames_only, index, known, prior),
            shot_path(index, side),
        );
    }
}

proof fn lemma_frame_slot_avoids(
    set: FragmentSet,
    head: Fragment,
    field: Seq<char>,
    slot: Seq<char>,
    asset: Option<Seq<char>>,
    index: int,
    known: Seq<Seq<char>>,
    prior: Seq<Seq<char>>,
    side: Seq<char>,
)
    requires
        field.len() > 0,
        side.len() > 0,
        field[0] != side[0],
    ensures
        avoids(frame_slot_rules(set, head, field, slot, asset, index, known, prior), shot_path(index, side)),
{
    lemma_other_field(index, field, side);
    match asset {
        Some(a) => lemma_asset_avoids(a, index, field, 0, known, prior, side),
        None => {},
    }
}

/// Every violation reported at path `p` is the one about the short edge.
pub open spec fn only_short_edge_at(vs: Seq<ViolationView>, p: Seq<char>) -> bool {
    forall|k: int| 0 <= k < vs.len() && (#[trigger] vs[k]).0 == p ==> seq_starts_with(vs[k].1, "短边 "@)
}

/// The violations of a shot that come after the canvas rules: references,
/// guide count, guides, first and last frame.
pub open spec fn past_the_canvas(
    set: FragmentSet,
    head: Fragment,
    shot: DeclView,
    known: Seq<Seq<char>>,
    prior: Seq<Seq<char>>,
    index: int,
) -> Seq<ViolationView> {
    let len = shot.length_frames as int;
    let frames_only = head.autogrow@.len() == 0 && head.frames@.len() > 0;
    references_rules(head, shot.references, index, known, prior, shot.references.len() as int) + (if frames_only
        && shot.guides.len() > 2 {
        seq![
            (
                shot_path(index, "guides"@),
                "head「"@ + head.id@ + "」只有首尾两个帧槽位，挂不了 "@ + dec_nat(shot.guides.len())
                    + " 个 guide。"@,
            ),
        ]
    } else {
        Seq::empty()
    }) + guides_rules(head, shot.guides, len, frames_only, index, known, prior, shot.guides.len() as int)
        + frame_slot_rules(set, head, "first_frame"@, "first"@, shot.first_frame, index, known, prior)
        + frame_slot_rules(set, head, "last_frame"@, "last"@, shot.last_frame, index, known, prior)
}

/// A shot whose head is known: its canvas rules, then the rest.
proof fn lemma_shot_violations_split(
    set: FragmentSet,
    shot: DeclView,
    known: Seq<Seq<char>>,
    prior: Seq<Seq<char>>,
    index: int,
)
    requires
        find_key(set.heads@, shot.head) is Some,
    ensures
        shot_violations(set, shot, known, prior, index) == shape_rules(
            find_key(set.heads@, shot.head)->0,
            shot,
            index,
        ) + past_the_canvas(set, find_key(set.heads@, shot.head)->0, shot, known, prior, index),
{
    let head = find_key(set.heads@, shot.head)->0;
    let a = shape_rules(head, shot, index);
    let b = references_rules(head, shot.references, index, known, prior, shot.references.len() as int);
    let len = shot.length_frames as int;
    let frames_only = head.autogrow@.len() == 0 && head.frames@.len() > 0;
    let c = if frames_only && shot.guides.len() > 2 {
        seq![
            (
                shot_path(index, "guides"@),
                "head「"@ + head.id@ + "」只有首尾两个帧槽位，挂不了 "@ + dec_nat(shot.guides.len())
                    + " 个 guide。"@,
            ),
        ]
    } else {
        Seq::empty()
    };
    let d = guides_rules(head, shot.guides, len, frames_only, index, known, prior, shot.guides.len() as int);
    let e = frame_slot_rules(set, head, "first_frame"@, "first"@, shot.first_frame, index, known, prior);
    let f = frame_slot_rules(set, head, "last_frame"@, "last"@, shot.last_frame, index, known, prior);
    assert(shot_violations(set, shot, known, prior, index) == a + b + c + d + e + f);
    assert(a + b + c + d + e + f =~= a + (b + c + d + e + f));
}

/// Past the canvas rules (references, guide count, guides, first and last
/// frame), nothing points at a field that starts with neither `r`, `g`, `f`
/// nor `l`.
#[verifier::spinoff_prover]
proof fn lemma_past_the_canvas_avoids(
    set: FragmentSet,
    head: Fragment,
    shot: DeclView,
    known: Seq<Seq<char>>,
    prior: Seq<Seq<char>>,
    index: int,
    side: Seq<char>,
)
    requires
        side.len() > 0,
        side[0] != 'r',
        side[0] != 'g',
        side[0] != 'f',
        side[0] != 'l',
    ensures
        avoids(past_the_canvas(set, head, shot, known, prior, index), shot_path(index, side)),
{
    let len = shot.length_frames as int;
    let frames_only = head.autogrow@.len() == 0 && head.frames@.len() > 0;
    let p = shot_path(index, side);
    let b = references_rules(head, shot.references, index, known, prior, shot.references.len() as int);
    let c = if frames_only && shot.guides.len() > 2 {
        seq![
            (
                shot_path(index, "guides"@),
                "head「"@ + head.id@ + "」只有首尾两个帧槽位，挂不了 "@ + dec_nat(shot.guides.len())
                    + " 个 guide。"@,
            ),
        ]
    } else {
        Seq::empty()
    };
    let d = guides_rules(head, shot.guides, len, frames_only, index, known, prior, shot.guides.len() as int);
    let e = frame_slot_rules(set, head, "first_frame"@, "first"@, shot.first_frame, index, known, prior);
    let f = frame_slot_rules(set, head, "last_frame"@, "last"@, shot.last_frame, index, known, prior);
    reveal_strlit("guides");
    reveal_strlit("first_frame");
    reveal_strlit("last_frame");
    lemma_other_field(index, "guides"@, side);
    lemma_references_avoid(head, shot.references, index, known, prior, shot.references.len() as int, side);
    lemma_guides_avoid(head, shot.guides, len, frames_only, index, known, prior, shot.guides.len() as int, side);
    lemma_frame_slot_avoids(set, head, "first_frame"@, "first"@, shot.first_frame, index, known, prior, side);
    lemma_frame_slot_avoids(set, head, "last_frame"@, "last"@, shot.last_frame, index, known, prior, side);
    assert(avoids(c, p));
    lemma_avoids_concat(b, c, p);
    lemma_avoids_concat(b + c, d, p);
    lemma_avoids_concat(b + c + d, e, p);
    lemma_avoids_concat(b + c + d + e, f, p);
}

/// The height rule of the canvas, on its own.
#[verifier::spinoff_prover]
proof fn lemma_shape_height(head: Fragment, shot: DeclView, index: int)
    ensures
        shot.height % 32 != 0 ==> shape_rules(head, shot, index).contains(
            (
                shot_path(index, "height"@),
                dec_int(shot.height as int) + " 不是 32 的倍数。ComfyUI 会四舍五入，实际出图尺寸跟这里对不上。"@,
            ),
        ),
        shot.height % 32 == 0 ==> avoids(shape_rules(head, shot, index), shot_path(index, "height"@)),
{
    let len = shot.length_frames as int;
    let grid = if !on_frame_grid(len) {
        let (lo, hi) = nearest_of(len);
        seq![
            (
                shot_path(index, "length_frames"@),
                dec_int(len) + " 不在 MiniMax H3 的帧数网格上（17k+5：5 / 22 / 39 / 56 / 73…）。最近的合法值是 "@
                    + dec_int(lo) + " 或 "@ + dec_int(hi)
                    + "。写别的值模型会自己 snap，于是成片时长跟这里声明的对不上，而 post 拼接按声明算。"@,
            ),
        ]
    } else {
        Seq::empty()
    };
    let w = if shot.width % 32 != 0 {
        seq![
            (
                shot_path(index, "width"@),
                dec_int(shot.width as int) + " 不是 32 的倍数。ComfyUI 会四舍五入，实际出图尺寸跟这里对不上。"@,
            ),
        ]
    } else {
        Seq::empty()
    };
    let h = if shot.height % 32 != 0 {
        seq![
            (
                shot_path(index, "height"@),
                dec_int(shot.height as int) + " 不是 32 的倍数。ComfyUI 会四舍五入，实际出图尺寸跟这里对不上。"@,
            ),
        ]
    } else {
        Seq::empty()
    };
    let short = if shot.width < shot.height {
        shot.width as int
    } else {
        shot.height as int
    };
    let edge = if short > 768 {
        seq![
            (
                shot_path(index, "width"@),
                "短边 "@ + dec_int(short) + " 超过 MiniMax H3 的原生画布 768。超出部分不会带来细节，只是更慢；要更高分辨率走 post 的超分。"@,
            ),
        ]
    } else {
        Seq::empty()
    };
    let no_slots = if head.autogrow@.len() == 0 && shot.references.len() > 0 {
        seq![
            (
                shot_path(index, "references"@),
                "head「"@ + head.id@ + "」不接参考（它没有 AUTOGROW 槽位）。要挂参考就换成有槽位的 head。"@,
            ),
        ]
    } else {
        Seq::empty()
    };
    let a = shape_rules(head, shot, index);
    assert(a =~= grid + w + h + edge + no_slots);
    reveal_strlit("length_frames");
    reveal_strlit("width");
    reveal_strlit("height");
    reveal_strlit("references");
    let ph = shot_path(index, "height"@);
    let g = grid.len() as int;
    if shot.height % 32 != 0 {
        assert(a[g + w.len()] == h[0]);
    } else {
        lemma_other_field(index, "length_frames"@, "height"@);
        lemma_other_field(index, "width"@, "height"@);
        lemma_other_field(index, "references"@, "height"@);
        assert forall|k: int| 0 <= k < a.len() implies (#[trigger] a[k]).0 != ph by {
            let gw = g + w.len();
            let ge = gw + edge.len();
            if k < g {
                assert(a[k] == grid[k]);
            } else if k < gw {
                assert(a[k] == w[k - g]);
            } else if k < ge {
                assert(a[k] == edge[k - gw]);
            } else {
                assert(a[k] == no_slots[k - ge]);
            }
        }
    }
}

/// The width rule of the canvas, on its own.
#[verifier::spinoff_prover]
proof fn lemma_shape_width(head: Fragment, shot: DeclView, index: int)
    ensures
        shot.width % 32 != 0 ==> shape_rules(head, shot, index).contains(
            (
                shot_path(index, "width"@),
                dec_int(shot.width as int) + " 不是 32 的倍数。ComfyUI 会四舍五入，实际出图尺寸跟这里对不上。"@,
            ),
        ),
        shot.width % 32 == 0 ==> only_short_edge_at(shape_rules(head, shot, index), shot_path(index, "width"@)),
{
    let len = shot.length_frames as int;
    let grid = if !on_frame_grid(len) {
        let (lo, hi) = nearest_of(len);
        seq![
            (
                shot_path(index, "length_frames"@),
                dec_int(len) + " 不在 MiniMax H3 的帧数网格上（17k+5：5 / 22 / 39 / 56 / 73…）。最近的合法值是 "@
                    + dec_int(lo) + " 或 "@ + dec_int(hi)
                    + "。写别的值模型会自己 snap，于是成片时长跟这里声明的对不上，而 post 拼接按声明算。"@,
            ),
        ]
    } else {
        Seq::empty()
    };
    let w = if shot.width % 32 != 0 {
        seq![
            (
                shot_path(index, "width"@),
                dec_int(shot.width as int) + " 不是 32 的倍数。ComfyUI 会四舍五入，实际出图尺寸跟这里对不上。"@,
            ),
        ]
    } else {
        Seq::empty()
    };
    let h = if shot.height % 32 != 0 {
        seq![
            (
                shot_path(index, "height"@),
                dec_int(shot.height as int) + " 不是 32 的倍数。ComfyUI 会四舍五入，实际出图尺寸跟这里对不上。"@,
            ),
        ]
    } else {
        Seq::empty()
    };
    let short = if shot.width < shot.height {
        shot.width as int
    } else {
        shot.height as int
    };
    let edge = if short > 768 {
        seq![
            (
                shot_path(index, "width"@),
                "短边 "@ + dec_int(short) + " 超过 MiniMax H3 的原生画布 768。超出部分不会带来细节，只是更慢；要更高分辨率走 post 的超分。"@,
            ),
        ]
    } else {
        Seq::empty()
    };
    let no_slots = if head.autogrow@.len() == 0 && shot.references.len() > 0 {
        seq![
            (
                shot_path(index, "references"@),
                "head「"@ + head.id@ + "」不接参考（它没有 AUTOGROW 槽位）。要挂参考就换成有槽位的 head。"@,
            ),
        ]
    } else {
        Seq::empty()
    };
    let a = shape_rules(head, shot, index);
    assert(a =~= grid + w + h + edge + no_slots);
    reveal_strlit("length_frames");
    reveal_strlit("width");
    reveal_strlit("height");
    reveal_strlit("references");
    let pw = shot_path(index, "width"@);
    let g = grid.len() as int;
    if shot.width % 32 != 0 {
        assert(a[g] == w[0]);
    } else {
        lemma_other_field(index, "length_frames"@, "width"@);
        lemma_other_field(index, "height"@, "width"@);
        lemma_other_field(index, "references"@, "width"@);
        assert forall|k: int| 0 <= k < a.len() && (#[trigger] a[k]).0 == pw implies seq_starts_with(
            a[k].1,
            "短边 "@,
        ) by {
            let gh = g + h.len();
            let ghe = gh + edge.len();
            if k < g {
                assert(a[k] == grid[k]);
            } else if k < gh {
                assert(a[k] == h[k - g]);
            } else if k < ghe {
                assert(a[k] == edge[k - gh]);
                let tail = dec_int(short) + " 超过 MiniMax H3 的原生画布 768。超出部分不会带来细节，只是更慢；要更高分辨率走 post 的超分。"@;
                assert(a[k].1 =~= "短边 "@ + tail);
                assert(a[k].1.subrange(0, "短边 "@.len() as int) =~= "短边 "@);
            } else {
                assert(a[k] == no_slots[k - ghe]);
            }
        }
    }
}

proof fn lemma_contains_prefix(a: Seq<ViolationView>, b: Seq<ViolationView>, x: ViolationView)
    requires
        a.contains(x),
    ensures
        (a + b).contains(x),
{
    let k = choose|k: int| 0 <= k < a.len() && a[k] == x;
    assert((a + b)[k] == x);
}

/// The two sides of the canvas are checked against the 32-pixel grid each on
/// its own, whatever the other side is. For a shot whose head is known:
/// a violation at `prompt_pack.shots[index].height` is reported exactly when
/// the height is not a multiple of 32, and then it names the height; a width
/// that is not a multiple of 32 is reported at `width`, naming the width,
/// and a width that is a multiple of 32 draws no complaint at `width` but the
/// one about the short edge.
#[verifier::spinoff_prover]
pub proof fn lemma_canvas_sides_checked_apart(
    set: FragmentSet,
    shot: DeclView,
    known: Seq<Seq<char>>,
    prior: Seq<Seq<char>>,
    index: int,
)
    requires
        find_key(set.heads@, shot.head) is Some,
    ensures
        shot.height % 32 != 0 ==> shot_violations(set, shot, known, prior, index).contains(
            (
                shot_path(index, "height"@),
                dec_int(shot.height as int) + " 不是 32 的倍数。ComfyUI 会四舍五入，实际出图尺寸跟这里对不上。"@,
            ),
        ),
        shot.height % 32 == 0 ==> avoids(shot_violations(set, shot, known, prior, index), shot_path(index, "height"@)),
        shot.width % 32 != 0 ==> shot_violations(set, shot, known, prior, index).contains(
            (
                shot_path(index, "width"@),
                dec_int(shot.width as int) + " 不是 32 的倍数。ComfyUI 会四舍五入，实际出图尺寸跟这里对不上。"@,
            ),
        ),
        shot.width % 32 == 0 ==> only_short_edge_at(
            shot_violations(set, shot, known, prior, index),
            shot_path(index, "width"@),
        ),
{
    let head = find_key(set.heads@, shot.head)->0;
    let a = shape_rules(head, shot, index);
    let rest = past_the_canvas(set, head, shot, known, prior, index);
    lemma_shot_violations_split(set, shot, known, prior, index);
    let all = a + rest;
    reveal_strlit("width");
    reveal_strlit("height");
    let ph = shot_path(index, "height"@);
    let pw = shot_path(index, "width"@);
    lemma_shape_height(head, shot, index);
    lemma_shape_width(head, shot, index);
    if shot.height % 32 != 0 {
        lemma_contains_prefix(a, rest, (ph, dec_int(shot.height as int) + " 不是 32 的倍数。ComfyUI 会四舍五入，实际出图尺寸跟这里对不上。"@));
    } else {
        lemma_past_the_canvas_avoids(set, head, shot, known, prior, index, "height"@);
        lemma_avoids_concat(a, rest, ph);
    }
    if shot.width % 32 != 0 {
        lemma_contains_prefix(a, rest, (pw, dec_int(shot.width as int) + " 不是 32 的倍数。ComfyUI 会四舍五入，实际出图尺寸跟这里对不上。"@));
    } else {
        lemma_past_the_canvas_avoids(set, head, shot, known, prior, index, "width"@);
        assert forall|k: int| 0 <= k < all.len() && (#[trigger] all[k]).0 == pw implies seq_starts_with(
            all[k].1,
            "短边 "@,
        ) by {
            if k < a.len() {
                assert(all[k] == a[k]);
            } else {
                assert(all[k] == rest[k - a.len()]);
            }
        }
    }
}

} // verus!
