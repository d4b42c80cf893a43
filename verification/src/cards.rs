//! The structural rules of an asset plan that a schema cannot express:
//! which views a card must have, that exactly one anchor comes first, that
//! every other view refers to views generated before it, and that every view
//! prompt starts with the card's own identity prompt.
use vstd::prelude::*;
use crate::json::Json;
use crate::lexicon::{
    anchor_of_kind, anchor_view, required_views, required_views_of_kind, views_for, views_of_kind,
};
use crate::order::{pair_leq, pair_views, sort_pairs};
use crate::schema::{str_listed, MAX_CARD_REFERENCES};
use crate::error::{violation_views, Violation, ViolationView};
use crate::stage::StageId;
use crate::text::{
    chars_of, dec_nat, join_seq, join_strs, push_u64, seq_contains, seq_starts_with, str_contains,
    str_eq, str_starts_with, str_views_of, trim_seq, trim_start_seq, trim_start_str, trim_str,
};

verus! {

broadcast use vstd::string::group_string_axioms;

// ---------------------------------------------------------------------------
// What the rules read.

/// The string under `key`, or the empty string.
pub open spec fn text_of(v: Json, key: Seq<char>) -> Seq<char> {
    match v.field(key) {
        Some(x) => match x.str_of() {
            Some(s) => s,
            None => Seq::empty(),
        },
        None => Seq::empty(),
    }
}

/// The array under `key`, or nothing.
pub open spec fn items_of(v: Json, key: Seq<char>) -> Seq<Json> {
    match v.field(key) {
        Some(x) => match x.items() {
            Some(a) => a,
            None => Seq::empty(),
        },
        None => Seq::empty(),
    }
}

/// The strings among the first `n` items, in order.
pub open spec fn strings_in(items: Seq<Json>, n: int) -> Seq<Seq<char>>
    decreases n,
{
    if n <= 0 || n > items.len() {
        Seq::empty()
    } else {
        let rest = strings_in(items, n - 1);
        match items[n - 1].str_of() {
            Some(s) => rest.push(s),
            None => rest,
        }
    }
}

/// The view names of the first `n` views that have one, in order.
pub open spec fn view_names(views: Seq<Json>, n: int) -> Seq<Seq<char>>
    decreases n,
{
    if n <= 0 || n > views.len() {
        Seq::empty()
    } else {
        let rest = view_names(views, n - 1);
        match views[n - 1].field("view"@) {
            Some(x) => match x.str_of() {
                Some(s) => rest.push(s),
                None => rest,
            },
            None => rest,
        }
    }
}

/// Whether a view says `is_anchor: true`.
pub open spec fn is_anchor(view: Json) -> bool {
    match view.field("is_anchor"@) {
        Some(x) => x.bool_of() == Some(true),
        None => false,
    }
}

/// The positions of the anchors among the first `n` views.
pub open spec fn anchor_positions(views: Seq<Json>, n: int) -> Seq<int>
    decreases n,
{
    if n <= 0 || n > views.len() {
        Seq::empty()
    } else {
        let rest = anchor_positions(views, n - 1);
        if is_anchor(views[n - 1]) {
            rest.push(n - 1)
        } else {
            rest
        }
    }
}

/// The aspects that the first `n` views declare, in order.
pub open spec fn aspects_in(views: Seq<Json>, n: int) -> Seq<Seq<char>>
    decreases n,
{
    if n <= 0 || n > views.len() {
        Seq::empty()
    } else {
        let rest = aspects_in(views, n - 1);
        match views[n - 1].field("aspect"@) {
            Some(x) => match x.str_of() {
                Some(s) => rest.push(s),
                None => rest,
            },
            None => rest,
        }
    }
}

/// A sorted list with its repeated neighbours dropped.
pub open spec fn dedup(s: Seq<Seq<char>>) -> Seq<Seq<char>>
    decreases s.len(),
{
    if s.len() <= 1 {
        s
    } else {
        let r = dedup(s.drop_last());
        if s.last() == s[s.len() - 2] {
            r
        } else {
            r.push(s.last())
        }
    }
}

/// The distinct aspects, in string order.
pub open spec fn distinct_aspects(aspects: Seq<Seq<char>>) -> Seq<Seq<char>> {
    dedup(
        aspects.map_values(|a: Seq<char>| (a, Seq::<char>::empty())).sort_by(pair_leq()).map_values(
            |p: (Seq<char>, Seq<char>)| p.0,
        ),
    )
}

// ---------------------------------------------------------------------------
// The rules.

/// `key.assets[i]` followed by `suffix`.
pub open spec fn at(key: Seq<char>, i: int, suffix: Seq<char>) -> Seq<char> {
    key + ".assets["@ + dec_nat(i as nat) + "]"@ + suffix
}

/// `.views[j]` followed by `suffix`.
pub open spec fn view_suffix(j: int, suffix: Seq<char>) -> Seq<char> {
    ".views["@ + dec_nat(j as nat) + "]"@ + suffix
}

pub open spec fn lock_message(lock: Seq<char>) -> Seq<char> {
    "没有逐字包含 consistency_lock.character。卡片可以写得更细，但那段身份锁要原样在里面：「"@ + lock
        + "」"@
}

/// A required view of the kind that the card lacks, for the first `n` required views.
pub open spec fn missing_views(
    kind: Seq<char>,
    required: Seq<&'static str>,
    names: Seq<Seq<char>>,
    path: Seq<char>,
    n: int,
) -> Seq<ViolationView>
    decreases n,
{
    if n <= 0 || n > required.len() {
        Seq::empty()
    } else {
        let rest = missing_views(kind, required, names, path, n - 1);
        if names.contains(required[n - 1]@) {
            rest
        } else {
            rest.push(
                (
                    path,
                    kind + " 缺必需视图 "@ + required[n - 1]@
                        + "。多角度不是形容词：少一个角度就少一处可比对的参照，下游只能靠猜"@,
                ),
            )
        }
    }
}

/// Names among the first `n` that are not views of the kind.
pub open spec fn foreign_views(
    kind: Seq<char>,
    allowed: Seq<&'static str>,
    names: Seq<Seq<char>>,
    key: Seq<char>,
    i: int,
    n: int,
) -> Seq<ViolationView>
    decreases n,
{
    if n <= 0 || n > names.len() {
        Seq::empty()
    } else {
        let rest = foreign_views(kind, allowed, names, key, i, n - 1);
        if str_listed(allowed, names[n - 1]) {
            rest
        } else {
            rest.push(
                (
                    at(key, i, view_suffix(n - 1, ".view"@)),
                    names[n - 1] + " 不是 "@ + kind + " 的视图。合法取值："@ + join_seq(
                        str_views_of(allowed),
                        "、"@,
                    ),
                ),
            )
        }
    }
}

/// Exactly one anchor, the kind's own anchor view, in first place.
pub open spec fn anchor_violations(
    kind: Seq<char>,
    anchor: Seq<char>,
    views: Seq<Json>,
    key: Seq<char>,
    i: int,
) -> Seq<ViolationView> {
    let positions = anchor_positions(views, views.len() as int);
    if positions.len() == 1 {
        let j = positions[0];
        let got = text_of(views[j], "view"@);
        (if got != anchor {
            seq![
                (
                    at(key, i, view_suffix(j, ".is_anchor"@)),
                    kind + " 的主视图必须是 "@ + anchor + "，不是 "@ + got,
                ),
            ]
        } else {
            Seq::empty()
        }) + (if j != 0 {
            seq![
                (
                    at(key, i, view_suffix(j, Seq::empty())),
                    "主视图 "@ + anchor + " 排在第 "@ + dec_nat((j + 1) as nat)
                        + " 位。views 的顺序就是生成顺序，主视图必须排第一——它先出、单独出，后面每一张都要拿它当参考图"@,
                ),
            ]
        } else {
            Seq::empty()
        })
    } else if positions.len() == 0 {
        seq![
            (
                at(key, i, ".views"@),
                "没有主视图。"@ + kind + " 的主视图是 "@ + anchor
                    + "，它先出、单独出，其余视图都以它为参考图"@,
            ),
        ]
    } else {
        seq![
            (
                at(key, i, ".views"@),
                "有 "@ + dec_nat(positions.len())
                    + " 个主视图。每张卡有且仅有一个——并行出多个「主」视图，出来的是几个长得像但不是同一个人的角色"@,
            ),
        ]
    }
}

pub open spec fn prompt_message(identity: Seq<char>) -> Seq<char> {
    "没有以本卡的 identity_prompt 逐字开头。同一张卡的每个视图都要以它开头，一个字不改——那是这张卡里「是同一个东西」的唯一凭据。本卡的是：「"@
        + identity
        + "」。（别抄别的卡的：场景卡的身份锁是那个空间，道具卡的是那个道具，都不是角色。）"@
}

pub open spec fn earlier_text(earlier: Seq<Seq<char>>) -> Seq<char> {
    if earlier.len() == 0 {
        "（一个都没有）"@
    } else {
        join_seq(earlier, "、"@)
    }
}

/// References among the first `n` that point at no view generated before this one.
pub open spec fn unknown_references(
    name: Seq<char>,
    derived: Seq<Seq<char>>,
    earlier: Seq<Seq<char>>,
    path: Seq<char>,
    n: int,
) -> Seq<ViolationView>
    decreases n,
{
    if n <= 0 || n > derived.len() {
        Seq::empty()
    } else {
        let rest = unknown_references(name, derived, earlier, path, n - 1);
        if earlier.contains(derived[n - 1]) {
            rest
        } else {
            rest.push(
                (
                    path,
                    name + " 参考了 "@ + derived[n - 1] + "，但它不在本卡里、或者排在 "@ + name
                        + " 后面还没生成。只能挂**已经定稿**的视图；本卡在它之前的有："@
                        + earlier_text(earlier),
                ),
            )
        }
    }
}

/// The rules on the references of a view that is not the anchor.
pub open spec fn reference_violations(
    name: Seq<char>,
    anchor: Seq<char>,
    derived: Seq<Seq<char>>,
    earlier: Seq<Seq<char>>,
    path: Seq<char>,
) -> Seq<ViolationView> {
    if derived.len() == 0 {
        seq![
            (
                path,
                "非主视图必须挂参考图，第一项是 "@ + anchor
                    + "。没有参考就没有锚点，出来的是长得像但不是同一个人"@,
            ),
        ]
    } else {
        (if derived[0] != anchor {
            seq![
                (
                    path,
                    name + " 的 derived_from 第一项必须是主视图 "@ + anchor + "，写的却是 "@
                        + derived[0],
                ),
            ]
        } else {
            Seq::empty()
        }) + unknown_references(name, derived, earlier, path, derived.len() as int) + (
        if derived.len() > MAX_CARD_REFERENCES {
            seq![
                (
                    path,
                    "挂了 "@ + dec_nat(derived.len()) + " 张参考，上限是 "@ + dec_nat(
                        MAX_CARD_REFERENCES as nat,
                    ) + "。超出的部分卡片后端不吃，图会被判非法"@,
                ),
            ]
        } else {
            Seq::empty()
        })
    }
}

/// The rules on view `j` of a card.
pub open spec fn view_violations(
    key: Seq<char>,
    i: int,
    views: Seq<Json>,
    j: int,
    identity: Seq<char>,
    anchor: Seq<char>,
) -> Seq<ViolationView> {
    let view = views[j];
    let name = text_of(view, "view"@);
    let derived = strings_in(items_of(view, "derived_from"@), items_of(view, "derived_from"@).len() as int);
    let prompt = trim_start_seq(text_of(view, "prompt"@));
    let path = at(key, i, view_suffix(j, ".derived_from"@));
    (if identity.len() > 0 && !seq_starts_with(prompt, identity) {
        seq![(at(key, i, view_suffix(j, ".prompt"@)), prompt_message(identity))]
    } else {
        Seq::empty()
    }) + if is_anchor(view) {
        if derived.len() > 0 {
            seq![(path, "主视图自己不参考任何视图，这里不要填"@)]
        } else {
            Seq::empty()
        }
    } else {
        reference_violations(name, anchor, derived, view_names(views, j), path)
    }
}

/// A view is refused at its `prompt` exactly when its prompt, leading blanks
/// dropped, does not open with the card's identity prompt: containing it
/// further on is not enough. The refusal comes first among the view's findings.
pub proof fn lemma_prompt_opens_with_identity(
    key: Seq<char>,
    i: int,
    views: Seq<Json>,
    j: int,
    identity: Seq<char>,
    anchor: Seq<char>,
)
    ensures
        ({
            let v = view_violations(key, i, views, j, identity, anchor);
            let refused = identity.len() > 0 && !seq_starts_with(
                trim_start_seq(text_of(views[j], "prompt"@)),
                identity,
            );
            &&& refused ==> v.len() > 0 && v[0] == (
                at(key, i, view_suffix(j, ".prompt"@)),
                prompt_message(identity),
            )
            &&& !refused ==> v == (if is_anchor(views[j]) {
                if strings_in(items_of(views[j], "derived_from"@), items_of(views[j], "derived_from"@).len() as int).len() > 0 {
                    seq![(at(key, i, view_suffix(j, ".derived_from"@)), "主视图自己不参考任何视图，这里不要填"@)]
                } else {
                    Seq::empty()
                }
            } else {
                reference_violations(
                    text_of(views[j], "view"@),
                    anchor,
                    strings_in(items_of(views[j], "derived_from"@), items_of(views[j], "derived_from"@).len() as int),
                    view_names(views, j),
                    at(key, i, view_suffix(j, ".derived_from"@)),
                )
            })
        }),
{
    let v = view_violations(key, i, views, j, identity, anchor);
    let refused = identity.len() > 0 && !seq_starts_with(trim_start_seq(text_of(views[j], "prompt"@)), identity);
    if !refused {
        assert(v =~= Seq::<ViolationView>::empty() + (if is_anchor(views[j]) {
            if strings_in(items_of(views[j], "derived_from"@), items_of(views[j], "derived_from"@).len() as int).len() > 0 {
                seq![(at(key, i, view_suffix(j, ".derived_from"@)), "主视图自己不参考任何视图，这里不要填"@)]
            } else {
                Seq::empty()
            }
        } else {
            reference_violations(
                text_of(views[j], "view"@),
                anchor,
                strings_in(items_of(views[j], "derived_from"@), items_of(views[j], "derived_from"@).len() as int),
                view_names(views, j),
                at(key, i, view_suffix(j, ".derived_from"@)),
            )
        }));
    }
}

/// Only the visual-assets stage has structural rules: for any other stage
/// nothing is found (and `structural` leaves its output as it was).
pub proof fn lemma_structural_only_for_cards(stage: StageId, v: Json, key: Seq<char>)
    ensures
        stage != StageId::VisualAssets ==> structural_violations(stage, v, key) == Seq::<ViolationView>::empty(),
{
}

/// The rules on the first `n` views of a card.
pub open spec fn views_violations(
    key: Seq<char>,
    i: int,
    views: Seq<Json>,
    identity: Seq<char>,
    anchor: Seq<char>,
    n: int,
) -> Seq<ViolationView>
    decreases n,
{
    if n <= 0 || n > views.len() {
        Seq::empty()
    } else {
        views_violations(key, i, views, identity, anchor, n - 1) + view_violations(
            key,
            i,
            views,
            n - 1,
            identity,
            anchor,
        )
    }
}

pub open spec fn aspect_violations(key: Seq<char>, i: int, views: Seq<Json>) -> Seq<ViolationView> {
    let distinct = distinct_aspects(aspects_in(views, views.len() as int));
    if distinct.len() > 1 {
        seq![
            (
                at(key, i, ".views"@),
                "同一张卡出现了多种画幅（"@ + join_seq(distinct, "、"@)
                    + "）。一张竖一张方会让人误以为是不同批次生成的"@,
            ),
        ]
    } else {
        Seq::empty()
    }
}

/// Every structural violation of asset `i` of the plan under `key`.
pub open spec fn card_violations(key: Seq<char>, i: int, asset: Json, lock: Seq<char>) -> Seq<
    ViolationView,
> {
    let kind = text_of(asset, "asset_kind"@);
    let identity = text_of(asset, "identity_prompt"@);
    let first = if kind == "character_card"@ && lock.len() > 0 && !seq_contains(identity, lock) {
        seq![(at(key, i, ".identity_prompt"@), lock_message(lock))]
    } else {
        Seq::empty()
    };
    let allowed = views_of_kind(kind);
    if allowed.len() == 0 {
        first
    } else {
        let views = items_of(asset, "views"@);
        let names = view_names(views, views.len() as int);
        let anchor = match anchor_of_kind(kind) {
            Some(a) => a,
            None => Seq::empty(),
        };
        let required = required_views_of_kind(kind);
        first + missing_views(kind, required, names, at(key, i, ".views"@), required.len() as int)
            + foreign_views(kind, allowed, names, key, i, names.len() as int) + anchor_violations(
            kind,
            anchor,
            views,
            key,
            i,
        ) + views_violations(key, i, views, trim_seq(identity), anchor, views.len() as int)
            + aspect_violations(key, i, views)
    }
}

/// The violations of the first `n` assets.
pub open spec fn cards_violations(key: Seq<char>, assets: Seq<Json>, lock: Seq<char>, n: int) -> Seq<
    ViolationView,
>
    decreases n,
{
    if n <= 0 || n > assets.len() {
        Seq::empty()
    } else {
        cards_violations(key, assets, lock, n - 1) + card_violations(key, n - 1, assets[n - 1], lock)
    }
}

/// The lock that the plan declares for the character, or the empty string.
pub open spec fn plan_lock(v: Json) -> Seq<char> {
    match v.field("consistency_lock"@) {
        Some(c) => text_of(c, "character"@),
        None => Seq::empty(),
    }
}

/// The structural violations of a stage's outputs `v`, found under `key`.
pub open spec fn structural_violations(stage: StageId, v: Json, key: Seq<char>) -> Seq<
    ViolationView,
> {
    if stage != StageId::VisualAssets {
        Seq::empty()
    } else {
        match v.field("assets"@) {
            Some(a) => match a.items() {
                Some(assets) => cards_violations(key, assets, plan_lock(v), assets.len() as int),
                None => Seq::empty(),
            },
            None => Seq::empty(),
        }
    }
}

// ---------------------------------------------------------------------------
// Executable rules.

fn text_of_exec<'a>(v: &'a Json, key: &str) -> (r: &'a str)
    ensures
        r@ == text_of(*v, key@),
{
    proof {
        reveal_strlit("");
    }
    match v.get(key) {
        Some(x) => match x.as_str() {
            Some(s) => s,
            None => "",
        },
        None => "",
    }
}

fn items_of_exec<'a>(v: &'a Json, key: &str) -> (r: Option<&'a Vec<Json>>)
    ensures
        r matches Some(a) ==> a@ == items_of(*v, key@),
        r is None ==> items_of(*v, key@).len() == 0,
{
    match v.get(key) {
        Some(x) => x.as_array(),
        None => None,
    }
}

pub open spec fn str_seqs(v: Seq<&str>) -> Seq<Seq<char>> {
    v.map_values(|s: &str| s@)
}

fn strings_in_exec<'a>(items: Option<&'a Vec<Json>>) -> (r: Vec<&'a str>)
    ensures
        str_seqs(r@) == match items {
            Some(a) => strings_in(a@, a@.len() as int),
            None => Seq::empty(),
        },
{
    let mut out: Vec<&'a str> = Vec::new();
    match items {
        Some(a) => {
            let mut k: usize = 0;
            while k < a.len()
                invariant
                    k <= a@.len(),
                    str_seqs(out@) == strings_in(a@, k as int),
                decreases a.len() - k,
            {
                match a[k].as_str() {
                    Some(x) => {
                        out.push(x);
                    },
                    None => {},
                }
                k = k + 1;
                assert(str_seqs(out@) =~= strings_in(a@, k as int));
            }
        },
        None => {
            assert(str_seqs(out@) =~= Seq::<Seq<char>>::empty());
        },
    }
    out
}

fn view_names_exec<'a>(views: &'a Vec<Json>, n: usize) -> (r: Vec<&'a str>)
    requires
        n <= views@.len(),
    ensures
        str_seqs(r@) == view_names(views@, n as int),
{
    let mut out: Vec<&'a str> = Vec::new();
    let mut k: usize = 0;
    while k < n
        invariant
            n <= views@.len(),
            k <= n,
            str_seqs(out@) == view_names(views@, k as int),
        decreases n - k,
    {
        match views[k].get("view") {
            Some(x) => match x.as_str() {
                Some(name) => {
                    out.push(name);
                },
                None => {},
            },
            None => {},
        }
        k = k + 1;
        assert(str_seqs(out@) =~= view_names(views@, k as int));
    }
    out
}

fn is_anchor_exec(view: &Json) -> (r: bool)
    ensures
        r == is_anchor(*view),
{
    match view.get("is_anchor") {
        Some(x) => match x.as_bool() {
            Some(b) => b,
            None => false,
        },
        None => false,
    }
}

fn contains_name(names: &Vec<&str>, x: &str) -> (r: bool)
    ensures
        r == str_seqs(names@).contains(x@),
{
    let mut k: usize = 0;
    while k < names.len()
        invariant
            k <= names@.len(),
            forall|m: int| 0 <= m < k ==> (#[trigger] names@[m])@ != x@,
        decreases names.len() - k,
    {
        if str_eq(names[k], x) {
            assert(str_seqs(names@)[k as int] == x@);
            return true;
        }
        k = k + 1;
    }
    assert forall|m: int| 0 <= m < str_seqs(names@).len() implies str_seqs(names@)[m] != x@ by {
        assert(str_seqs(names@)[m] == names@[m]@);
    }
    false
}

fn listed(allowed: &[&'static str], x: &str) -> (r: bool)
    ensures
        r == str_listed(allowed@, x@),
{
    let mut k: usize = 0;
    while k < allowed.len()
        invariant
            k <= allowed@.len(),
            forall|m: int| 0 <= m < k ==> (#[trigger] allowed@[m])@ != x@,
        decreases allowed.len() - k,
    {
        if str_eq(allowed[k], x) {
            assert(allowed@[k as int]@ == x@);
            return true;
        }
        k = k + 1;
    }
    false
}

fn at_exec(key: &str, i: usize, suffix: &str) -> (r: String)
    ensures
        r@ == at(key@, i as int, suffix@),
{
    let mut s = String::from_str(key);
    s.append(".assets[");
    push_u64(&mut s, i as u64);
    s.append("]");
    s.append(suffix);
    s
}

fn view_suffix_exec(j: usize, suffix: &str) -> (r: String)
    ensures
        r@ == view_suffix(j as int, suffix@),
{
    let mut s = String::from_str(".views[");
    push_u64(&mut s, j as u64);
    s.append("]");
    s.append(suffix);
    s
}

fn push_violation(out: &mut Vec<Violation>, path: String, message: String)
    ensures
        violation_views(final(out)@) == violation_views(old(out)@).push((path@, message@)),
{
    out.push(Violation::new(path, message));
    assert(violation_views(out@) =~= violation_views(old(out)@).push((path@, message@)));
}

fn check_missing_views(
    kind: &str,
    required: &[&'static str],
    names: &Vec<&str>,
    key: &str,
    i: usize,
    out: &mut Vec<Violation>,
)
    ensures
        violation_views(final(out)@) == violation_views(old(out)@) + missing_views(
            kind@,
            required@,
            str_seqs(names@),
            at(key@, i as int, ".views"@),
            required@.len() as int,
        ),
{
    let ghost start = violation_views(out@);
    let mut k: usize = 0;
    while k < required.len()
        invariant
            k <= required@.len(),
            violation_views(out@) == start + missing_views(
                kind@,
                required@,
                str_seqs(names@),
                at(key@, i as int, ".views"@),
                k as int,
            ),
        decreases required.len() - k,
    {
        let ghost prev = violation_views(out@);
        if !contains_name(names, required[k]) {
            let mut msg = String::from_str(kind);
            msg.append(" 缺必需视图 ");
            msg.append(required[k]);
            msg.append("。多角度不是形容词：少一个角度就少一处可比对的参照，下游只能靠猜");
            push_violation(out, at_exec(key, i, ".views"), msg);
        }
        k = k + 1;
        assert(violation_views(out@) =~= start + missing_views(
            kind@,
            required@,
            str_seqs(names@),
            at(key@, i as int, ".views"@),
            k as int,
        ));
    }
}

fn check_foreign_views(
    kind: &str,
    allowed: &[&'static str],
    names: &Vec<&str>,
    key: &str,
    i: usize,
    out: &mut Vec<Violation>,
)
    ensures
        violation_views(final(out)@) == violation_views(old(out)@) + foreign_views(
            kind@,
            allowed@,
            str_seqs(names@),
            key@,
            i as int,
            names@.len() as int,
        ),
{
    let ghost start = violation_views(out@);
    let legal = join_strs(&words_of(allowed), "、");
    let mut k: usize = 0;
    while k < names.len()
        invariant
            k <= names@.len(),
            legal@ == join_seq(str_views_of(allowed@), "、"@),
            violation_views(out@) == start + foreign_views(
                kind@,
                allowed@,
                str_seqs(names@),
                key@,
                i as int,
                k as int,
            ),
        decreases names.len() - k,
    {
        if !listed(allowed, names[k]) {
            let mut msg = String::from_str(names[k]);
            msg.append(" 不是 ");
            msg.append(kind);
            msg.append(" 的视图。合法取值：");
            msg.append(legal.as_str());
            let suffix = view_suffix_exec(k, ".view");
            push_violation(out, at_exec(key, i, suffix.as_str()), msg);
        }
        k = k + 1;
        assert(violation_views(out@) =~= start + foreign_views(
            kind@,
            allowed@,
            str_seqs(names@),
            key@,
            i as int,
            k as int,
        ));
    }
}

fn words_of(s: &[&'static str]) -> (r: Vec<&'static str>)
    ensures
        r@ == s@,
{
    let mut v: Vec<&'static str> = Vec::new();
    let mut k: usize = 0;
    while k < s.len()
        invariant
            k <= s@.len(),
            v@ == s@.subrange(0, k as int),
        decreases s.len() - k,
    {
        v.push(s[k]);
        k = k + 1;
        assert(v@ =~= s@.subrange(0, k as int));
    }
    assert(s@.subrange(0, s@.len() as int) =~= s@);
    v
}

fn anchor_positions_exec(views: &Vec<Json>) -> (r: Vec<usize>)
    ensures
        r@.map_values(|j: usize| j as int) == anchor_positions(views@, views@.len() as int),
        forall|m: int| 0 <= m < r@.len() ==> (#[trigger] r@[m]) < views@.len(),
{
    let mut out: Vec<usize> = Vec::new();
    let mut k: usize = 0;
    while k < views.len()
        invariant
            k <= views@.len(),
            out@.map_values(|j: usize| j as int) == anchor_positions(views@, k as int),
            forall|m: int| 0 <= m < out@.len() ==> (#[trigger] out@[m]) < k,
        decreases views.len() - k,
    {
        if is_anchor_exec(&views[k]) {
            out.push(k);
        }
        k = k + 1;
        assert(out@.map_values(|j: usize| j as int) =~= anchor_positions(views@, k as int));
    }
    out
}

fn check_anchor(
    kind: &str,
    anchor: &str,
    views: &Vec<Json>,
    key: &str,
    i: usize,
    out: &mut Vec<Violation>,
)
    ensures
        violation_views(final(out)@) == violation_views(old(out)@) + anchor_violations(
            kind@,
            anchor@,
            views@,
            key@,
            i as int,
        ),
{
    let ghost start = violation_views(out@);
    let positions = anchor_positions_exec(views);
    let ghost pv = anchor_positions(views@, views@.len() as int);
    assert(positions@.len() == pv.len());
    if positions.len() == 1 {
        let j = positions[0];
        assert(pv[0] == j as int);
        let got = text_of_exec(&views[j], "view");
        if !str_eq(got, anchor) {
            let mut msg = String::from_str(kind);
            msg.append(" 的主视图必须是 ");
            msg.append(anchor);
            msg.append("，不是 ");
            msg.append(got);
            let suffix = view_suffix_exec(j, ".is_anchor");
            push_violation(out, at_exec(key, i, suffix.as_str()), msg);
        }
        let ghost mid = violation_views(out@);
        if j != 0 {
            let mut msg = String::from_str("主视图 ");
            msg.append(anchor);
            msg.append(" 排在第 ");
            let count = views.len();
            assert(j < count);
            push_u64(&mut msg, (j + 1) as u64);
            msg.append(
                " 位。views 的顺序就是生成顺序，主视图必须排第一——它先出、单独出，后面每一张都要拿它当参考图",
            );
            let suffix = view_suffix_exec(j, "");
            proof {
                reveal_strlit("");
                assert(suffix@ == view_suffix(j as int, Seq::empty()));
            }
            push_violation(out, at_exec(key, i, suffix.as_str()), msg);
        }
        assert(violation_views(out@) =~= start + anchor_violations(
            kind@,
            anchor@,
            views@,
            key@,
            i as int,
        ));
    } else if positions.len() == 0 {
        let mut msg = String::from_str("没有主视图。");
        msg.append(kind);
        msg.append(" 的主视图是 ");
        msg.append(anchor);
        msg.append("，它先出、单独出，其余视图都以它为参考图");
        push_violation(out, at_exec(key, i, ".views"), msg);
        assert(violation_views(out@) =~= start + anchor_violations(
            kind@,
            anchor@,
            views@,
            key@,
            i as int,
        ));
    } else {
        let mut msg = String::from_str("有 ");
        push_u64(&mut msg, positions.len() as u64);
        msg.append(
            " 个主视图。每张卡有且仅有一个——并行出多个「主」视图，出来的是几个长得像但不是同一个人的角色",
        );
        push_violation(out, at_exec(key, i, ".views"), msg);
        assert(violation_views(out@) =~= start + anchor_violations(
            kind@,
            anchor@,
            views@,
            key@,
            i as int,
        ));
    }
}

fn join_names(names: &Vec<&str>) -> (r: String)
    ensures
        r@ == earlier_text(str_seqs(names@)),
{
    if names.len() == 0 {
        String::from_str("（一个都没有）")
    } else {
        let r = join_strs(names, "、");
        assert(str_views_of(names@) =~= str_seqs(names@));
        r
    }
}

fn check_references(
    name: &str,
    anchor: &str,
    derived: &Vec<&str>,
    earlier: &Vec<&str>,
    path: &str,
    out: &mut Vec<Violation>,
)
    ensures
        violation_views(final(out)@) == violation_views(old(out)@) + reference_violations(
            name@,
            anchor@,
            str_seqs(derived@),
            str_seqs(earlier@),
            path@,
        ),
{
    let ghost start = violation_views(out@);
    let ghost dv = str_seqs(derived@);
    if derived.len() == 0 {
        let mut msg = String::from_str("非主视图必须挂参考图，第一项是 ");
        msg.append(anchor);
        msg.append("。没有参考就没有锚点，出来的是长得像但不是同一个人");
        push_violation(out, String::from_str(path), msg);
        assert(violation_views(out@) =~= start + reference_violations(
            name@,
            anchor@,
            dv,
            str_seqs(earlier@),
            path@,
        ));
        return ;
    }
    if !str_eq(derived[0], anchor) {
        let mut msg = String::from_str(name);
        msg.append(" 的 derived_from 第一项必须是主视图 ");
        msg.append(anchor);
        msg.append("，写的却是 ");
        msg.append(derived[0]);
        push_violation(out, String::from_str(path), msg);
    }
    let ghost mid = violation_views(out@);
    assert(mid == start + (if dv[0] != anchor@ {
        seq![
            (
                path@,
                name@ + " 的 derived_from 第一项必须是主视图 "@ + anchor@ + "，写的却是 "@ + dv[0],
            ),
        ]
    } else {
        Seq::empty()
    }));
    let before = join_names(earlier);
    let mut k: usize = 0;
    while k < derived.len()
        invariant
            k <= derived@.len(),
            dv == str_seqs(derived@),
            before@ == earlier_text(str_seqs(earlier@)),
            violation_views(out@) == mid + unknown_references(
                name@,
                dv,
                str_seqs(earlier@),
                path@,
                k as int,
            ),
        decreases derived.len() - k,
    {
        if !contains_name(earlier, derived[k]) {
            let mut msg = String::from_str(name);
            msg.append(" 参考了 ");
            msg.append(derived[k]);
            msg.append("，但它不在本卡里、或者排在 ");
            msg.append(name);
            msg.append(" 后面还没生成。只能挂**已经定稿**的视图；本卡在它之前的有：");
            msg.append(before.as_str());
            push_violation(out, String::from_str(path), msg);
        }
        k = k + 1;
        assert(violation_views(out@) =~= mid + unknown_references(
            name@,
            dv,
            str_seqs(earlier@),
            path@,
            k as int,
        ));
    }
    let ghost mid2 = violation_views(out@);
    if derived.len() > MAX_CARD_REFERENCES {
        let mut msg = String::from_str("挂了 ");
        push_u64(&mut msg, derived.len() as u64);
        msg.append(" 张参考，上限是 ");
        push_u64(&mut msg, MAX_CARD_REFERENCES as u64);
        msg.append("。超出的部分卡片后端不吃，图会被判非法");
        push_violation(out, String::from_str(path), msg);
    }
    assert(violation_views(out@) =~= start + reference_violations(
        name@,
        anchor@,
        dv,
        str_seqs(earlier@),
        path@,
    ));
}

fn check_view(
    key: &str,
    i: usize,
    views: &Vec<Json>,
    j: usize,
    identity: &str,
    anchor: &str,
    out: &mut Vec<Violation>,
)
    requires
        j < views@.len(),
    ensures
        violation_views(final(out)@) == violation_views(old(out)@) + view_violations(
            key@,
            i as int,
            views@,
            j as int,
            identity@,
            anchor@,
        ),
{
    let ghost start = violation_views(out@);
    let view = &views[j];
    let name = text_of_exec(view, "view");
    let derived = strings_in_exec(items_of_exec(view, "derived_from"));
    proof {
        let it = items_of(*view, "derived_from"@);
        assert(str_seqs(derived@) == strings_in(it, it.len() as int));
    }
    let prompt = trim_start_str(text_of_exec(view, "prompt"));
    let p = view_suffix_exec(j, ".derived_from");
    let path = at_exec(key, i, p.as_str());
    if identity.unicode_len() > 0 && !str_starts_with(prompt, identity) {
        let mut msg = String::from_str(
            "没有以本卡的 identity_prompt 逐字开头。同一张卡的每个视图都要以它开头，一个字不改——那是这张卡里「是同一个东西」的唯一凭据。本卡的是：「",
        );
        msg.append(identity);
        msg.append("」。（别抄别的卡的：场景卡的身份锁是那个空间，道具卡的是那个道具，都不是角色。）");
        let suffix = view_suffix_exec(j, ".prompt");
        push_violation(out, at_exec(key, i, suffix.as_str()), msg);
    }
    let ghost mid = violation_views(out@);
    if is_anchor_exec(view) {
        if derived.len() > 0 {
            push_violation(out, path, String::from_str("主视图自己不参考任何视图，这里不要填"));
        }
    } else {
        let earlier = view_names_exec(views, j);
        check_references(name, anchor, &derived, &earlier, path.as_str(), out);
    }
    assert(violation_views(out@) =~= start + view_violations(
        key@,
        i as int,
        views@,
        j as int,
        identity@,
        anchor@,
    ));
}

pub fn dedup_strings(v: &Vec<String>) -> (r: Vec<String>)
    ensures
        crate::text::views_of(r@) == dedup(crate::text::views_of(v@)),
{
    let ghost vs = crate::text::views_of(v@);
    let mut out: Vec<String> = Vec::new();
    let mut k: usize = 0;
    while k < v.len()
        invariant
            k <= v@.len(),
            vs == crate::text::views_of(v@),
            crate::text::views_of(out@) == dedup(vs.subrange(0, k as int)),
            k > 0 ==> out@.len() > 0 && out@.last()@ == vs[k - 1],
        decreases v.len() - k,
    {
        let ghost sub = vs.subrange(0, k + 1);
        assert(sub.drop_last() =~= vs.subrange(0, k as int));
        proof {
            if k > 0 {
                lemma_dedup_last(vs.subrange(0, k as int));
            }
        }
        if k == 0 || !str_eq(v[k].as_str(), v[k - 1].as_str()) {
            out.push(v[k].clone());
        }
        k = k + 1;
        assert(crate::text::views_of(out@) =~= dedup(vs.subrange(0, k as int)));
    }
    assert(vs.subrange(0, v@.len() as int) =~= vs);
    out
}

proof fn lemma_dedup_last(s: Seq<Seq<char>>)
    requires
        s.len() > 0,
    ensures
        dedup(s).len() > 0,
        dedup(s).last() == s.last(),
    decreases s.len(),
{
    if s.len() > 1 {
        lemma_dedup_last(s.drop_last());
    }
}

fn check_aspects(key: &str, i: usize, views: &Vec<Json>, out: &mut Vec<Violation>)
    ensures
        violation_views(final(out)@) == violation_views(old(out)@) + aspect_violations(
            key@,
            i as int,
            views@,
        ),
{
    let ghost start = violation_views(out@);
    let mut pairs: Vec<(String, String)> = Vec::new();
    let mut k: usize = 0;
    let ghost target = aspects_in(views@, views@.len() as int).map_values(
        |a: Seq<char>| (a, Seq::<char>::empty()),
    );
    while k < views.len()
        invariant
            k <= views@.len(),
            pair_views(pairs@) == aspects_in(views@, k as int).map_values(
                |a: Seq<char>| (a, Seq::<char>::empty()),
            ),
        decreases views.len() - k,
    {
        let ghost prev = pair_views(pairs@);
        match views[k].get("aspect") {
            Some(x) => match x.as_str() {
                Some(a) => {
                    let e = String::new();
                    assert(e@ =~= Seq::<char>::empty());
                    pairs.push((String::from_str(a), e));
                    assert(pair_views(pairs@) =~= prev.push((a@, Seq::<char>::empty())));
                },
                None => {},
            },
            None => {},
        }
        k = k + 1;
        assert(pair_views(pairs@) =~= aspects_in(views@, k as int).map_values(
            |a: Seq<char>| (a, Seq::<char>::empty()),
        ));
    }
    let sorted = sort_pairs(pairs);
    let mut firsts: Vec<String> = Vec::new();
    let mut m: usize = 0;
    while m < sorted.len()
        invariant
            m <= sorted@.len(),
            crate::text::views_of(firsts@) == pair_views(sorted@).subrange(0, m as int).map_values(
                |p: (Seq<char>, Seq<char>)| p.0,
            ),
        decreases sorted.len() - m,
    {
        let ghost prev = crate::text::views_of(firsts@);
        firsts.push(sorted[m].0.clone());
        assert(crate::text::views_of(firsts@) =~= prev.push(pair_views(sorted@)[m as int].0));
        assert(pair_views(sorted@).subrange(0, m + 1) =~= pair_views(sorted@).subrange(0, m as int).push(
            pair_views(sorted@)[m as int],
        ));
        m = m + 1;
        assert(crate::text::views_of(firsts@) =~= pair_views(sorted@).subrange(0, m as int).map_values(
            |p: (Seq<char>, Seq<char>)| p.0,
        ));
    }
    assert(pair_views(sorted@).subrange(0, sorted@.len() as int) =~= pair_views(sorted@));
    let distinct = dedup_strings(&firsts);
    let ghost dv = distinct_aspects(aspects_in(views@, views@.len() as int));
    assert(crate::text::views_of(distinct@) == dv);
    if distinct.len() > 1 {
        let mut msg = String::from_str("同一张卡出现了多种画幅（");
        let joined = crate::text::join(&distinct, "、");
        msg.append(joined.as_str());
        msg.append("）。一张竖一张方会让人误以为是不同批次生成的");
        push_violation(out, at_exec(key, i, ".views"), msg);
    }
    assert(violation_views(out@) =~= start + aspect_violations(key@, i as int, views@));
}

fn check_card(key: &str, i: usize, asset: &Json, lock: &str, out: &mut Vec<Violation>)
    ensures
        violation_views(final(out)@) == violation_views(old(out)@) + card_violations(
            key@,
            i as int,
            *asset,
            lock@,
        ),
{
    let ghost start = violation_views(out@);
    let kind = text_of_exec(asset, "asset_kind");
    let identity = text_of_exec(asset, "identity_prompt");
    if str_eq(kind, "character_card") && lock.unicode_len() > 0 && !str_contains(identity, lock) {
        let mut msg = String::from_str(
            "没有逐字包含 consistency_lock.character。卡片可以写得更细，但那段身份锁要原样在里面：「",
        );
        msg.append(lock);
        msg.append("」");
        push_violation(out, at_exec(key, i, ".identity_prompt"), msg);
    }
    let allowed = views_for(kind);
    if allowed.len() == 0 {
        assert(violation_views(out@) =~= start + card_violations(key@, i as int, *asset, lock@));
        return ;
    }
    let empty: Vec<Json> = Vec::new();
    let views: &Vec<Json> = match items_of_exec(asset, "views") {
        Some(v) => v,
        None => &empty,
    };
    assert(views@ =~= items_of(*asset, "views"@));
    let names = view_names_exec(views, views.len());
    let anchor = match anchor_view(kind) {
        Some(a) => a,
        None => {
            proof {
                reveal_strlit("");
            }
            ""
        },
    };
    let ghost a1 = violation_views(out@);
    check_missing_views(kind, required_views(kind), &names, key, i, out);
    let ghost a2 = violation_views(out@);
    check_foreign_views(kind, allowed, &names, key, i, out);
    let ghost a3 = violation_views(out@);
    check_anchor(kind, anchor, views, key, i, out);
    let ghost a4 = violation_views(out@);
    let identity_t = trim_str(identity);
    let mut j: usize = 0;
    while j < views.len()
        invariant
            j <= views@.len(),
            violation_views(out@) == a4 + views_violations(
                key@,
                i as int,
                views@,
                identity_t@,
                anchor@,
                j as int,
            ),
        decreases views.len() - j,
    {
        check_view(key, i, views, j, identity_t, anchor, out);
        j = j + 1;
        assert(violation_views(out@) =~= a4 + views_violations(
            key@,
            i as int,
            views@,
            identity_t@,
            anchor@,
            j as int,
        ));
    }
    let ghost a5 = violation_views(out@);
    check_aspects(key, i, views, out);
    assert(violation_views(out@) =~= start + card_violations(key@, i as int, *asset, lock@));
}

/// Appends the structural violations of a stage's outputs `v`, found under `key`.
pub fn structural(stage: StageId, v: &Json, key: &str, out: &mut Vec<Violation>)
    ensures
        violation_views(final(out)@) == violation_views(old(out)@) + structural_violations(
            stage,
            *v,
            key@,
        ),
{
    let ghost start = violation_views(out@);
    if stage != StageId::VisualAssets {
        assert(violation_views(out@) =~= start + structural_violations(stage, *v, key@));
        return ;
    }
    let assets = match v.get("assets") {
        Some(a) => match a.as_array() {
            Some(x) => x,
            None => {
                assert(violation_views(out@) =~= start + structural_violations(stage, *v, key@));
                return ;
            },
        },
        None => {
            assert(violation_views(out@) =~= start + structural_violations(stage, *v, key@));
            return ;
        },
    };
    proof {
        reveal_strlit("");
    }
    let lock = match v.get("consistency_lock") {
        Some(c) => text_of_exec(c, "character"),
        None => "",
    };
    let mut i: usize = 0;
    while i < assets.len()
        invariant
            i <= assets@.len(),
            lock@ == plan_lock(*v),
            violation_views(out@) == start + cards_violations(key@, assets@, lock@, i as int),
        decreases assets.len() - i,
    {
        check_card(key, i, &assets[i], lock, out);
        i = i + 1;
        assert(violation_views(out@) =~= start + cards_violations(key@, assets@, lock@, i as int));
    }
}

} // verus!
