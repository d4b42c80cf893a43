//! Reading a shot declaration out of a prompt-pack shot.
//!
//! The fields and their defaults are those of the declaration: `seed`,
//! `references`, `guides`, `first_frame` and `last_frame` may be left out;
//! the rest are required. Fields the declaration does not know are ignored,
//! so a shot that also carries `workflow` or `audio` still reads.
use vstd::prelude::*;
use crate::assembly::{
    DeclView, Guide, GuideKind, GuideView, Medium, RefView, Reference, ShotDeclaration,
};
use crate::json::{lookup, Json, Number};
use crate::text::str_eq;

verus! {

broadcast use vstd::string::group_string_axioms;

// ---------------------------------------------------------------------------
// The rules, as values.

/// A string field.
pub open spec fn text_value(v: Json) -> Option<Seq<char>> {
    v.str_of()
}

/// An `i64` field: an integer within `i64`.
pub open spec fn i64_value(v: Json) -> Option<i64> {
    match v {
        Json::Num(Number::Int(i)) => if i64::MIN <= i <= i64::MAX {
            Some(i as i64)
        } else {
            None
        },
        _ => None,
    }
}

/// A unit variant: its name as a string, or an object whose one entry maps
/// the name to `null`.
pub open spec fn variant_name(v: Json) -> Option<Seq<char>> {
    match v {
        Json::Str(s) => Some(s@),
        Json::Object(e) => if e@.len() == 1 && e@[0].1 is Null {
            Some(e@[0].0@)
        } else {
            None
        },
        _ => None,
    }
}

pub open spec fn medium_named(s: Seq<char>) -> Option<Medium> {
    if s == "image"@ {
        Some(Medium::Image)
    } else if s == "video"@ {
        Some(Medium::Video)
    } else if s == "audio"@ {
        Some(Medium::Audio)
    } else {
        None
    }
}

pub open spec fn guide_kind_named(s: Seq<char>) -> Option<GuideKind> {
    if s == "image"@ {
        Some(GuideKind::Image)
    } else if s == "clip"@ {
        Some(GuideKind::Clip)
    } else if s == "audio"@ {
        Some(GuideKind::Audio)
    } else {
        None
    }
}

pub open spec fn medium_value(v: Json) -> Option<Medium> {
    match variant_name(v) {
        Some(s) => medium_named(s),
        None => None,
    }
}

pub open spec fn guide_kind_value(v: Json) -> Option<GuideKind> {
    match variant_name(v) {
        Some(s) => guide_kind_named(s),
        None => None,
    }
}

/// A reference: an object with `kind` and `asset_id` (and `with_audio`,
/// false when left out), or the same fields as an array in that order.
pub open spec fn reference_value(v: Json) -> Option<RefView> {
    match v {
        Json::Object(e) => {
            let e = e@;
            match (lookup(e, "kind"@), lookup(e, "asset_id"@)) {
                (Some(k), Some(a)) => match (medium_value(k), text_value(a)) {
                    (Some(kind), Some(asset)) => match lookup(e, "with_audio"@) {
                        Some(w) => match w.bool_of() {
                            Some(b) => Some((kind, asset, b)),
                            None => None,
                        },
                        None => Some((kind, asset, false)),
                    },
                    _ => None,
                },
                _ => None,
            }
        },
        Json::Array(a) => {
            let a = a@;
            if a.len() == 2 || a.len() == 3 {
                match (medium_value(a[0]), text_value(a[1])) {
                    (Some(kind), Some(asset)) => if a.len() == 3 {
                        match a[2].bool_of() {
                            Some(b) => Some((kind, asset, b)),
                            None => None,
                        }
                    } else {
                        Some((kind, asset, false))
                    },
                    _ => None,
                }
            } else {
                None
            }
        },
        _ => None,
    }
}

/// A guide: an object with `kind`, `at_frame` and `asset_id`, or those three
/// as an array in that order.
pub open spec fn guide_value(v: Json) -> Option<GuideView> {
    let parts: Option<(Json, Json, Json)> = match v {
        Json::Object(e) => {
            let e = e@;
            match (lookup(e, "kind"@), lookup(e, "at_frame"@), lookup(e, "asset_id"@)) {
                (Some(k), Some(f), Some(a)) => Some((k, f, a)),
                _ => None,
            }
        },
        Json::Array(a) => if a@.len() == 3 {
            Some((a@[0], a@[1], a@[2]))
        } else {
            None
        },
        _ => None,
    };
    match parts {
        Some((k, f, a)) => match (guide_kind_value(k), i64_value(f), text_value(a)) {
            (Some(kind), Some(at), Some(asset)) => Some((kind, at, asset)),
            _ => None,
        },
        None => None,
    }
}

/// Every item read by `f` when each reads, among the first `n`.
pub open spec fn all_references(items: Seq<Json>, n: int) -> Option<Seq<RefView>>
    decreases n,
{
    if n <= 0 || n > items.len() {
        Some(Seq::empty())
    } else {
        match (all_references(items, n - 1), reference_value(items[n - 1])) {
            (Some(rest), Some(r)) => Some(rest.push(r)),
            _ => None,
        }
    }
}

pub open spec fn all_guides(items: Seq<Json>, n: int) -> Option<Seq<GuideView>>
    decreases n,
{
    if n <= 0 || n > items.len() {
        Some(Seq::empty())
    } else {
        match (all_guides(items, n - 1), guide_value(items[n - 1])) {
            (Some(rest), Some(g)) => Some(rest.push(g)),
            _ => None,
        }
    }
}

/// An optional field: absent or `null` is nothing; a string is that string;
/// anything else does not read.
pub open spec fn optional_text(v: Option<Json>) -> Option<Option<Seq<char>>> {
    match v {
        None => Some(None),
        Some(Json::Null) => Some(None),
        Some(Json::Str(s)) => Some(Some(s@)),
        _ => None,
    }
}

/// A field with a default: absent gives the default.
pub open spec fn seed_value(v: Option<Json>) -> Option<i64> {
    match v {
        None => Some(0),
        Some(x) => i64_value(x),
    }
}

pub open spec fn references_value(v: Option<Json>) -> Option<Seq<RefView>> {
    match v {
        None => Some(Seq::empty()),
        Some(Json::Array(a)) => all_references(a@, a@.len() as int),
        _ => None,
    }
}

pub open spec fn guides_value(v: Option<Json>) -> Option<Seq<GuideView>> {
    match v {
        None => Some(Seq::empty()),
        Some(Json::Array(a)) => all_guides(a@, a@.len() as int),
        _ => None,
    }
}

/// The declaration an object reads as, when it reads.
pub open spec fn decl_of(v: Json) -> Option<DeclView> {
    match v {
        Json::Object(e) => {
            let e = e@;
            let f = |k: Seq<char>| lookup(e, k);
            match (
                f("shot_id"@),
                f("head"@),
                f("positive"@),
                f("width"@),
                f("height"@),
                f("length_frames"@),
                f("fps"@),
            ) {
                (Some(id), Some(hd), Some(pos), Some(w), Some(h), Some(len), Some(Json::Num(fps))) => {
                    match (
                        text_value(id),
                        text_value(hd),
                        text_value(pos),
                        i64_value(w),
                        i64_value(h),
                        i64_value(len),
                        seed_value(f("seed"@)),
                    ) {
                        (
                            Some(id),
                            Some(hd),
                            Some(pos),
                            Some(w),
                            Some(h),
                            Some(len),
                            Some(seed),
                        ) => match (
                            references_value(f("references"@)),
                            guides_value(f("guides"@)),
                            optional_text(f("first_frame"@)),
                            optional_text(f("last_frame"@)),
                        ) {
                            (Some(refs), Some(gs), Some(first), Some(last)) => Some(
                                DeclView {
                                    shot_id: id,
                                    head: hd,
                                    positive: pos,
                                    width: w,
                                    height: h,
                                    length_frames: len,
                                    fps,
                                    seed,
                                    references: refs,
                                    guides: gs,
                                    first_frame: first,
                                    last_frame: last,
                                },
                            ),
                            _ => None,
                        },
                        _ => None,
                    }
                },
                _ => None,
            }
        },
        _ => None,
    }
}

// ---------------------------------------------------------------------------
// Reading.

fn field<'a>(e: &'a Vec<(String, Json)>, key: &str) -> (r: Option<&'a Json>)
    ensures
        r matches Some(x) ==> lookup(e@, key@) == Some(*x),
        r is None ==> lookup(e@, key@) is None,
{
    let mut i: usize = 0;
    while i < e.len()
        invariant
            i <= e@.len(),
            forall|j: int| 0 <= j < i ==> e@[j].0@ != key@,
        decreases e.len() - i,
    {
        if str_eq(e[i].0.as_str(), key) {
            proof {
                crate::json::lemma_lookup_first(e@, key@, i as int);
            }
            return Some(&e[i].1);
        }
        i = i + 1;
    }
    proof {
        crate::json::lemma_lookup_absent(e@, key@);
    }
    None
}

fn text_exec(v: &Json) -> (r: Option<String>)
    ensures
        r matches Some(s) ==> text_value(*v) == Some(s@),
        r is None ==> text_value(*v) is None,
{
    match v {
        Json::Str(s) => Some(s.clone()),
        _ => None,
    }
}

fn i64_exec(v: &Json) -> (r: Option<i64>)
    ensures
        r == i64_value(*v),
{
    match v {
        Json::Num(Number::Int(i)) => {
            if i64::MIN as i128 <= *i && *i <= i64::MAX as i128 {
                Some(*i as i64)
            } else {
                None
            }
        },
        _ => None,
    }
}

fn variant_exec(v: &Json) -> (r: Option<&str>)
    ensures
        r matches Some(s) ==> variant_name(*v) == Some(s@),
        r is None ==> variant_name(*v) is None,
{
    match v {
        Json::Str(s) => Some(s.as_str()),
        Json::Object(e) => {
            if e.len() == 1 && e[0].1.is_null() {
                Some(e[0].0.as_str())
            } else {
                None
            }
        },
        _ => None,
    }
}

fn medium_exec(v: &Json) -> (r: Option<Medium>)
    ensures
        r == medium_value(*v),
{
    match variant_exec(v) {
        Some(s) => {
            if str_eq(s, "image") {
                Some(Medium::Image)
            } else if str_eq(s, "video") {
                Some(Medium::Video)
            } else if str_eq(s, "audio") {
                Some(Medium::Audio)
            } else {
                None
            }
        },
        None => None,
    }
}

fn guide_kind_exec(v: &Json) -> (r: Option<GuideKind>)
    ensures
        r == guide_kind_value(*v),
{
    match variant_exec(v) {
        Some(s) => {
            if str_eq(s, "image") {
                Some(GuideKind::Image)
            } else if str_eq(s, "clip") {
                Some(GuideKind::Clip)
            } else if str_eq(s, "audio") {
                Some(GuideKind::Audio)
            } else {
                None
            }
        },
        None => None,
    }
}

fn reference_exec(v: &Json) -> (r: Option<Reference>)
    ensures
        r matches Some(x) ==> reference_value(*v) == Some(x@),
        r is None ==> reference_value(*v) is None,
{
    match v {
        Json::Object(e) => {
            let k = match field(e, "kind") {
                Some(k) => k,
                None => return None,
            };
            let a = match field(e, "asset_id") {
                Some(a) => a,
                None => return None,
            };
            let kind = match medium_exec(k) {
                Some(m) => m,
                None => return None,
            };
            let asset = match text_exec(a) {
                Some(s) => s,
                None => return None,
            };
            let with_audio = match field(e, "with_audio") {
                Some(w) => match w.as_bool() {
                    Some(b) => b,
                    None => return None,
                },
                None => false,
            };
            Some(Reference { kind, asset_id: asset, with_audio })
        },
        Json::Array(a) => {
            if !(a.len() == 2 || a.len() == 3) {
                return None;
            }
            let kind = match medium_exec(&a[0]) {
                Some(m) => m,
                None => return None,
            };
            let asset = match text_exec(&a[1]) {
                Some(s) => s,
                None => return None,
            };
            let with_audio = if a.len() == 3 {
                match a[2].as_bool() {
                    Some(b) => b,
                    None => return None,
                }
            } else {
                false
            };
            Some(Reference { kind, asset_id: asset, with_audio })
        },
        _ => None,
    }
}

fn guide_exec(v: &Json) -> (r: Option<Guide>)
    ensures
        r matches Some(x) ==> guide_value(*v) == Some(x@),
        r is None ==> guide_value(*v) is None,
{
    let (k, f, a) = match v {
        Json::Object(e) => {
            match (field(e, "kind"), field(e, "at_frame"), field(e, "asset_id")) {
                (Some(k), Some(f), Some(a)) => (k, f, a),
                _ => return None,
            }
        },
        Json::Array(items) => {
            if items.len() != 3 {
                return None;
            }
            (&items[0], &items[1], &items[2])
        },
        _ => return None,
    };
    match (guide_kind_exec(k), i64_exec(f), text_exec(a)) {
        (Some(kind), Some(at_frame), Some(asset_id)) => Some(Guide { kind, at_frame, asset_id }),
        _ => None,
    }
}

fn references_exec(v: Option<&Json>) -> (r: Option<Vec<Reference>>)
    ensures
        r matches Some(x) ==> references_value(
            match v {
                Some(j) => Some(*j),
                None => None,
            },
        ) == Some(crate::assembly::ref_views(x@)),
        r is None ==> references_value(
            match v {
                Some(j) => Some(*j),
                None => None,
            },
        ) is None,
{
    let items = match v {
        None => {
            let out: Vec<Reference> = Vec::new();
            assert(crate::assembly::ref_views(out@) =~= Seq::<RefView>::empty());
            return Some(out);
        },
        Some(Json::Array(a)) => a,
        Some(_) => return None,
    };
    let mut out: Vec<Reference> = Vec::new();
    let mut i: usize = 0;
    while i < items.len()
        invariant
            i <= items@.len(),
            match v {
                Some(j) => *j == Json::Array(*items),
                None => false,
            },
            all_references(items@, i as int) == Some(crate::assembly::ref_views(out@)),
        decreases items.len() - i,
    {
        match reference_exec(&items[i]) {
            Some(r) => {
                let ghost prev = crate::assembly::ref_views(out@);
                let ghost rv = r@;
                out.push(r);
                assert(crate::assembly::ref_views(out@) =~= prev.push(rv));
            },
            None => {
                proof {
                    lemma_all_references_fail(items@, i + 1);
                }
                return None;
            },
        }
        i = i + 1;
    }
    Some(out)
}

proof fn lemma_all_references_fail(items: Seq<Json>, n: int)
    requires
        0 < n <= items.len(),
        all_references(items, n) is None,
    ensures
        all_references(items, items.len() as int) is None,
    decreases items.len() - n,
{
    if n < items.len() {
        lemma_all_references_fail(items, n + 1);
    }
}

proof fn lemma_all_guides_fail(items: Seq<Json>, n: int)
    requires
        0 < n <= items.len(),
        all_guides(items, n) is None,
    ensures
        all_guides(items, items.len() as int) is None,
    decreases items.len() - n,
{
    if n < items.len() {
        lemma_all_guides_fail(items, n + 1);
    }
}

fn guides_exec(v: Option<&Json>) -> (r: Option<Vec<Guide>>)
    ensures
        r matches Some(x) ==> guides_value(
            match v {
                Some(j) => Some(*j),
                None => None,
            },
        ) == Some(crate::assembly::guide_views(x@)),
        r is None ==> guides_value(
            match v {
                Some(j) => Some(*j),
                None => None,
            },
        ) is None,
{
    let items = match v {
        None => {
            let out: Vec<Guide> = Vec::new();
            assert(crate::assembly::guide_views(out@) =~= Seq::<GuideView>::empty());
            return Some(out);
        },
        Some(Json::Array(a)) => a,
        Some(_) => return None,
    };
    let mut out: Vec<Guide> = Vec::new();
    let mut i: usize = 0;
    while i < items.len()
        invariant
            i <= items@.len(),
            match v {
                Some(j) => *j == Json::Array(*items),
                None => false,
            },
            all_guides(items@, i as int) == Some(crate::assembly::guide_views(out@)),
        decreases items.len() - i,
    {
        match guide_exec(&items[i]) {
            Some(g) => {
                let ghost prev = crate::assembly::guide_views(out@);
                let ghost gv = g@;
                out.push(g);
                assert(crate::assembly::guide_views(out@) =~= prev.push(gv));
            },
            None => {
                proof {
                    lemma_all_guides_fail(items@, i + 1);
                }
                return None;
            },
        }
        i = i + 1;
    }
    Some(out)
}

fn optional_exec(v: Option<&Json>) -> (r: Option<Option<String>>)
    ensures
        r matches Some(x) ==> optional_text(
            match v {
                Some(j) => Some(*j),
                None => None,
            },
        ) == Some(crate::assembly::opt_text(x)),
        r is None ==> optional_text(
            match v {
                Some(j) => Some(*j),
                None => None,
            },
        ) is None,
{
    match v {
        None => Some(None),
        Some(Json::Null) => Some(None),
        Some(Json::Str(s)) => Some(Some(s.clone())),
        Some(_) => None,
    }
}

impl ShotDeclaration {
    /// Reads a shot of a prompt pack as a declaration; `None` when a
    /// required field is missing or a field has the wrong type.
    pub fn from_json(v: &Json) -> (r: Option<ShotDeclaration>)
        ensures
            r matches Some(d) ==> decl_of(*v) == Some(d@),
            r is None ==> decl_of(*v) is None,
    {
        let e = match v {
            Json::Object(e) => e,
            _ => return None,
        };
        let id = match field(e, "shot_id") {
            Some(x) => x,
            None => return None,
        };
        let hd = match field(e, "head") {
            Some(x) => x,
            None => return None,
        };
        let pos = match field(e, "positive") {
            Some(x) => x,
            None => return None,
        };
        let w = match field(e, "width") {
            Some(x) => x,
            None => return None,
        };
        let h = match field(e, "height") {
            Some(x) => x,
            None => return None,
        };
        let len = match field(e, "length_frames") {
            Some(x) => x,
            None => return None,
        };
        let fps = match field(e, "fps") {
            Some(Json::Num(n)) => *n,
            _ => return None,
        };
        let shot_id = match text_exec(id) {
            Some(s) => s,
            None => return None,
        };
        let head = match text_exec(hd) {
            Some(s) => s,
            None => return None,
        };
        let positive = match text_exec(pos) {
            Some(s) => s,
            None => return None,
        };
        let width = match i64_exec(w) {
            Some(x) => x,
            None => return None,
        };
        let height = match i64_exec(h) {
            Some(x) => x,
            None => return None,
        };
        let length_frames = match i64_exec(len) {
            Some(x) => x,
            None => return None,
        };
        let seed = match field(e, "seed") {
            None => 0,
            Some(x) => match i64_exec(x) {
                Some(s) => s,
                None => return None,
            },
        };
        let references = match references_exec(field(e, "references")) {
            Some(r) => r,
            None => return None,
        };
        let guides = match guides_exec(field(e, "guides")) {
            Some(g) => g,
            None => return None,
        };
        let first_frame = match optional_exec(field(e, "first_frame")) {
            Some(f) => f,
            None => return None,
        };
        let last_frame = match optional_exec(field(e, "last_frame")) {
            Some(f) => f,
            None => return None,
        };
        let d = ShotDeclaration {
            shot_id,
            head,
            positive,
            width,
            height,
            length_frames,
            fps,
            seed,
            references,
            guides,
            first_frame,
            last_frame,
        };
        assert(decl_of(*v) == Some(d@));
        Some(d)
    }
}

} // verus!
