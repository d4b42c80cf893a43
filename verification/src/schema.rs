//! The contract on stage outputs.
//!
//! A subset of JSON Schema that is enough both to validate outputs and to be
//! written out as `assets/schema/*.json`, so that an agent reads the shape
//! that will be accepted instead of copying another project's outputs.
use vstd::prelude::*;
use crate::error::{violation_views, StudioError, Violation, ViolationView};
use crate::json::{
    kind_name, kind_of, lookup, number_text, push_number, Decimal, Json, Number, Outputs,
};
use crate::lexicon::{
    ALL_VIEWS, ANGLES, ASSET_KINDS, BEAT_TYPES, CAMERA_MOTIONS, LIGHTING_KEYS, LIGHTING_SOURCES,
    SHOT_FUNCTIONS, SHOT_SIZES,
};
use crate::rubric::{criterion_names, criterion_names_view, VERDICTS};
use crate::stage::StageId;
use crate::cards::{structural, structural_violations};
use crate::text::{
    debug_str, debug_text, dec_nat, join_seq, join_strs, push_u64, str_eq, str_views_of,
};

verus! {

broadcast use vstd::string::group_string_axioms;

/// How many reference images one view may carry: the limit of the card backend.
pub const MAX_CARD_REFERENCES: usize = 10;

/// A schema node.
#[derive(Debug)]
pub enum Schema {
    Object { desc: &'static str, props: Vec<(&'static str, Schema)>, required: Vec<&'static str> },
    Array { desc: &'static str, items: Box<Schema>, min_items: usize },
    Str { desc: &'static str, allowed: Vec<&'static str> },
    Num { desc: &'static str, min: Option<Number>, max: Option<Number> },
    Int { desc: &'static str },
    Bool { desc: &'static str },
    Any { desc: &'static str },
}

/// A schema node as a mathematical value.
#[verifier::ext_equal]
pub enum SchemaView {
    Object {
        desc: &'static str,
        props: Seq<(&'static str, SchemaView)>,
        required: Seq<&'static str>,
    },
    Array { desc: &'static str, items: Box<SchemaView>, min_items: nat },
    Str { desc: &'static str, allowed: Seq<&'static str> },
    Num { desc: &'static str, min: Option<Number>, max: Option<Number> },
    Int { desc: &'static str },
    Bool { desc: &'static str },
    Any { desc: &'static str },
}

pub open spec fn obj_view(
    desc: &'static str,
    props: Seq<(&'static str, SchemaView)>,
    required: Seq<&'static str>,
) -> SchemaView {
    SchemaView::Object { desc, props, required }
}

pub open spec fn arr_view(desc: &'static str, items: SchemaView, min_items: nat) -> SchemaView {
    SchemaView::Array { desc, items: Box::new(items), min_items }
}

pub open spec fn text_view(desc: &'static str) -> SchemaView {
    SchemaView::Str { desc, allowed: Seq::empty() }
}

pub open spec fn one_of_view(desc: &'static str, allowed: Seq<&'static str>) -> SchemaView {
    SchemaView::Str { desc, allowed }
}

pub open spec fn num_view(desc: &'static str) -> SchemaView {
    SchemaView::Num { desc, min: None, max: None }
}

pub open spec fn num_min_view(desc: &'static str, min: Number) -> SchemaView {
    SchemaView::Num { desc, min: Some(min), max: None }
}

pub open spec fn int_view(desc: &'static str) -> SchemaView {
    SchemaView::Int { desc }
}

pub open spec fn bool_view(desc: &'static str) -> SchemaView {
    SchemaView::Bool { desc }
}

pub open spec fn any_view(desc: &'static str) -> SchemaView {
    SchemaView::Any { desc }
}

impl Schema {
    /// The node as a mathematical value.
    pub open spec fn model(self) -> SchemaView
        decreases self, 0int,
    {
        match self {
            Schema::Object { desc, props, required } => {
                proof {
                    assert(decreases_to!(self => props));
                    assert(decreases_to!(props => props@));
                }
                SchemaView::Object {
                    desc,
                    props: props_model(props@, props@.len() as int),
                    required: required@,
                }
            },
            Schema::Array { desc, items, min_items } => SchemaView::Array {
                desc,
                items: Box::new((*items).model()),
                min_items: min_items as nat,
            },
            Schema::Str { desc, allowed } => SchemaView::Str { desc, allowed: allowed@ },
            Schema::Num { desc, min, max } => SchemaView::Num { desc, min, max },
            Schema::Int { desc } => SchemaView::Int { desc },
            Schema::Bool { desc } => SchemaView::Bool { desc },
            Schema::Any { desc } => SchemaView::Any { desc },
        }
    }
}

/// The models of the first `n` properties.
pub open spec fn props_model(props: Seq<(&'static str, Schema)>, n: int) -> Seq<
    (&'static str, SchemaView),
>
    decreases props, n,
{
    if n <= 0 || n > props.len() {
        Seq::empty()
    } else {
        proof {
            assert(decreases_to!(props => props[n - 1]));
            assert(decreases_to!(props[n - 1] => props[n - 1].1));
        }
        props_model(props, n - 1).push((props[n - 1].0, props[n - 1].1.model()))
    }
}

/// The models of a list of properties.
pub open spec fn models_of(props: Seq<(&'static str, Schema)>) -> Seq<(&'static str, SchemaView)> {
    props.map_values(|p: (&'static str, Schema)| (p.0, p.1.model()))
}

/// An object with its properties and the keys it requires.
pub fn obj(desc: &'static str, props: Vec<(&'static str, Schema)>, required: Vec<&'static str>) -> (r:
    Schema)
    ensures
        r.model() == obj_view(desc, models_of(props@), required@),
{
    proof {
        lemma_props_model_len(props@, props@.len() as int);
        assert forall|j: int| 0 <= j < props@.len() implies #[trigger] props_model(
            props@,
            props@.len() as int,
        )[j] == models_of(props@)[j] by {
            lemma_props_model_index(props@, props@.len() as int, j);
        }
        assert(props_model(props@, props@.len() as int) =~= models_of(props@));
    }
    Schema::Object { desc, props, required }
}

/// An array of `items`, with at least `min_items` of them.
pub fn arr(desc: &'static str, items: Schema, min_items: usize) -> (r: Schema)
    ensures
        r.model() == arr_view(desc, items.model(), min_items as nat),
{
    Schema::Array { desc, items: Box::new(items), min_items }
}

/// Any string.
pub fn text(desc: &'static str) -> (r: Schema)
    ensures
        r.model() == text_view(desc),
{
    Schema::Str { desc, allowed: Vec::new() }
}

/// One of a fixed list of strings.
pub fn one_of(desc: &'static str, allowed: Vec<&'static str>) -> (r: Schema)
    ensures
        r.model() == one_of_view(desc, allowed@),
{
    Schema::Str { desc, allowed }
}

/// Any number.
pub fn num(desc: &'static str) -> (r: Schema)
    ensures
        r.model() == num_view(desc),
{
    Schema::Num { desc, min: None, max: None }
}

/// A number no smaller than `min`.
pub fn num_min(desc: &'static str, min: Number) -> (r: Schema)
    ensures
        r.model() == num_min_view(desc, min),
{
    Schema::Num { desc, min: Some(min), max: None }
}

/// An integer (what fits `i64` or `u64`).
pub fn integer(desc: &'static str) -> (r: Schema)
    ensures
        r.model() == int_view(desc),
{
    Schema::Int { desc }
}

/// Anything at all.
pub fn any(desc: &'static str) -> (r: Schema)
    ensures
        r.model() == any_view(desc),
{
    Schema::Any { desc }
}

pub(crate) fn words(s: &[&'static str]) -> (r: Vec<&'static str>)
    ensures
        r@ == s@,
{
    let mut v: Vec<&'static str> = Vec::new();
    let mut i: usize = 0;
    while i < s.len()
        invariant
            i <= s@.len(),
            v@ == s@.subrange(0, i as int),
        decreases s.len() - i,
    {
        v.push(s[i]);
        i = i + 1;
        assert(v@ =~= s@.subrange(0, i as int));
    }
    assert(s@.subrange(0, s@.len() as int) =~= s@);
    v
}

// ---------------------------------------------------------------------------
// Checking a value against a schema.

/// `path.key`, or just `key` at the root.
pub open spec fn join_path(path: Seq<char>, key: Seq<char>) -> Seq<char> {
    if path.len() == 0 {
        key
    } else {
        path + "."@ + key
    }
}

/// `path[i]`.
pub open spec fn index_path(path: Seq<char>, i: int) -> Seq<char> {
    path + "["@ + dec_nat(i as nat) + "]"@
}


/// Whether `t` is one of `allowed`.
pub open spec fn str_listed(allowed: Seq<&'static str>, t: Seq<char>) -> bool {
    exists|k: int| 0 <= k < allowed.len() && (#[trigger] allowed[k])@ == t
}

/// `n < m`, compared exactly where both numbers are well formed.
pub open spec fn num_below(n: Number, m: Number) -> bool {
    n.wf() && m.wf() && n.less_than(m)
}

pub open spec fn min_violations(min: Option<Number>, n: Number, path: Seq<char>) -> Seq<
    ViolationView,
> {
    match min {
        Some(m) => if num_below(n, m) {
            seq![(path, "不能小于 "@ + number_text(m) + "，实际 "@ + number_text(n))]
        } else {
            Seq::empty()
        },
        None => Seq::empty(),
    }
}

pub open spec fn max_violations(max: Option<Number>, n: Number, path: Seq<char>) -> Seq<
    ViolationView,
> {
    match max {
        Some(m) => if num_below(m, n) {
            seq![(path, "不能大于 "@ + number_text(m) + "，实际 "@ + number_text(n))]
        } else {
            Seq::empty()
        },
        None => Seq::empty(),
    }
}

/// Every violation of `v` against `s`, with `path` naming `v`.
pub open spec fn violations_of(s: SchemaView, v: Json, path: Seq<char>) -> Seq<ViolationView>
    decreases s, 0int,
{
    match s {
        SchemaView::Object { props, required, .. } => match v {
            Json::Object(entries) => missing_required(
                required,
                entries@,
                path,
                required.len() as int,
            ) + props_violations(props, entries@, path, props.len() as int),
            _ => seq![(path, "应当是对象，实际是 "@ + kind_name(v))],
        },
        SchemaView::Array { items, min_items, .. } => match v {
            Json::Array(a) => (if a@.len() < min_items {
                seq![
                    (
                        path,
                        "至少需要 "@ + dec_nat(min_items) + " 项，实际 "@ + dec_nat(a@.len()),
                    ),
                ]
            } else {
                Seq::empty()
            }) + items_violations(*items, a@, path, a@.len() as int),
            _ => seq![(path, "应当是数组，实际是 "@ + kind_name(v))],
        },
        SchemaView::Str { allowed, .. } => match v {
            Json::Str(t) => if allowed.len() > 0 && !str_listed(allowed, t@) {
                seq![
                    (
                        path,
                        "只能是 "@ + join_seq(str_views_of(allowed), " / "@) + " 之一，实际是 "@
                            + debug_text(t@),
                    ),
                ]
            } else {
                Seq::empty()
            },
            _ => seq![(path, "应当是字符串，实际是 "@ + kind_name(v))],
        },
        SchemaView::Num { min, max, .. } => match v {
            Json::Num(n) => min_violations(min, n, path) + max_violations(max, n, path),
            _ => seq![(path, "应当是数字，实际是 "@ + kind_name(v))],
        },
        SchemaView::Int { .. } => match v {
            Json::Num(Number::Int(_)) => Seq::empty(),
            _ => seq![(path, "应当是整数，实际是 "@ + kind_name(v))],
        },
        SchemaView::Bool { .. } => match v {
            Json::Bool(_) => Seq::empty(),
            _ => seq![(path, "应当是布尔值，实际是 "@ + kind_name(v))],
        },
        SchemaView::Any { .. } => Seq::empty(),
    }
}

/// The first `n` required keys that the object lacks.
pub open spec fn missing_required(
    required: Seq<&'static str>,
    entries: Seq<(String, Json)>,
    path: Seq<char>,
    n: int,
) -> Seq<ViolationView>
    decreases n,
{
    if n <= 0 || n > required.len() {
        Seq::empty()
    } else {
        let rest = missing_required(required, entries, path, n - 1);
        if lookup(entries, required[n - 1]@) is None {
            rest.push((join_path(path, required[n - 1]@), "必填字段缺失"@))
        } else {
            rest
        }
    }
}

/// The violations of the first `n` properties that are present.
pub open spec fn props_violations(
    props: Seq<(&'static str, SchemaView)>,
    entries: Seq<(String, Json)>,
    path: Seq<char>,
    n: int,
) -> Seq<ViolationView>
    decreases props, n,
{
    if n <= 0 || n > props.len() {
        Seq::empty()
    } else {
        proof {
            assert(decreases_to!(props => props[n - 1]));
            assert(decreases_to!(props[n - 1] => props[n - 1].1));
        }
        props_violations(props, entries, path, n - 1) + match lookup(entries, props[n - 1].0@) {
            Some(child) => violations_of(props[n - 1].1, child, join_path(path, props[n - 1].0@)),
            None => Seq::empty(),
        }
    }
}

/// The violations of the first `n` items of an array.
pub open spec fn items_violations(items: SchemaView, a: Seq<Json>, path: Seq<char>, n: int) -> Seq<
    ViolationView,
>
    decreases items, n,
{
    if n <= 0 || n > a.len() {
        Seq::empty()
    } else {
        items_violations(items, a, path, n - 1) + violations_of(items, a[n - 1], index_path(path, n - 1))
    }
}

proof fn lemma_missing_required_has(
    required: Seq<&'static str>,
    entries: Seq<(String, Json)>,
    path: Seq<char>,
    k: int,
    n: int,
)
    requires
        0 <= k < n <= required.len(),
        lookup(entries, required[k]@) is None,
    ensures
        missing_required(required, entries, path, n).contains((join_path(path, required[k]@), "必填字段缺失"@)),
    decreases n,
{
    let rest = missing_required(required, entries, path, n - 1);
    let x = (join_path(path, required[k]@), "必填字段缺失"@);
    if k < n - 1 {
        lemma_missing_required_has(required, entries, path, k, n - 1);
        let q = choose|q: int| 0 <= q < rest.len() && rest[q] == x;
        assert(missing_required(required, entries, path, n)[q] == x);
    } else {
        assert(missing_required(required, entries, path, n)[rest.len() as int] == x);
    }
}

proof fn lemma_props_violations_has(
    props: Seq<(&'static str, SchemaView)>,
    entries: Seq<(String, Json)>,
    path: Seq<char>,
    j: int,
    n: int,
    x: ViolationView,
)
    requires
        0 <= j < n <= props.len(),
        lookup(entries, props[j].0@) matches Some(child) && violations_of(
            props[j].1,
            child,
            join_path(path, props[j].0@),
        ).contains(x),
    ensures
        props_violations(props, entries, path, n).contains(x),
    decreases n,
{
    let rest = props_violations(props, entries, path, n - 1);
    let last = match lookup(entries, props[n - 1].0@) {
        Some(child) => violations_of(props[n - 1].1, child, join_path(path, props[n - 1].0@)),
        None => Seq::empty(),
    };
    assert(props_violations(props, entries, path, n) == rest + last);
    if j < n - 1 {
        lemma_props_violations_has(props, entries, path, j, n - 1, x);
        let q = choose|q: int| 0 <= q < rest.len() && rest[q] == x;
        assert((rest + last)[q] == x);
    } else {
        let q = choose|q: int| 0 <= q < last.len() && last[q] == x;
        assert((rest + last)[rest.len() + q] == x);
    }
}

proof fn lemma_items_violations_has(items: SchemaView, a: Seq<Json>, path: Seq<char>, k: int, n: int, x: ViolationView)
    requires
        0 <= k < n <= a.len(),
        violations_of(items, a[k], index_path(path, k)).contains(x),
    ensures
        items_violations(items, a, path, n).contains(x),
    decreases n,
{
    let rest = items_violations(items, a, path, n - 1);
    let last = violations_of(items, a[n - 1], index_path(path, n - 1));
    assert(items_violations(items, a, path, n) == rest + last);
    if k < n - 1 {
        lemma_items_violations_has(items, a, path, k, n - 1, x);
        let q = choose|q: int| 0 <= q < rest.len() && rest[q] == x;
        assert((rest + last)[q] == x);
    } else {
        let q = choose|q: int| 0 <= q < last.len() && last[q] == x;
        assert((rest + last)[rest.len() + q] == x);
    }
}

/// An object that lacks a required key is reported at that key, whatever
/// its depth: `path` is any path (nested ones included).
pub proof fn lemma_missing_required_key_is_reported(
    props: Seq<(&'static str, SchemaView)>,
    required: Seq<&'static str>,
    desc: &'static str,
    entries: Vec<(String, Json)>,
    path: Seq<char>,
    k: int,
)
    requires
        0 <= k < required.len(),
        lookup(entries@, required[k]@) is None,
    ensures
        violations_of(SchemaView::Object { desc, props, required }, Json::Object(entries), path).contains(
            (join_path(path, required[k]@), "必填字段缺失"@),
        ),
{
    let x = (join_path(path, required[k]@), "必填字段缺失"@);
    lemma_missing_required_has(required, entries@, path, k, required.len() as int);
    let a = missing_required(required, entries@, path, required.len() as int);
    let b = props_violations(props, entries@, path, props.len() as int);
    let q = choose|q: int| 0 <= q < a.len() && a[q] == x;
    assert((a + b)[q] == x);
}

/// What is wrong inside a property present in an object is reported for the
/// object too: checking goes down through every present property.
pub proof fn lemma_property_violations_are_reported(
    props: Seq<(&'static str, SchemaView)>,
    required: Seq<&'static str>,
    desc: &'static str,
    entries: Vec<(String, Json)>,
    path: Seq<char>,
    j: int,
    x: ViolationView,
)
    requires
        0 <= j < props.len(),
        lookup(entries@, props[j].0@) matches Some(child) && violations_of(
            props[j].1,
            child,
            join_path(path, props[j].0@),
        ).contains(x),
    ensures
        violations_of(SchemaView::Object { desc, props, required }, Json::Object(entries), path).contains(x),
{
    lemma_props_violations_has(props, entries@, path, j, props.len() as int, x);
    let a = missing_required(required, entries@, path, required.len() as int);
    let b = props_violations(props, entries@, path, props.len() as int);
    let q = choose|q: int| 0 <= q < b.len() && b[q] == x;
    assert((a + b)[a.len() + q] == x);
}

/// What is wrong inside an item of an array is reported for the array too:
/// checking goes down through every item.
pub proof fn lemma_item_violations_are_reported(
    items: Box<SchemaView>,
    min_items: nat,
    desc: &'static str,
    a: Vec<Json>,
    path: Seq<char>,
    k: int,
    x: ViolationView,
)
    requires
        0 <= k < a@.len(),
        violations_of(*items, a@[k], index_path(path, k)).contains(x),
    ensures
        violations_of(SchemaView::Array { desc, items, min_items }, Json::Array(a), path).contains(x),
{
    lemma_items_violations_has(*items, a@, path, k, a@.len() as int, x);
    let c = if a@.len() < min_items {
        seq![(path, "至少需要 "@ + dec_nat(min_items) + " 项，实际 "@ + dec_nat(a@.len()))]
    } else {
        Seq::empty()
    };
    let b = items_violations(*items, a@, path, a@.len() as int);
    let q = choose|q: int| 0 <= q < b.len() && b[q] == x;
    assert((c + b)[c.len() + q] == x);
}

fn join_path_exec(path: &str, key: &str) -> (r: String)
    ensures
        r@ == join_path(path@, key@),
{
    if path.unicode_len() == 0 {
        String::from_str(key)
    } else {
        let mut s = String::from_str(path);
        s.append(".");
        s.append(key);
        s
    }
}

fn index_path_exec(path: &str, i: usize) -> (r: String)
    ensures
        r@ == index_path(path@, i as int),
{
    let mut s = String::from_str(path);
    s.append("[");
    push_u64(&mut s, i as u64);
    s.append("]");
    s
}

fn kind_violation(path: &str, expected: &str, v: &Json) -> (r: Violation)
    ensures
        r.path@ == path@,
        r.message@ == expected@ + kind_name(*v),
{
    let mut msg = String::from_str(expected);
    msg.append(kind_of(v));
    Violation::new(String::from_str(path), msg)
}

fn number_message(head: &str, m: &Number, n: &Number) -> (r: String)
    requires
        m.wf(),
        n.wf(),
    ensures
        r@ == head@ + number_text(*m) + "，实际 "@ + number_text(*n),
{
    let mut s = String::from_str(head);
    push_number(&mut s, m);
    s.append("，实际 ");
    push_number(&mut s, n);
    s
}

fn below(n: &Number, m: &Number) -> (r: bool)
    ensures
        r == num_below(*n, *m),
{
    n.is_wf() && m.is_wf() && n.lt(m)
}

fn listed_exec(allowed: &Vec<&'static str>, t: &str) -> (r: bool)
    ensures
        r == str_listed(allowed@, t@),
{
    let mut k: usize = 0;
    while k < allowed.len()
        invariant
            k <= allowed@.len(),
            forall|j: int| 0 <= j < k ==> (#[trigger] allowed@[j])@ != t@,
        decreases allowed.len() - k,
    {
        if str_eq(allowed[k], t) {
            assert(allowed@[k as int]@ == t@);
            return true;
        }
        k = k + 1;
    }
    false
}

impl Schema {
    /// Appends the violations of `v` against this schema to `out`.
    pub fn check(&self, v: &Json, path: &str, out: &mut Vec<Violation>)
        ensures
            violation_views(final(out)@) == violation_views(old(out)@) + violations_of(
                self.model(),
                *v,
                path@,
            ),
        decreases *self, 0int,
    {
        let ghost start = violation_views(out@);
        match self {
            Schema::Object { props, required, .. } => {
                let entries = match v {
                    Json::Object(e) => e,
                    _ => {
                        out.push(kind_violation(path, "应当是对象，实际是 ", v));
                        assert(violation_views(out@) =~= start + violations_of(
                            self.model(),
                            *v,
                            path@,
                        ));
                        return ;
                    },
                };
                let mut i: usize = 0;
                while i < required.len()
                    invariant
                        *v == Json::Object(*entries),
                        i <= required@.len(),
                        violation_views(out@) == start + missing_required(
                            required@,
                            entries@,
                            path@,
                            i as int,
                        ),
                    decreases required.len() - i,
                {
                    let ghost prev = violation_views(out@);
                    if !v.contains_key(required[i]) {
                        let f = Violation::new(
                            join_path_exec(path, required[i]),
                            String::from_str("必填字段缺失"),
                        );
                        out.push(f);
                        assert(violation_views(out@) =~= prev.push(
                            (join_path(path@, required@[i as int]@), "必填字段缺失"@),
                        ));
                    }
                    i = i + 1;
                    assert(violation_views(out@) =~= start + missing_required(
                        required@,
                        entries@,
                        path@,
                        i as int,
                    ));
                }
                let ghost mid = violation_views(out@);
                let mut j: usize = 0;
                while j < props.len()
                    invariant
                        *self == (Schema::Object { desc: self->Object_desc, props: *props, required: *required }),
                        *v == Json::Object(*entries),
                        j <= props@.len(),
                        violation_views(out@) == mid + props_violations(
                            props_model(props@, props@.len() as int),
                            entries@,
                            path@,
                            j as int,
                        ),
                    decreases props.len() - j,
                {
                    let ghost prev = violation_views(out@);
                    proof {
                        let ghost whole: Schema = *self;
                        let ghost ps: Vec<(&'static str, Schema)> = whole->Object_props;
                        assert(decreases_to!(whole => ps));
                        assert(decreases_to!(ps => ps@));
                        assert(decreases_to!(ps@ => ps@[j as int]));
                        assert(decreases_to!(ps@[j as int] => ps@[j as int].1));
                        lemma_props_model_index(props@, props@.len() as int, j as int);
                    }
                    match v.get(props[j].0) {
                        Some(child) => {
                            let p = join_path_exec(path, props[j].0);
                            props[j].1.check(child, p.as_str(), out);
                        },
                        None => {},
                    }
                    j = j + 1;
                    assert(violation_views(out@) =~= mid + props_violations(
                        props_model(props@, props@.len() as int),
                        entries@,
                        path@,
                        j as int,
                    ));
                }
                proof {
                    lemma_props_model_len(props@, props@.len() as int);
                }
                assert(violation_views(out@) =~= start + violations_of(self.model(), *v, path@));
            },
            Schema::Array { items, min_items, .. } => {
                let a = match v {
                    Json::Array(a) => a,
                    _ => {
                        out.push(kind_violation(path, "应当是数组，实际是 ", v));
                        assert(violation_views(out@) =~= start + violations_of(
                            self.model(),
                            *v,
                            path@,
                        ));
                        return ;
                    },
                };
                if a.len() < *min_items {
                    let mut msg = String::from_str("至少需要 ");
                    push_u64(&mut msg, *min_items as u64);
                    msg.append(" 项，实际 ");
                    push_u64(&mut msg, a.len() as u64);
                    out.push(Violation::new(String::from_str(path), msg));
                }
                let ghost mid = violation_views(out@);
                assert(mid == start + (if a@.len() < *min_items {
                    seq![
                        (
                            path@,
                            "至少需要 "@ + dec_nat(*min_items as nat) + " 项，实际 "@ + dec_nat(
                                a@.len(),
                            ),
                        ),
                    ]
                } else {
                    Seq::empty()
                }));
                let mut i: usize = 0;
                while i < a.len()
                    invariant
                        *self == (Schema::Array {
                            desc: self->Array_desc,
                            items: *items,
                            min_items: *min_items,
                        }),
                        i <= a@.len(),
                        violation_views(out@) == mid + items_violations(
                            (**items).model(),
                            a@,
                            path@,
                            i as int,
                        ),
                    decreases a.len() - i,
                {
                    proof {
                        let ghost whole: Schema = *self;
                        assert(decreases_to!(whole => *whole->Array_items));
                    }
                    let p = index_path_exec(path, i);
                    items.check(&a[i], p.as_str(), out);
                    i = i + 1;
                    assert(violation_views(out@) =~= mid + items_violations(
                        (**items).model(),
                        a@,
                        path@,
                        i as int,
                    ));
                }
                assert(violation_views(out@) =~= start + violations_of(self.model(), *v, path@));
            },
            Schema::Str { allowed, .. } => {
                match v {
                    Json::Str(t) => {
                        if allowed.len() > 0 && !listed_exec(allowed, t.as_str()) {
                            let mut msg = String::from_str("只能是 ");
                            let joined = join_strs(allowed, " / ");
                            msg.append(joined.as_str());
                            msg.append(" 之一，实际是 ");
                            let quoted = debug_str(t.as_str());
                            msg.append(quoted.as_str());
                            out.push(Violation::new(String::from_str(path), msg));
                        }
                    },
                    _ => {
                        out.push(kind_violation(path, "应当是字符串，实际是 ", v));
                    },
                }
                assert(violation_views(out@) =~= start + violations_of(self.model(), *v, path@));
            },
            Schema::Num { min, max, .. } => {
                match v {
                    Json::Num(n) => {
                        match min {
                            Some(m) => {
                                if below(n, m) {
                                    out.push(
                                        Violation::new(
                                            String::from_str(path),
                                            number_message("不能小于 ", m, n),
                                        ),
                                    );
                                }
                            },
                            None => {},
                        }
                        match max {
                            Some(m) => {
                                if below(m, n) {
                                    out.push(
                                        Violation::new(
                                            String::from_str(path),
                                            number_message("不能大于 ", m, n),
                                        ),
                                    );
                                }
                            },
                            None => {},
                        }
                    },
                    _ => {
                        out.push(kind_violation(path, "应当是数字，实际是 ", v));
                    },
                }
                assert(violation_views(out@) =~= start + violations_of(self.model(), *v, path@));
            },
            Schema::Int { .. } => {
                match v {
                    Json::Num(Number::Int(_)) => {},
                    _ => {
                        out.push(kind_violation(path, "应当是整数，实际是 ", v));
                    },
                }
                assert(violation_views(out@) =~= start + violations_of(self.model(), *v, path@));
            },
            Schema::Bool { .. } => {
                match v {
                    Json::Bool(_) => {},
                    _ => {
                        out.push(kind_violation(path, "应当是布尔值，实际是 ", v));
                    },
                }
                assert(violation_views(out@) =~= start + violations_of(self.model(), *v, path@));
            },
            Schema::Any { .. } => {
                assert(violation_views(out@) =~= start + violations_of(self.model(), *v, path@));
            },
        }
    }
}

proof fn lemma_props_model_index(props: Seq<(&'static str, Schema)>, n: int, j: int)
    requires
        0 <= j < n <= props.len(),
    ensures
        props_model(props, n).len() == n,
        props_model(props, n)[j] == (props[j].0, props[j].1.model()),
    decreases n,
{
    if j < n - 1 {
        lemma_props_model_index(props, n - 1, j);
    }
    lemma_props_model_len(props, n);
}

proof fn lemma_props_model_len(props: Seq<(&'static str, Schema)>, n: int)
    requires
        0 <= n <= props.len(),
    ensures
        props_model(props, n).len() == n,
    decreases n,
{
    if n > 0 {
        lemma_props_model_len(props, n - 1);
    }
}

// ---------------------------------------------------------------------------
// The stage schemas.

/// The schema of `concepts[]` in the idea outputs.
pub open spec fn idea_concepts_item_schema() -> SchemaView {
    obj_view(
        "一个方案",
        seq![
            ("concept_id", text_view("稳定标识，例如 c1")),
            ("logline", text_view("这个方案的一句话概括")),
            ("angle", text_view("切入角度：同一件事，这个方案从哪儿讲起")),
            ("hook_0_3s", text_view("前三秒钩子。要具体到画面，不能写「用悬念抓住观众」")),
            ("story_beats", arr_view("故事节拍，逐镜头一条", text_view("一个节拍"), 1)),
            ("tradeoff", text_view("选它要牺牲什么。三个方案的牺牲不该是同一件事")),
        ],
        seq!["concept_id", "logline", "angle", "hook_0_3s", "story_beats"],
    )
}

fn schema_idea_concepts_item() -> (r: Schema)
    ensures
        r.model() == idea_concepts_item_schema(),
{
    let props = vec![
        ("concept_id", text("稳定标识，例如 c1")),
        ("logline", text("这个方案的一句话概括")),
        ("angle", text("切入角度：同一件事，这个方案从哪儿讲起")),
        ("hook_0_3s", text("前三秒钩子。要具体到画面，不能写「用悬念抓住观众」")),
        ("story_beats", arr("故事节拍，逐镜头一条", text("一个节拍"), 1)),
        ("tradeoff", text("选它要牺牲什么。三个方案的牺牲不该是同一件事")),
    ];
    assert(models_of(props@) =~= idea_concepts_item_schema()->Object_props);
    obj("一个方案", props, vec!["concept_id", "logline", "angle", "hook_0_3s", "story_beats"])
}

/// The schema of `rights_and_safety_risks[]` in the idea outputs.
pub open spec fn idea_rights_and_safety_risks_item_schema() -> SchemaView {
    obj_view(
        "一条风险",
        seq![
            ("risk", text_view("风险")),
            ("level", text_view("等级：可规避 / 需用户决定 / 不可接受")),
            ("mitigation", text_view("规避方式")),
        ],
        seq!["risk", "level"],
    )
}

fn schema_idea_rights_and_safety_risks_item() -> (r: Schema)
    ensures
        r.model() == idea_rights_and_safety_risks_item_schema(),
{
    let props = vec![
        ("risk", text("风险")),
        ("level", text("等级：可规避 / 需用户决定 / 不可接受")),
        ("mitigation", text("规避方式")),
    ];
    assert(models_of(props@) =~= idea_rights_and_safety_risks_item_schema()->Object_props);
    obj("一条风险", props, vec!["risk", "level"])
}

/// The schema of the idea outputs.
pub open spec fn idea_schema() -> SchemaView {
    obj_view(
        "把用户创意整理成可执行 brief",
        seq![
            ("title", text_view("作品标题")),
            ("logline", text_view("一句话概括")),
            ("platform", text_view("发布平台，例如「抖音竖屏短视频」")),
            ("audience", text_view("目标受众")),
            ("theme", text_view("主题")),
            ("tone", text_view("情绪基调")),
            ("duration_seconds", num_min_view("总时长（秒）", Number::Frac(Decimal { mantissa: 10, scale: 1 }))),
            ("shot_count", int_view("镜头数")),
            ("aspect_ratio", one_of_view("画幅", seq!["9:16", "16:9", "4:3", "1:1"])),
            ("delivery_spec", text_view("交付规格，例如 1080x1920, 30fps, H.264/AAC")),
            ("concepts", arr_view(
                "**互斥**的创意方案，2–3 个。同一个需求的几种不同拍法：平台、受众、时长这些由需求定死的东西共用，各方案不同的是切入角度、钩子和节拍。只给一个方案，下一阶段的「筛选」就成了自问自答",
                idea_concepts_item_schema(),
                2,
            )),
            ("success_metrics", arr_view("可验收的成功标准", text_view("一条标准"), 1)),
            ("rights_and_safety_risks", arr_view("版权与安全风险", idea_rights_and_safety_risks_item_schema(), 0)),
            ("assumptions", arr_view("对模糊输入所做的假设，必须写清", text_view("一条假设"), 0)),
            ("explicit_exclusions", arr_view("明确不做的事", text_view("一条"), 0)),
            ("protagonist", any_view("主角设定，用于跨镜头一致性")),
        ],
        seq![
            "title",
            "logline",
            "platform",
            "audience",
            "duration_seconds",
            "shot_count",
            "aspect_ratio",
            "concepts",
            "success_metrics",
        ],
    )
}

fn schema_idea() -> (r: Schema)
    ensures
        r.model() == idea_schema(),
{
    let props = vec![
        ("title", text("作品标题")),
        ("logline", text("一句话概括")),
        ("platform", text("发布平台，例如「抖音竖屏短视频」")),
        ("audience", text("目标受众")),
        ("theme", text("主题")),
        ("tone", text("情绪基调")),
        ("duration_seconds", num_min("总时长（秒）", Number::Frac(Decimal { mantissa: 10, scale: 1 }))),
        ("shot_count", integer("镜头数")),
        ("aspect_ratio", one_of("画幅", vec!["9:16", "16:9", "4:3", "1:1"])),
        ("delivery_spec", text("交付规格，例如 1080x1920, 30fps, H.264/AAC")),
        ("concepts", arr(
            "**互斥**的创意方案，2–3 个。同一个需求的几种不同拍法：平台、受众、时长这些由需求定死的东西共用，各方案不同的是切入角度、钩子和节拍。只给一个方案，下一阶段的「筛选」就成了自问自答",
            schema_idea_concepts_item(),
            2,
        )),
        ("success_metrics", arr("可验收的成功标准", text("一条标准"), 1)),
        ("rights_and_safety_risks", arr("版权与安全风险", schema_idea_rights_and_safety_risks_item(), 0)),
        ("assumptions", arr("对模糊输入所做的假设，必须写清", text("一条假设"), 0)),
        ("explicit_exclusions", arr("明确不做的事", text("一条"), 0)),
        ("protagonist", any("主角设定，用于跨镜头一致性")),
    ];
    assert(models_of(props@) =~= idea_schema()->Object_props);
    obj(
        "把用户创意整理成可执行 brief",
        props,
        vec![
            "title",
            "logline",
            "platform",
            "audience",
            "duration_seconds",
            "shot_count",
            "aspect_ratio",
            "concepts",
            "success_metrics",
        ],
    )
}

/// The schema of `candidates[].feasibility` in the selection outputs.
pub open spec fn selection_candidates_item_feasibility_schema() -> SchemaView {
    obj_view(
        "可行性",
        seq![
            ("score", one_of_view("高 / 中 / 低", seq!["high", "medium", "low"])),
            ("rationale", text_view("判断依据：模型可控性、制作成本")),
        ],
        seq!["score", "rationale"],
    )
}

fn schema_selection_candidates_item_feasibility() -> (r: Schema)
    ensures
        r.model() == selection_candidates_item_feasibility_schema(),
{
    let props = vec![
        ("score", one_of("高 / 中 / 低", vec!["high", "medium", "low"])),
        ("rationale", text("判断依据：模型可控性、制作成本")),
    ];
    assert(models_of(props@) =~= selection_candidates_item_feasibility_schema()->Object_props);
    obj("可行性", props, vec!["score", "rationale"])
}

/// The schema of `candidates[].audience_fit` in the selection outputs.
pub open spec fn selection_candidates_item_audience_fit_schema() -> SchemaView {
    obj_view(
        "受众匹配",
        seq![
            ("hook_strength", one_of_view("钩子强度", seq!["strong", "medium", "weak"])),
            ("rationale", text_view("为什么这个钩子对这批受众有效")),
        ],
        seq!["hook_strength"],
    )
}

fn schema_selection_candidates_item_audience_fit() -> (r: Schema)
    ensures
        r.model() == selection_candidates_item_audience_fit_schema(),
{
    let props = vec![
        ("hook_strength", one_of("钩子强度", vec!["strong", "medium", "weak"])),
        ("rationale", text("为什么这个钩子对这批受众有效")),
    ];
    assert(models_of(props@) =~= selection_candidates_item_audience_fit_schema()->Object_props);
    obj("受众匹配", props, vec!["hook_strength"])
}

/// The schema of `candidates[]` in the selection outputs.
pub open spec fn selection_candidates_item_schema() -> SchemaView {
    obj_view(
        "一个方案的评估",
        seq![
            ("concept_id", text_view("对应 idea 的 concept_id")),
            ("feasibility", selection_candidates_item_feasibility_schema()),
            ("audience_fit", selection_candidates_item_audience_fit_schema()),
            ("risks", arr_view("这个方案特有的风险", text_view("一条"), 0)),
            ("verdict", one_of_view("结论：推荐 / 可选 / 不建议", seq!["recommended", "viable", "not_advised"])),
        ],
        seq!["concept_id", "feasibility", "audience_fit", "verdict"],
    )
}

fn schema_selection_candidates_item() -> (r: Schema)
    ensures
        r.model() == selection_candidates_item_schema(),
{
    let props = vec![
        ("concept_id", text("对应 idea 的 concept_id")),
        ("feasibility", schema_selection_candidates_item_feasibility()),
        ("audience_fit", schema_selection_candidates_item_audience_fit()),
        ("risks", arr("这个方案特有的风险", text("一条"), 0)),
        ("verdict", one_of("结论：推荐 / 可选 / 不建议", vec!["recommended", "viable", "not_advised"])),
    ];
    assert(models_of(props@) =~= selection_candidates_item_schema()->Object_props);
    obj("一个方案的评估", props, vec!["concept_id", "feasibility", "audience_fit", "verdict"])
}

/// The schema of `publishing_risks` in the selection outputs.
pub open spec fn selection_publishing_risks_schema() -> SchemaView {
    obj_view(
        "发布风险分级（针对推荐方案）",
        seq![
            ("avoidable", arr_view("可规避", text_view("一条"), 0)),
            ("unacceptable", arr_view("不可接受", text_view("一条"), 0)),
            ("user_decision", arr_view("需用户决定", text_view("一条"), 0)),
        ],
        Seq::empty(),
    )
}

fn schema_selection_publishing_risks() -> (r: Schema)
    ensures
        r.model() == selection_publishing_risks_schema(),
{
    let props = vec![
        ("avoidable", arr("可规避", text("一条"), 0)),
        ("unacceptable", arr("不可接受", text("一条"), 0)),
        ("user_decision", arr("需用户决定", text("一条"), 0)),
    ];
    assert(models_of(props@) =~= selection_publishing_risks_schema()->Object_props);
    obj("发布风险分级（针对推荐方案）", props, vec![])
}

/// The schema of the selection outputs.
pub open spec fn selection_schema() -> SchemaView {
    obj_view(
        "从可行性、受众匹配和发布风险里挑一个方案，并说清代价",
        seq![
            ("candidates", arr_view(
                "逐个评估 idea 阶段给出的方案。**每个都要评**——只评推荐的那个，等于没有比较",
                selection_candidates_item_schema(),
                2,
            )),
            ("recommendation", text_view("推荐哪个方案，写 concept_id。它必须是 candidates 里 verdict 为 recommended 的那个")),
            ("tradeoffs", text_view("推荐它**牺牲了什么**。只讲优点的推荐等于没推荐")),
            ("publishing_risks", selection_publishing_risks_schema()),
            ("acceptance_metrics", arr_view("验收标准", text_view("一条"), 1)),
        ],
        seq!["candidates", "recommendation", "tradeoffs", "acceptance_metrics"],
    )
}

fn schema_selection() -> (r: Schema)
    ensures
        r.model() == selection_schema(),
{
    let props = vec![
        ("candidates", arr("逐个评估 idea 阶段给出的方案。**每个都要评**——只评推荐的那个，等于没有比较", schema_selection_candidates_item(), 2)),
        ("recommendation", text("推荐哪个方案，写 concept_id。它必须是 candidates 里 verdict 为 recommended 的那个")),
        ("tradeoffs", text("推荐它**牺牲了什么**。只讲优点的推荐等于没推荐")),
        ("publishing_risks", schema_selection_publishing_risks()),
        ("acceptance_metrics", arr("验收标准", text("一条"), 1)),
    ];
    assert(models_of(props@) =~= selection_schema()->Object_props);
    obj(
        "从可行性、受众匹配和发布风险里挑一个方案，并说清代价",
        props,
        vec!["candidates", "recommendation", "tradeoffs", "acceptance_metrics"],
    )
}

/// The schema of `story_arc[]` in the script outputs.
pub open spec fn script_story_arc_item_schema() -> SchemaView {
    obj_view(
        "一拍",
        seq![
            ("beat_id", text_view("稳定标识，例如 beat_01")),
            ("beat_type", one_of_view(
                "这一拍在结构里的位置。短视频的骨架是hook（勾住）→ setup（交代）→ develop（推进）→ turn（转折）→ payoff（兑现）→ resolve（收束），不必每种都有，但每一拍都要说清自己是哪一种",
                BEAT_TYPES@,
            )),
            ("start", num_min_view("起点（秒）", Number::Frac(Decimal { mantissa: 0, scale: 1 }))),
            ("end", num_min_view("终点（秒）", Number::Frac(Decimal { mantissa: 0, scale: 1 }))),
            ("duration_seconds", num_min_view("时长（秒）", Number::Frac(Decimal { mantissa: 1, scale: 1 }))),
            ("purpose", text_view("这一拍要达成什么")),
            ("visual", text_view("画面")),
            ("audio", text_view("声音")),
        ],
        seq![
            "beat_id",
            "beat_type",
            "start",
            "end",
            "duration_seconds",
            "purpose",
            "visual",
            "audio",
        ],
    )
}

fn schema_script_story_arc_item() -> (r: Schema)
    ensures
        r.model() == script_story_arc_item_schema(),
{
    let props = vec![
        ("beat_id", text("稳定标识，例如 beat_01")),
        ("beat_type", one_of(
            "这一拍在结构里的位置。短视频的骨架是hook（勾住）→ setup（交代）→ develop（推进）→ turn（转折）→ payoff（兑现）→ resolve（收束），不必每种都有，但每一拍都要说清自己是哪一种",
            words(&BEAT_TYPES),
        )),
        ("start", num_min("起点（秒）", Number::Frac(Decimal { mantissa: 0, scale: 1 }))),
        ("end", num_min("终点（秒）", Number::Frac(Decimal { mantissa: 0, scale: 1 }))),
        ("duration_seconds", num_min("时长（秒）", Number::Frac(Decimal { mantissa: 1, scale: 1 }))),
        ("purpose", text("这一拍要达成什么")),
        ("visual", text("画面")),
        ("audio", text("声音")),
    ];
    assert(models_of(props@) =~= script_story_arc_item_schema()->Object_props);
    obj(
        "一拍",
        props,
        vec![
            "beat_id",
            "beat_type",
            "start",
            "end",
            "duration_seconds",
            "purpose",
            "visual",
            "audio",
        ],
    )
}

/// The schema of `segments[]` in the script outputs.
pub open spec fn script_segments_item_schema() -> SchemaView {
    obj_view(
        "一段",
        seq![
            ("segment_id", text_view("标识")),
            ("start", num_min_view("起点（秒）", Number::Frac(Decimal { mantissa: 0, scale: 1 }))),
            ("end", num_min_view("终点（秒）", Number::Frac(Decimal { mantissa: 0, scale: 1 }))),
            ("speaker", text_view("说话人；环境声填 ambient")),
            ("text", text_view("台词/旁白；无则空串")),
            ("subtitle_text", text_view("字幕；无则空串")),
            ("source", text_view("声音来源")),
        ],
        seq!["segment_id", "start", "end", "speaker"],
    )
}

fn schema_script_segments_item() -> (r: Schema)
    ensures
        r.model() == script_segments_item_schema(),
{
    let props = vec![
        ("segment_id", text("标识")),
        ("start", num_min("起点（秒）", Number::Frac(Decimal { mantissa: 0, scale: 1 }))),
        ("end", num_min("终点（秒）", Number::Frac(Decimal { mantissa: 0, scale: 1 }))),
        ("speaker", text("说话人；环境声填 ambient")),
        ("text", text("台词/旁白；无则空串")),
        ("subtitle_text", text("字幕；无则空串")),
        ("source", text("声音来源")),
    ];
    assert(models_of(props@) =~= script_segments_item_schema()->Object_props);
    obj("一段", props, vec!["segment_id", "start", "end", "speaker"])
}

/// The schema of the script outputs.
pub open spec fn script_schema() -> SchemaView {
    obj_view(
        "故事结构、节奏与声音时间线",
        seq![
            ("title", text_view("标题")),
            ("total_duration_seconds", num_min_view("总时长，必须与各段之和一致", Number::Frac(Decimal { mantissa: 10, scale: 1 }))),
            ("shot_count", int_view("镜头数")),
            ("timing_rule", text_view("时长分配规则。按内容智能分配时在这里说明依据")),
            ("hook_at_seconds", num_min_view(
                "钩子在第几秒成立。短视频里这个数越小越好，超过 3 秒基本等于没有钩子",
                Number::Frac(Decimal { mantissa: 0, scale: 1 }),
            )),
            ("language", text_view("口播语言；无口播填 none")),
            ("story_arc", arr_view("逐拍节奏", script_story_arc_item_schema(), 1)),
            ("segments", arr_view("声音/字幕时间线", script_segments_item_schema(), 1)),
            ("subtitle_policy", any_view("字幕策略")),
            ("audio_policy", any_view("音频策略：原生音频优先、外部音乐是否禁用、降级条件")),
            ("safety_notes", arr_view("安全注意", text_view("一条"), 0)),
        ],
        seq![
            "title",
            "total_duration_seconds",
            "shot_count",
            "timing_rule",
            "story_arc",
            "segments",
        ],
    )
}

fn schema_script() -> (r: Schema)
    ensures
        r.model() == script_schema(),
{
    let props = vec![
        ("title", text("标题")),
        ("total_duration_seconds", num_min("总时长，必须与各段之和一致", Number::Frac(Decimal { mantissa: 10, scale: 1 }))),
        ("shot_count", integer("镜头数")),
        ("timing_rule", text("时长分配规则。按内容智能分配时在这里说明依据")),
        ("hook_at_seconds", num_min(
            "钩子在第几秒成立。短视频里这个数越小越好，超过 3 秒基本等于没有钩子",
            Number::Frac(Decimal { mantissa: 0, scale: 1 }),
        )),
        ("language", text("口播语言；无口播填 none")),
        ("story_arc", arr("逐拍节奏", schema_script_story_arc_item(), 1)),
        ("segments", arr("声音/字幕时间线", schema_script_segments_item(), 1)),
        ("subtitle_policy", any("字幕策略")),
        ("audio_policy", any("音频策略：原生音频优先、外部音乐是否禁用、降级条件")),
        ("safety_notes", arr("安全注意", text("一条"), 0)),
    ];
    assert(models_of(props@) =~= script_schema()->Object_props);
    obj(
        "故事结构、节奏与声音时间线",
        props,
        vec![
            "title",
            "total_duration_seconds",
            "shot_count",
            "timing_rule",
            "story_arc",
            "segments",
        ],
    )
}

/// The schema of `character_lock` in the storyboard outputs.
pub open spec fn storyboard_character_lock_schema() -> SchemaView {
    obj_view(
        "角色连续性锁定。**这里定的字符串是后面两个阶段的唯一来源**：视觉资产的 consistency_lock.character 和提示词包的 identity_lock.character 必须与它逐字相同",
        seq![
            ("identity_lock", text_view(
                "身份锁：一次写定、后续逐字复制的那段外观描述。年龄、性别、发型发长、上衣、下装、鞋、随身物，一句话写完。写「同一位女孩」这类指代等于没锁——模型看不到上一镜",
            )),
            ("camera_signature", text_view("机位签名：这个角色主要以什么角度出现，全片保持一致")),
            ("safety", text_view("安全约束：不做什么动作、不靠近什么位置")),
        ],
        seq!["identity_lock"],
    )
}

fn schema_storyboard_character_lock() -> (r: Schema)
    ensures
        r.model() == storyboard_character_lock_schema(),
{
    let props = vec![
        ("identity_lock", text("身份锁：一次写定、后续逐字复制的那段外观描述。年龄、性别、发型发长、上衣、下装、鞋、随身物，一句话写完。写「同一位女孩」这类指代等于没锁——模型看不到上一镜")),
        ("camera_signature", text("机位签名：这个角色主要以什么角度出现，全片保持一致")),
        ("safety", text("安全约束：不做什么动作、不靠近什么位置")),
    ];
    assert(models_of(props@) =~= storyboard_character_lock_schema()->Object_props);
    obj(
        "角色连续性锁定。**这里定的字符串是后面两个阶段的唯一来源**：视觉资产的 consistency_lock.character 和提示词包的 identity_lock.character 必须与它逐字相同",
        props,
        vec!["identity_lock"],
    )
}

/// The schema of `shots[].audio.dialogue` in the storyboard outputs.
pub open spec fn storyboard_shots_item_audio_dialogue_schema() -> SchemaView {
    obj_view(
        "对白。没有就整个省略，不要填空串",
        seq![
            ("speaker", text_view("说话人")),
            ("text", text_view("台词原文")),
            ("language", text_view("语言与口音，例如「普通话」")),
        ],
        seq!["speaker", "text"],
    )
}

fn schema_storyboard_shots_item_audio_dialogue() -> (r: Schema)
    ensures
        r.model() == storyboard_shots_item_audio_dialogue_schema(),
{
    let props = vec![("speaker", text("说话人")), ("text", text("台词原文")), ("language", text("语言与口音，例如「普通话」"))];
    assert(models_of(props@) =~= storyboard_shots_item_audio_dialogue_schema()->Object_props);
    obj("对白。没有就整个省略，不要填空串", props, vec!["speaker", "text"])
}

/// The schema of `shots[].audio` in the storyboard outputs.
pub open spec fn storyboard_shots_item_audio_schema() -> SchemaView {
    obj_view(
        "这一镜的声音。核心系列多为音视频联合生成，这里写的内容会进提示词，留空等于放弃原生音频",
        seq![
            ("ambient", text_view("环境声：这个空间本来就有的声音")),
            ("foley", text_view("拟音：这一镜的动作发出的声音")),
            ("dialogue", storyboard_shots_item_audio_dialogue_schema()),
            ("music", text_view("音乐；本镜无音乐填 none")),
        ],
        Seq::empty(),
    )
}

fn schema_storyboard_shots_item_audio() -> (r: Schema)
    ensures
        r.model() == storyboard_shots_item_audio_schema(),
{
    let props = vec![
        ("ambient", text("环境声：这个空间本来就有的声音")),
        ("foley", text("拟音：这一镜的动作发出的声音")),
        ("dialogue", schema_storyboard_shots_item_audio_dialogue()),
        ("music", text("音乐；本镜无音乐填 none")),
    ];
    assert(models_of(props@) =~= storyboard_shots_item_audio_schema()->Object_props);
    obj("这一镜的声音。核心系列多为音视频联合生成，这里写的内容会进提示词，留空等于放弃原生音频", props, vec![])
}

/// The schema of `shots[]` in the storyboard outputs.
pub open spec fn storyboard_shots_item_schema() -> SchemaView {
    obj_view(
        "一个镜头",
        seq![
            ("shot_id", text_view("稳定标识，例如 sh01")),
            ("start", num_min_view("起点（秒）", Number::Frac(Decimal { mantissa: 0, scale: 1 }))),
            ("end", num_min_view("终点（秒）", Number::Frac(Decimal { mantissa: 0, scale: 1 }))),
            ("duration_seconds", num_min_view("时长（秒）", Number::Frac(Decimal { mantissa: 1, scale: 1 }))),
            ("purpose", text_view("这个镜头的作用")),
            ("shot_function", one_of_view("这一镜的职能。三者都不占的镜头不该存在，删掉它", SHOT_FUNCTIONS@)),
            ("three_facts", arr_view(
                "三个物理事实，各一条且必须可拍：环境压力（风、雨、人流、温度、光线变化）、身体微动作（手指、呼吸、重心、视线）、声音锚点（这一镜能听见的具体声源）。写「氛围感」「很美」这类不可拍的词等于没写",
                text_view("一条可拍的物理事实"),
                3,
            )),
            ("shot_size", one_of_view("景别", SHOT_SIZES@)),
            ("angle", one_of_view("机位角度", ANGLES@)),
            ("camera_motion", one_of_view(
                "镜头运动。**每镜只能有一个**——两个以上的运动会让生成结果失控。这些取值与视频模型的运镜指令一一对应，提示词阶段直接翻译，所以写在表里的词才有效，自由发挥的描述没有效果",
                CAMERA_MOTIONS@,
            )),
            ("lighting_source", one_of_view("光源：光从哪来", LIGHTING_SOURCES@)),
            ("lighting_key", one_of_view("光型：光怎么打在主体上", LIGHTING_KEYS@)),
            ("color_tone", text_view("色调。用可复现的说法：冷白、暖金、青橙、低饱和、漂白旁路。「高级感」这类词对模型无效")),
            ("subject", text_view("主体")),
            ("foreground", text_view("前景")),
            ("midground", text_view("中景")),
            ("background", text_view("背景")),
            ("action_chain", text_view("动作链：起 -> 承 -> 收。写可见的身体动作，不写内心状态")),
            ("first_frame", text_view("首帧")),
            ("last_frame", text_view("尾帧")),
            ("audio", storyboard_shots_item_audio_schema()),
            ("sound", text_view("声音的一句话概述（保留字段，细节写在 audio 里）")),
            ("transition_to_next", text_view("转场方式")),
        ],
        seq![
            "shot_id",
            "start",
            "end",
            "duration_seconds",
            "purpose",
            "shot_function",
            "three_facts",
            "shot_size",
            "camera_motion",
            "subject",
            "action_chain",
        ],
    )
}

fn schema_storyboard_shots_item() -> (r: Schema)
    ensures
        r.model() == storyboard_shots_item_schema(),
{
    let props = vec![
        ("shot_id", text("稳定标识，例如 sh01")),
        ("start", num_min("起点（秒）", Number::Frac(Decimal { mantissa: 0, scale: 1 }))),
        ("end", num_min("终点（秒）", Number::Frac(Decimal { mantissa: 0, scale: 1 }))),
        ("duration_seconds", num_min("时长（秒）", Number::Frac(Decimal { mantissa: 1, scale: 1 }))),
        ("purpose", text("这个镜头的作用")),
        ("shot_function", one_of("这一镜的职能。三者都不占的镜头不该存在，删掉它", words(&SHOT_FUNCTIONS))),
        ("three_facts", arr(
            "三个物理事实，各一条且必须可拍：环境压力（风、雨、人流、温度、光线变化）、身体微动作（手指、呼吸、重心、视线）、声音锚点（这一镜能听见的具体声源）。写「氛围感」「很美」这类不可拍的词等于没写",
            text("一条可拍的物理事实"),
            3,
        )),
        ("shot_size", one_of("景别", words(&SHOT_SIZES))),
        ("angle", one_of("机位角度", words(&ANGLES))),
        ("camera_motion", one_of(
            "镜头运动。**每镜只能有一个**——两个以上的运动会让生成结果失控。这些取值与视频模型的运镜指令一一对应，提示词阶段直接翻译，所以写在表里的词才有效，自由发挥的描述没有效果",
            words(&CAMERA_MOTIONS),
        )),
        ("lighting_source", one_of("光源：光从哪来", words(&LIGHTING_SOURCES))),
        ("lighting_key", one_of("光型：光怎么打在主体上", words(&LIGHTING_KEYS))),
        ("color_tone", text("色调。用可复现的说法：冷白、暖金、青橙、低饱和、漂白旁路。「高级感」这类词对模型无效")),
        ("subject", text("主体")),
        ("foreground", text("前景")),
        ("midground", text("中景")),
        ("background", text("背景")),
        ("action_chain", text("动作链：起 -> 承 -> 收。写可见的身体动作，不写内心状态")),
        ("first_frame", text("首帧")),
        ("last_frame", text("尾帧")),
        ("audio", schema_storyboard_shots_item_audio()),
        ("sound", text("声音的一句话概述（保留字段，细节写在 audio 里）")),
        ("transition_to_next", text("转场方式")),
    ];
    assert(models_of(props@) =~= storyboard_shots_item_schema()->Object_props);
    obj(
        "一个镜头",
        props,
        vec![
            "shot_id",
            "start",
            "end",
            "duration_seconds",
            "purpose",
            "shot_function",
            "three_facts",
            "shot_size",
            "camera_motion",
            "subject",
            "action_chain",
        ],
    )
}

/// The schema of the storyboard outputs.
pub open spec fn storyboard_schema() -> SchemaView {
    obj_view(
        "逐镜头分镜：摄影机、灯光、构图与时长",
        seq![
            ("title", text_view("标题")),
            ("aspect_ratio", one_of_view("画幅", seq!["9:16", "16:9", "4:3", "1:1"])),
            ("total_duration_seconds", num_min_view("总时长", Number::Frac(Decimal { mantissa: 10, scale: 1 }))),
            ("shot_count", int_view("镜头数")),
            ("timing_basis", text_view("时长依据。不平均切分时说明为什么")),
            ("character_lock", storyboard_character_lock_schema()),
            ("shots", arr_view("镜头表", storyboard_shots_item_schema(), 1)),
        ],
        seq!["title", "aspect_ratio", "total_duration_seconds", "shot_count", "shots"],
    )
}

fn schema_storyboard() -> (r: Schema)
    ensures
        r.model() == storyboard_schema(),
{
    let props = vec![
        ("title", text("标题")),
        ("aspect_ratio", one_of("画幅", vec!["9:16", "16:9", "4:3", "1:1"])),
        ("total_duration_seconds", num_min("总时长", Number::Frac(Decimal { mantissa: 10, scale: 1 }))),
        ("shot_count", integer("镜头数")),
        ("timing_basis", text("时长依据。不平均切分时说明为什么")),
        ("character_lock", schema_storyboard_character_lock()),
        ("shots", arr("镜头表", schema_storyboard_shots_item(), 1)),
    ];
    assert(models_of(props@) =~= storyboard_schema()->Object_props);
    obj(
        "逐镜头分镜：摄影机、灯光、构图与时长",
        props,
        vec!["title", "aspect_ratio", "total_duration_seconds", "shot_count", "shots"],
    )
}

/// The schema of `consistency_lock` in the visual assets outputs.
pub open spec fn visual_assets_consistency_lock_schema() -> SchemaView {
    obj_view(
        "一致性锁定。`character` 从分镜的 character_lock.identity_lock **原样复制**，不要在这里重写一遍",
        seq![
            ("character", text_view("身份锁，与分镜的 character_lock.identity_lock 逐字相同")),
            ("camera", text_view("机位签名")),
            ("environment", text_view("环境锁定：地点、天气、时段")),
            ("typography", text_view("排版禁止项：乱码文字、假字幕、水印。挡的是模型幻觉出来的假字，不是标识本身——要出现的 logo、图标、品牌正常写进提示词即可")),
        ],
        seq!["character"],
    )
}

fn schema_visual_assets_consistency_lock() -> (r: Schema)
    ensures
        r.model() == visual_assets_consistency_lock_schema(),
{
    let props = vec![
        ("character", text("身份锁，与分镜的 character_lock.identity_lock 逐字相同")),
        ("camera", text("机位签名")),
        ("environment", text("环境锁定：地点、天气、时段")),
        ("typography", text("排版禁止项：乱码文字、假字幕、水印。挡的是模型幻觉出来的假字，不是标识本身——要出现的 logo、图标、品牌正常写进提示词即可")),
    ];
    assert(models_of(props@) =~= visual_assets_consistency_lock_schema()->Object_props);
    obj(
        "一致性锁定。`character` 从分镜的 character_lock.identity_lock **原样复制**，不要在这里重写一遍",
        props,
        vec!["character"],
    )
}

/// The schema of `assets[].views[]` in the visual assets outputs.
pub open spec fn visual_assets_assets_item_views_item_schema() -> SchemaView {
    obj_view(
        "一个视图",
        seq![
            ("view", one_of_view(
                "视图 id。取值随 asset_kind 而定：角色卡用 front_full 那一组，场景卡用 establishing 那一组，道具卡用 front 那一组",
                ALL_VIEWS@,
            )),
            ("is_anchor", bool_view("是不是主视图。每张卡**有且仅有一个**，且必须是该类型的固定主视图。主视图先出、单独出，其余视图都以它为参考图")),
            ("aspect", text_view("目标比例，例如 9:16 / 1:1 / 16:9。同一张卡的所有视图用同一套规格——一张竖一张方会让人误以为是不同批次生成的")),
            ("prompt", text_view(
                "本视图的提示词：identity_prompt 逐字 + 本视图特有的机位/表情描述 + 画幅比例。统一约束：中性灰底、均匀柔光、无阴影投射、不裁切。卡片是**测量用的参考素材**，不是好看的剧照",
            )),
            ("derived_from", arr_view(
                "本视图挂哪几张已定稿的视图当参考图。**非主视图必填**，第一项是本卡的主视图，后面按顺序补上**这一张之前已经定稿的其余视图**——这叫累积锁定：出第 5 个视图时前 4 个都在场，新视图必须同时与它们自洽，漂移无处可去。主视图自己不填。只能指向同一张卡里排在自己前面的视图，最多 10 张",
                text_view("同一张卡里的视图 id，例如 front_full"),
                1,
            )),
            ("status", one_of_view(
                "状态。**提交时一律 planned**，其余取值由控制面回填",
                seq!["planned", "generating", "ready", "failed"],
            )),
            ("path", text_view("落盘位置，控制面回填。bundle 内相对路径，形如 media/assets/<asset_id>/<view>.png")),
            ("provenance", any_view("哪个后端、哪条基线、什么尺寸、什么种子出的。控制面回填，可审计")),
        ],
        seq!["view", "is_anchor", "aspect", "prompt", "status"],
    )
}

fn schema_visual_assets_assets_item_views_item() -> (r: Schema)
    ensures
        r.model() == visual_assets_assets_item_views_item_schema(),
{
    let props = vec![
        ("view", one_of(
            "视图 id。取值随 asset_kind 而定：角色卡用 front_full 那一组，场景卡用 establishing 那一组，道具卡用 front 那一组",
            words(&ALL_VIEWS),
        )),
        ("is_anchor", Schema::Bool { desc: "是不是主视图。每张卡**有且仅有一个**，且必须是该类型的固定主视图。主视图先出、单独出，其余视图都以它为参考图" }),
        ("aspect", text("目标比例，例如 9:16 / 1:1 / 16:9。同一张卡的所有视图用同一套规格——一张竖一张方会让人误以为是不同批次生成的")),
        ("prompt", text(
            "本视图的提示词：identity_prompt 逐字 + 本视图特有的机位/表情描述 + 画幅比例。统一约束：中性灰底、均匀柔光、无阴影投射、不裁切。卡片是**测量用的参考素材**，不是好看的剧照",
        )),
        ("derived_from", arr(
            "本视图挂哪几张已定稿的视图当参考图。**非主视图必填**，第一项是本卡的主视图，后面按顺序补上**这一张之前已经定稿的其余视图**——这叫累积锁定：出第 5 个视图时前 4 个都在场，新视图必须同时与它们自洽，漂移无处可去。主视图自己不填。只能指向同一张卡里排在自己前面的视图，最多 10 张",
            text("同一张卡里的视图 id，例如 front_full"),
            1,
        )),
        ("status", one_of("状态。**提交时一律 planned**，其余取值由控制面回填", vec!["planned", "generating", "ready", "failed"])),
        ("path", text("落盘位置，控制面回填。bundle 内相对路径，形如 media/assets/<asset_id>/<view>.png")),
        ("provenance", any("哪个后端、哪条基线、什么尺寸、什么种子出的。控制面回填，可审计")),
    ];
    assert(models_of(props@) =~= visual_assets_assets_item_views_item_schema()->Object_props);
    obj("一个视图", props, vec!["view", "is_anchor", "aspect", "prompt", "status"])
}

/// The schema of `assets[]` in the visual assets outputs.
pub open spec fn visual_assets_assets_item_schema() -> SchemaView {
    obj_view(
        "一项资产",
        seq![
            ("asset_id", text_view("稳定标识，例如 C01 / SC01 / P01")),
            ("asset_kind", one_of_view("资产类型", ASSET_KINDS@)),
            ("identity_prompt", text_view(
                "这张卡的外观锁，**一次写定**：发型、脸型、肤色、瞳色、服装、体型、年龄段、标志性特征。下面每个视图的 prompt 都要逐字带上它，不复述、不改写。角色卡的这一段要与 consistency_lock.character 一致",
            )),
            ("applies_to", arr_view("作用于哪些镜头", text_view("shot_id"), 0)),
            ("views", arr_view(
                "视图清单。必需视图缺一个就不放行，各类必需哪些见方法文档 consistency/character-sheet.md",
                visual_assets_assets_item_views_item_schema(),
                1,
            )),
        ],
        seq!["asset_id", "asset_kind", "identity_prompt", "views"],
    )
}

fn schema_visual_assets_assets_item() -> (r: Schema)
    ensures
        r.model() == visual_assets_assets_item_schema(),
{
    let props = vec![
        ("asset_id", text("稳定标识，例如 C01 / SC01 / P01")),
        ("asset_kind", one_of("资产类型", words(&ASSET_KINDS))),
        ("identity_prompt", text(
            "这张卡的外观锁，**一次写定**：发型、脸型、肤色、瞳色、服装、体型、年龄段、标志性特征。下面每个视图的 prompt 都要逐字带上它，不复述、不改写。角色卡的这一段要与 consistency_lock.character 一致",
        )),
        ("applies_to", arr("作用于哪些镜头", text("shot_id"), 0)),
        ("views", arr(
            "视图清单。必需视图缺一个就不放行，各类必需哪些见方法文档 consistency/character-sheet.md",
            schema_visual_assets_assets_item_views_item(),
            1,
        )),
    ];
    assert(models_of(props@) =~= visual_assets_assets_item_schema()->Object_props);
    obj("一项资产", props, vec!["asset_id", "asset_kind", "identity_prompt", "views"])
}

/// The schema of the visual assets outputs.
pub open spec fn visual_assets_schema() -> SchemaView {
    obj_view(
        "角色卡、场景卡与参考资产计划",
        seq![
            ("backend", text_view("生成后端，通常是 comfyui")),
            ("core_model_family", text_view("核心模型系列，例如 minimax_h3")),
            ("strategy", text_view("这批卡怎么排：哪些角色/场景/道具要出卡、各要哪些视图、为什么。用什么模型出图由控制面决定，不用写")),
            ("fallback_policy", text_view("降级策略。默认结构化阻塞，不自动换系列")),
            ("consistency_lock", visual_assets_consistency_lock_schema()),
            ("assets", arr_view(
                "资产清单。**每个跨镜头复用的角色、场景、道具都要有一项**，每一项下面挂多个视图——一张大头照锁不住服装，一张全身照锁不住脸",
                visual_assets_assets_item_schema(),
                1,
            )),
        ],
        seq!["backend", "core_model_family", "consistency_lock", "assets"],
    )
}

fn schema_visual_assets() -> (r: Schema)
    ensures
        r.model() == visual_assets_schema(),
{
    let props = vec![
        ("backend", text("生成后端，通常是 comfyui")),
        ("core_model_family", text("核心模型系列，例如 minimax_h3")),
        ("strategy", text("这批卡怎么排：哪些角色/场景/道具要出卡、各要哪些视图、为什么。用什么模型出图由控制面决定，不用写")),
        ("fallback_policy", text("降级策略。默认结构化阻塞，不自动换系列")),
        ("consistency_lock", schema_visual_assets_consistency_lock()),
        ("assets", arr(
            "资产清单。**每个跨镜头复用的角色、场景、道具都要有一项**，每一项下面挂多个视图——一张大头照锁不住服装，一张全身照锁不住脸",
            schema_visual_assets_assets_item(),
            1,
        )),
    ];
    assert(models_of(props@) =~= visual_assets_schema()->Object_props);
    obj(
        "角色卡、场景卡与参考资产计划",
        props,
        vec!["backend", "core_model_family", "consistency_lock", "assets"],
    )
}

/// The schema of `identity_lock` in the prompt pack outputs.
pub open spec fn prompt_pack_identity_lock_schema() -> SchemaView {
    obj_view(
        "身份锁。从视觉资产的 consistency_lock **原样复制**——提交时会逐字比对，也会逐镜检查每条 positive 是不是真的带上了它",
        seq![
            ("character", text_view(
                "与分镜 character_lock.identity_lock、视觉资产 consistency_lock.character 逐字相同的那段外观描述。每一镜的 positive 里必须原样出现",
            )),
            ("environment", text_view("环境锁定，同样逐字复用")),
            ("typography", text_view("排版禁止项")),
        ],
        seq!["character"],
    )
}

fn schema_prompt_pack_identity_lock() -> (r: Schema)
    ensures
        r.model() == prompt_pack_identity_lock_schema(),
{
    let props = vec![
        ("character", text(
            "与分镜 character_lock.identity_lock、视觉资产 consistency_lock.character 逐字相同的那段外观描述。每一镜的 positive 里必须原样出现",
        )),
        ("environment", text("环境锁定，同样逐字复用")),
        ("typography", text("排版禁止项")),
    ];
    assert(models_of(props@) =~= prompt_pack_identity_lock_schema()->Object_props);
    obj(
        "身份锁。从视觉资产的 consistency_lock **原样复制**——提交时会逐字比对，也会逐镜检查每条 positive 是不是真的带上了它",
        props,
        vec!["character"],
    )
}

/// The schema of `shots[].references[]` in the prompt pack outputs.
pub open spec fn prompt_pack_shots_item_references_item_schema() -> SchemaView {
    obj_view(
        "一条参考",
        seq![
            ("kind", one_of_view("介质", seq!["image", "video", "audio"])),
            ("asset_id", text_view("visual_assets 登记过的产物 id。写不存在的会被挡下并列出可用的")),
            ("with_audio", bool_view("视频参考是否连音轨一起挂。只有 kind: video 能用")),
        ],
        seq!["kind", "asset_id"],
    )
}

fn schema_prompt_pack_shots_item_references_item() -> (r: Schema)
    ensures
        r.model() == prompt_pack_shots_item_references_item_schema(),
{
    let props = vec![
        ("kind", one_of("介质", vec!["image", "video", "audio"])),
        ("asset_id", text("visual_assets 登记过的产物 id。写不存在的会被挡下并列出可用的")),
        ("with_audio", Schema::Bool { desc: "视频参考是否连音轨一起挂。只有 kind: video 能用" }),
    ];
    assert(models_of(props@) =~= prompt_pack_shots_item_references_item_schema()->Object_props);
    obj("一条参考", props, vec!["kind", "asset_id"])
}

/// The schema of `shots[].guides[]` in the prompt pack outputs.
pub open spec fn prompt_pack_shots_item_guides_item_schema() -> SchemaView {
    obj_view(
        "一个锚点",
        seq![
            ("kind", one_of_view("锚什么。clip 是视频片段，长度吃 17k+5 网格", seq!["image", "clip", "audio"])),
            ("at_frame", int_view("锚在第几帧。负数从末尾倒数，-1 是最后一帧")),
            ("asset_id", text_view("visual_assets 登记过的产物 id")),
        ],
        seq!["kind", "at_frame", "asset_id"],
    )
}

fn schema_prompt_pack_shots_item_guides_item() -> (r: Schema)
    ensures
        r.model() == prompt_pack_shots_item_guides_item_schema(),
{
    let props = vec![
        ("kind", one_of("锚什么。clip 是视频片段，长度吃 17k+5 网格", vec!["image", "clip", "audio"])),
        ("at_frame", integer("锚在第几帧。负数从末尾倒数，-1 是最后一帧")),
        ("asset_id", text("visual_assets 登记过的产物 id")),
    ];
    assert(models_of(props@) =~= prompt_pack_shots_item_guides_item_schema()->Object_props);
    obj("一个锚点", props, vec!["kind", "at_frame", "asset_id"])
}

/// The schema of `shots[]` in the prompt pack outputs.
pub open spec fn prompt_pack_shots_item_schema() -> SchemaView {
    obj_view(
        "一个镜头的 prompt",
        seq![
            ("shot_id", text_view("对应分镜的 shot_id")),
            ("workflow", text_view(
                "整图基线名，例如 ltx2_5/t2v。**只有走整图基线的系列用它**（ltx2_5 / wan2_2 等）。片段化的系列改用 head + references + guides，写 workflow 会被挡下。调 studio.schema 看这台机器给的是哪一种",
            )),
            ("head", text_view(
                "这一镜用哪种生成方式。**片段化的系列用它代替 workflow**：reference（挂参考，锁身份/风格，起幅由模型定）、image（给首尾帧，锁构图与运动轨迹）。取值由 studio.schema 按这台机器的片段库给出",
            )),
            ("positive", text_view(
                "正向提示词。一条提示词只描述**一个可读镜头**：一个主体、一个可见动作、一个受控环境、一个运镜。句首放最重要的视觉元素。禁止 cinematic / 电影感 / 史诗般 / 大片质感 / 4K / 高质量这类对模型无效的词",
            )),
            ("negative", text_view(
                "负向提示词。**不是每条基线都支持**——不支持的基线上写了会被**挡下**（提交时按能力面对账，报 schema_violation），该把约束改写成正向的连续性约束（「一镜到底」「主体全程居中」「不切场景」）。先看能力卡",
            )),
            ("audio", text_view(
                "这一镜要出的声音：环境声、拟音、对白（放引号并注明语言）、音乐。核心系列多为音视频联合生成，留空等于放弃原生音频。内容照抄分镜的 audio，不要在这里另编",
            )),
            ("width", int_view("宽")),
            ("height", int_view("高")),
            ("length_frames", int_view("帧数。有的基线按秒收时长，用 duration_seconds")),
            ("duration_seconds", num_min_view(
                "时长（秒）。按帧数收时长的基线用 length_frames",
                Number::Frac(Decimal { mantissa: 1, scale: 1 }),
            )),
            ("fps", int_view("帧率")),
            ("seed", int_view("随机种子。固定以便复现")),
            ("references", arr_view(
                "挂给这一镜的视觉资产。**只有 head: reference 吃它**——身份、空间、运动各挂一路，比在 positive 里反复描述外观有效得多。上限按介质分：图 9、视频 3、音频 3",
                prompt_pack_shots_item_references_item_schema(),
                0,
            )),
            ("guides", arr_view(
                "把某个素材锚在某一帧上。**镜头之间接不接得住靠它**——把上一镜的尾段锚在本镜第 0 帧，模型生成的是两条流的续接，比只在提示词里说「接上一镜」有效。head: image 只能锚首帧（0）或尾帧（-1）",
                prompt_pack_shots_item_guides_item_schema(),
                0,
            )),
            ("first_frame", text_view("首帧的 asset_id。**只有 head: image 用**")),
            ("last_frame", text_view("尾帧的 asset_id。**只有 head: image 用**，可不给")),
        ],
        seq!["shot_id", "positive", "width", "height", "length_frames", "fps"],
    )
}

fn schema_prompt_pack_shots_item() -> (r: Schema)
    ensures
        r.model() == prompt_pack_shots_item_schema(),
{
    let props = vec![
        ("shot_id", text("对应分镜的 shot_id")),
        ("workflow", text(
            "整图基线名，例如 ltx2_5/t2v。**只有走整图基线的系列用它**（ltx2_5 / wan2_2 等）。片段化的系列改用 head + references + guides，写 workflow 会被挡下。调 studio.schema 看这台机器给的是哪一种",
        )),
        ("head", text(
            "这一镜用哪种生成方式。**片段化的系列用它代替 workflow**：reference（挂参考，锁身份/风格，起幅由模型定）、image（给首尾帧，锁构图与运动轨迹）。取值由 studio.schema 按这台机器的片段库给出",
        )),
        ("positive", text(
            "正向提示词。一条提示词只描述**一个可读镜头**：一个主体、一个可见动作、一个受控环境、一个运镜。句首放最重要的视觉元素。禁止 cinematic / 电影感 / 史诗般 / 大片质感 / 4K / 高质量这类对模型无效的词",
        )),
        ("negative", text(
            "负向提示词。**不是每条基线都支持**——不支持的基线上写了会被**挡下**（提交时按能力面对账，报 schema_violation），该把约束改写成正向的连续性约束（「一镜到底」「主体全程居中」「不切场景」）。先看能力卡",
        )),
        ("audio", text("这一镜要出的声音：环境声、拟音、对白（放引号并注明语言）、音乐。核心系列多为音视频联合生成，留空等于放弃原生音频。内容照抄分镜的 audio，不要在这里另编")),
        ("width", integer("宽")),
        ("height", integer("高")),
        ("length_frames", integer("帧数。有的基线按秒收时长，用 duration_seconds")),
        ("duration_seconds", num_min("时长（秒）。按帧数收时长的基线用 length_frames", Number::Frac(Decimal { mantissa: 1, scale: 1 }))),
        ("fps", integer("帧率")),
        ("seed", integer("随机种子。固定以便复现")),
        ("references", arr(
            "挂给这一镜的视觉资产。**只有 head: reference 吃它**——身份、空间、运动各挂一路，比在 positive 里反复描述外观有效得多。上限按介质分：图 9、视频 3、音频 3",
            schema_prompt_pack_shots_item_references_item(),
            0,
        )),
        ("guides", arr(
            "把某个素材锚在某一帧上。**镜头之间接不接得住靠它**——把上一镜的尾段锚在本镜第 0 帧，模型生成的是两条流的续接，比只在提示词里说「接上一镜」有效。head: image 只能锚首帧（0）或尾帧（-1）",
            schema_prompt_pack_shots_item_guides_item(),
            0,
        )),
        ("first_frame", text("首帧的 asset_id。**只有 head: image 用**")),
        ("last_frame", text("尾帧的 asset_id。**只有 head: image 用**，可不给")),
    ];
    assert(models_of(props@) =~= prompt_pack_shots_item_schema()->Object_props);
    obj(
        "一个镜头的 prompt",
        props,
        vec!["shot_id", "positive", "width", "height", "length_frames", "fps"],
    )
}

/// The schema of the prompt pack outputs.
pub open spec fn prompt_pack_schema() -> SchemaView {
    obj_view(
        "逐镜头 prompt 与 ComfyUI workflow 参数",
        seq![
            ("core_model_family", text_view("核心模型系列")),
            ("identity_lock", prompt_pack_identity_lock_schema()),
            ("shots", arr_view("逐镜头参数", prompt_pack_shots_item_schema(), 1)),
        ],
        seq!["core_model_family", "identity_lock", "shots"],
    )
}

fn schema_prompt_pack() -> (r: Schema)
    ensures
        r.model() == prompt_pack_schema(),
{
    let props = vec![
        ("core_model_family", text("核心模型系列")),
        ("identity_lock", schema_prompt_pack_identity_lock()),
        ("shots", arr("逐镜头参数", schema_prompt_pack_shots_item(), 1)),
    ];
    assert(models_of(props@) =~= prompt_pack_schema()->Object_props);
    obj(
        "逐镜头 prompt 与 ComfyUI workflow 参数",
        props,
        vec!["core_model_family", "identity_lock", "shots"],
    )
}

/// The schema of `shots[]` in the preview outputs.
pub open spec fn preview_shots_item_schema() -> SchemaView {
    obj_view(
        "一镜预览结果",
        seq![
            ("shot_id", text_view("镜头标识")),
            ("node", text_view("承载的 ComfyUI 节点")),
            ("prompt_id", text_view("ComfyUI 的 prompt_id，用于追溯")),
            ("path", text_view("预览文件的 bundle 内相对路径，media/preview/ 下")),
            ("width", int_view("预览宽度（480 短边缩放后）")),
            ("height", int_view("预览高度（480 短边缩放后）")),
            ("duration_seconds", num_view("实际时长")),
        ],
        seq!["shot_id", "node", "prompt_id", "path"],
    )
}

fn schema_preview_shots_item() -> (r: Schema)
    ensures
        r.model() == preview_shots_item_schema(),
{
    let props = vec![
        ("shot_id", text("镜头标识")),
        ("node", text("承载的 ComfyUI 节点")),
        ("prompt_id", text("ComfyUI 的 prompt_id，用于追溯")),
        ("path", text("预览文件的 bundle 内相对路径，media/preview/ 下")),
        ("width", integer("预览宽度（480 短边缩放后）")),
        ("height", integer("预览高度（480 短边缩放后）")),
        ("duration_seconds", num("实际时长")),
    ];
    assert(models_of(props@) =~= preview_shots_item_schema()->Object_props);
    obj("一镜预览结果", props, vec!["shot_id", "node", "prompt_id", "path"])
}

/// The schema of the preview outputs.
pub open spec fn preview_schema() -> SchemaView {
    obj_view(
        "480p 预览结果登记（由控制面产出）。花贵的正式渲染之前，先出便宜的低分辨率预览让人工确认构图与内容——帧数/时长不变，只降分辨率。",
        seq![("shots", arr_view("每镜头一条", preview_shots_item_schema(), 1))],
        seq!["shots"],
    )
}

fn schema_preview() -> (r: Schema)
    ensures
        r.model() == preview_schema(),
{
    let props = vec![("shots", arr("每镜头一条", schema_preview_shots_item(), 1))];
    assert(models_of(props@) =~= preview_schema()->Object_props);
    obj(
        "480p 预览结果登记（由控制面产出）。花贵的正式渲染之前，先出便宜的低分辨率预览让人工确认构图与内容——帧数/时长不变，只降分辨率。",
        props,
        vec!["shots"],
    )
}

/// The schema of `shots[]` in the render outputs.
pub open spec fn render_shots_item_schema() -> SchemaView {
    obj_view(
        "一镜结果",
        seq![
            ("shot_id", text_view("镜头标识")),
            ("node", text_view("承载的 ComfyUI 节点")),
            ("prompt_id", text_view("ComfyUI 的 prompt_id，用于追溯")),
            ("path", text_view("产出文件的 bundle 内相对路径")),
            ("duration_seconds", num_view("实际时长")),
        ],
        seq!["shot_id", "node", "prompt_id", "path"],
    )
}

fn schema_render_shots_item() -> (r: Schema)
    ensures
        r.model() == render_shots_item_schema(),
{
    let props = vec![
        ("shot_id", text("镜头标识")),
        ("node", text("承载的 ComfyUI 节点")),
        ("prompt_id", text("ComfyUI 的 prompt_id，用于追溯")),
        ("path", text("产出文件的 bundle 内相对路径")),
        ("duration_seconds", num("实际时长")),
    ];
    assert(models_of(props@) =~= render_shots_item_schema()->Object_props);
    obj("一镜结果", props, vec!["shot_id", "node", "prompt_id", "path"])
}

/// The schema of the render outputs.
pub open spec fn render_schema() -> SchemaView {
    obj_view(
        "渲染结果登记（由控制面产出）",
        seq![("shots", arr_view("每镜头一条", render_shots_item_schema(), 1))],
        seq!["shots"],
    )
}

fn schema_render() -> (r: Schema)
    ensures
        r.model() == render_schema(),
{
    let props = vec![("shots", arr("每镜头一条", schema_render_shots_item(), 1))];
    assert(models_of(props@) =~= render_schema()->Object_props);
    obj("渲染结果登记（由控制面产出）", props, vec!["shots"])
}

/// The schema of the post outputs.
pub open spec fn post_schema() -> SchemaView {
    obj_view(
        "后期结果（由控制面产出）",
        seq![
            ("video", text_view("成片的 bundle 内相对路径")),
            ("cover", text_view("封面相对路径")),
            ("subtitles", text_view("字幕相对路径")),
            ("duration_seconds", num_view("成片实际时长")),
            ("aspect_ratio", text_view("成片实际画幅")),
            ("upscaled", bool_view("有没有做成片超分。false 表示成片停在模型的原生画布上，交付分辨率达不到 1080——那是配置里明确关掉的结果，不是失败")),
            ("delivery", text_view("成片实际尺寸，例如 1080x1920")),
        ],
        seq!["video", "duration_seconds", "aspect_ratio"],
    )
}

fn schema_post() -> (r: Schema)
    ensures
        r.model() == post_schema(),
{
    let props = vec![
        ("video", text("成片的 bundle 内相对路径")),
        ("cover", text("封面相对路径")),
        ("subtitles", text("字幕相对路径")),
        ("duration_seconds", num("成片实际时长")),
        ("aspect_ratio", text("成片实际画幅")),
        ("upscaled", Schema::Bool { desc: "有没有做成片超分。false 表示成片停在模型的原生画布上，交付分辨率达不到 1080——那是配置里明确关掉的结果，不是失败" }),
        ("delivery", text("成片实际尺寸，例如 1080x1920")),
    ];
    assert(models_of(props@) =~= post_schema()->Object_props);
    obj("后期结果（由控制面产出）", props, vec!["video", "duration_seconds", "aspect_ratio"])
}

/// The schema of `checks[]` in the review outputs.
pub open spec fn review_checks_item_schema() -> SchemaView {
    obj_view(
        "一项",
        seq![
            ("name", text_view("检查项")),
            ("kind", one_of_view(
                "这一项是谁判的：technical 来自 ffprobe 实测，content 来自内容自评",
                seq!["technical", "content"],
            )),
            ("passed", bool_view("结果")),
            ("detail", text_view("依据。必须来自实际媒体元数据，不能是推断")),
        ],
        seq!["name", "kind", "passed", "detail"],
    )
}

fn schema_review_checks_item() -> (r: Schema)
    ensures
        r.model() == review_checks_item_schema(),
{
    let props = vec![
        ("name", text("检查项")),
        ("kind", one_of("这一项是谁判的：technical 来自 ffprobe 实测，content 来自内容自评", vec!["technical", "content"])),
        ("passed", Schema::Bool { desc: "结果" }),
        ("detail", text("依据。必须来自实际媒体元数据，不能是推断")),
    ];
    assert(models_of(props@) =~= review_checks_item_schema()->Object_props);
    obj("一项", props, vec!["name", "kind", "passed", "detail"])
}

/// The schema of `content_review.items[]` in the review outputs.
pub open spec fn review_content_review_items_item_schema() -> SchemaView {
    obj_view(
        "一条自评",
        seq![
            ("criterion", one_of_view("评价维度。固定五条，不可增删", criterion_names_view())),
            ("verdict", one_of_view("结论", VERDICTS@)),
            ("at_seconds", num_min_view("可指认的时间点（秒）", Number::Frac(Decimal { mantissa: 0, scale: 1 }))),
            ("evidence", text_view("在那个时间点上看见/听见了什么，以及它为什么支持这个结论")),
        ],
        seq!["criterion", "verdict", "at_seconds", "evidence"],
    )
}

fn schema_review_content_review_items_item() -> (r: Schema)
    ensures
        r.model() == review_content_review_items_item_schema(),
{
    let props = vec![
        ("criterion", one_of("评价维度。固定五条，不可增删", criterion_names())),
        ("verdict", one_of("结论", words(&VERDICTS))),
        ("at_seconds", num_min("可指认的时间点（秒）", Number::Frac(Decimal { mantissa: 0, scale: 1 }))),
        ("evidence", text("在那个时间点上看见/听见了什么，以及它为什么支持这个结论")),
    ];
    assert(models_of(props@) =~= review_content_review_items_item_schema()->Object_props);
    obj("一条自评", props, vec!["criterion", "verdict", "at_seconds", "evidence"])
}

/// The schema of `content_review` in the review outputs.
pub open spec fn review_content_review_schema() -> SchemaView {
    obj_view(
        "内容自评。由 studio.self_review 写入，Agent 不在这里提交",
        seq![
            ("items", arr_view("逐维度一条", review_content_review_items_item_schema(), 5)),
            ("summary", text_view("一句话：最强的一点和最弱的一点")),
        ],
        seq!["items", "summary"],
    )
}

fn schema_review_content_review() -> (r: Schema)
    ensures
        r.model() == review_content_review_schema(),
{
    let props = vec![
        ("items", arr("逐维度一条", schema_review_content_review_items_item(), 5)),
        ("summary", text("一句话：最强的一点和最弱的一点")),
    ];
    assert(models_of(props@) =~= review_content_review_schema()->Object_props);
    obj("内容自评。由 studio.self_review 写入，Agent 不在这里提交", props, vec!["items", "summary"])
}

/// The schema of the review outputs.
pub open spec fn review_schema() -> SchemaView {
    obj_view(
        "验收报告。**技术验收**由控制面产出（下面的 checks 与 passed）；**内容验收**由 Agent 事后用 studio.self_review 补上（content_review），它不改变 passed——片子已经出来了，内容评价改变不了它是否完整",
        seq![
            ("passed", bool_view("技术验收是否通过。只看 kind 为 technical 的检查项")),
            ("checks", arr_view("逐项检查", review_checks_item_schema(), 1)),
            ("content_review", review_content_review_schema()),
        ],
        seq!["passed", "checks"],
    )
}

fn schema_review() -> (r: Schema)
    ensures
        r.model() == review_schema(),
{
    let props = vec![
        ("passed", Schema::Bool { desc: "技术验收是否通过。只看 kind 为 technical 的检查项" }),
        ("checks", arr("逐项检查", schema_review_checks_item(), 1)),
        ("content_review", schema_review_content_review()),
    ];
    assert(models_of(props@) =~= review_schema()->Object_props);
    obj(
        "验收报告。**技术验收**由控制面产出（下面的 checks 与 passed）；**内容验收**由 Agent 事后用 studio.self_review 补上（content_review），它不改变 passed——片子已经出来了，内容评价改变不了它是否完整",
        props,
        vec!["passed", "checks"],
    )
}

/// The schema of a stage's outputs, under their top-level key.
pub open spec fn schema_of(stage: StageId) -> SchemaView {
    match stage {
        StageId::Idea => idea_schema(),
        StageId::Selection => selection_schema(),
        StageId::Script => script_schema(),
        StageId::Storyboard => storyboard_schema(),
        StageId::VisualAssets => visual_assets_schema(),
        StageId::PromptPack => prompt_pack_schema(),
        StageId::Preview => preview_schema(),
        StageId::Render => render_schema(),
        StageId::Post => post_schema(),
        StageId::Review => review_schema(),
    }
}

/// The schema of a stage's outputs, under their top-level key.
pub fn stage_schema(stage: StageId) -> (r: Schema)
    ensures
        r.model() == schema_of(stage),
{
    match stage {
        StageId::Idea => schema_idea(),
        StageId::Selection => schema_selection(),
        StageId::Script => schema_script(),
        StageId::Storyboard => schema_storyboard(),
        StageId::VisualAssets => schema_visual_assets(),
        StageId::PromptPack => schema_prompt_pack(),
        StageId::Preview => schema_preview(),
        StageId::Render => schema_render(),
        StageId::Post => schema_post(),
        StageId::Review => schema_review(),
    }
}

// ---------------------------------------------------------------------------
// Validation.

/// Every violation of a stage's outputs: a missing top-level key, or the
/// schema's violations followed by the structural ones.
pub open spec fn validation_violations(stage: StageId, o: Outputs) -> Seq<ViolationView> {
    let key = stage.key_name();
    match o.field(key) {
        None => seq![(key, "阶段 "@ + stage.name() + " 的产物必须放在顶层键 "@ + key + " 下"@)],
        Some(v) => violations_of(schema_of(stage), v, key) + structural_violations(stage, v, key),
    }
}

/// Whatever the stage's schema finds in its outputs, validation reports:
/// with the laws above, a required key missing at any depth makes
/// `validate` refuse the outputs.
pub proof fn lemma_schema_findings_are_reported(stage: StageId, o: Outputs, x: ViolationView)
    requires
        o.field(stage.key_name()) matches Some(v) && violations_of(schema_of(stage), v, stage.key_name()).contains(x),
    ensures
        validation_violations(stage, o).contains(x),
        validation_violations(stage, o).len() > 0,
{
    let key = stage.key_name();
    let v = o.field(key)->0;
    let a = violations_of(schema_of(stage), v, key);
    let b = structural_violations(stage, v, key);
    let q = choose|q: int| 0 <= q < a.len() && a[q] == x;
    assert((a + b)[q] == x);
}

/// Validates a stage's outputs. Each violation carries the full path of the
/// field, e.g. `script.story_arc[2].duration_seconds`.
pub fn validate(stage: StageId, outputs: &Outputs) -> (r: Result<(), StudioError>)
    ensures
        r is Ok <==> validation_violations(stage, *outputs).len() == 0,
        r matches Err(e) ==> (e matches StudioError::SchemaViolation { stage: s, violations }
            && s == stage && violation_views(violations@) == validation_violations(
            stage,
            *outputs,
        )),
{
    let key = stage.output_key();
    let mut violations: Vec<Violation> = Vec::new();
    match outputs.get(key) {
        None => {
            let mut msg = String::from_str("阶段 ");
            msg.append(stage.as_str());
            msg.append(" 的产物必须放在顶层键 ");
            msg.append(key);
            msg.append(" 下");
            violations.push(Violation::new(String::from_str(key), msg));
            assert(violation_views(violations@) =~= validation_violations(stage, *outputs));
        },
        Some(v) => {
            let schema = stage_schema(stage);
            schema.check(v, key, &mut violations);
            structural(stage, v, key, &mut violations);
            assert(violation_views(violations@) =~= validation_violations(stage, *outputs));
        },
    }
    if violations.len() == 0 {
        Ok(())
    } else {
        Err(StudioError::SchemaViolation { stage, violations })
    }
}

// ---------------------------------------------------------------------------
// Schemas as JSON Schema documents.

pub open spec fn is_text(j: Json, t: Seq<char>) -> bool {
    j matches Json::Str(x) && x@ == t
}

/// The entry is `key: "text"`.
pub open spec fn text_entry(e: (String, Json), key: Seq<char>, t: Seq<char>) -> bool {
    e.0@ == key && is_text(e.1, t)
}

/// The items are exactly these strings.
pub open spec fn texts_are(items: Seq<Json>, strs: Seq<&'static str>) -> bool {
    items.len() == strs.len() && forall|i: int| 0 <= i < items.len() ==> is_text(
        #[trigger] items[i],
        strs[i]@,
    )
}

/// `j` is the JSON Schema form of `s`: the fields in the order written here.
pub open spec fn describes(j: Json, s: SchemaView) -> bool
    decreases s, 0int,
{
    match j {
        Json::Object(o) => {
            let e = o@;
            match s {
                SchemaView::Object { desc, props, required } => {
                    &&& e.len() == 5
                    &&& text_entry(e[0], "type"@, "object"@)
                    &&& text_entry(e[1], "description"@, desc@)
                    &&& e[2].0@ == "properties"@
                    &&& (e[2].1 matches Json::Object(p) && props_described(
                        p@,
                        props,
                        props.len() as int,
                    ))
                    &&& e[3].0@ == "required"@
                    &&& (e[3].1 matches Json::Array(r) && texts_are(r@, required))
                    &&& e[4].0@ == "additionalProperties"@
                    &&& e[4].1 == Json::Bool(true)
                },
                SchemaView::Array { desc, items, min_items } => {
                    &&& e.len() == 4
                    &&& text_entry(e[0], "type"@, "array"@)
                    &&& text_entry(e[1], "description"@, desc@)
                    &&& e[2].0@ == "items"@
                    &&& describes(e[2].1, *items)
                    &&& e[3].0@ == "minItems"@
                    &&& e[3].1 == Json::Num(Number::Int(min_items as i128))
                },
                SchemaView::Str { desc, allowed } => {
                    &&& e.len() == if allowed.len() == 0 {
                        2int
                    } else {
                        3int
                    }
                    &&& text_entry(e[0], "type"@, "string"@)
                    &&& text_entry(e[1], "description"@, desc@)
                    &&& allowed.len() > 0 ==> (e[2].0@ == "enum"@ && (e[2].1 matches Json::Array(
                        a,
                    ) && texts_are(a@, allowed)))
                },
                SchemaView::Num { desc, min, max } => {
                    let n_min: int = if min is Some {
                        1
                    } else {
                        0
                    };
                    let n_max: int = if max is Some {
                        1
                    } else {
                        0
                    };
                    &&& e.len() == 2 + n_min + n_max
                    &&& text_entry(e[0], "type"@, "number"@)
                    &&& text_entry(e[1], "description"@, desc@)
                    &&& min matches Some(m) ==> e[2].0@ == "minimum"@ && e[2].1 == Json::Num(m)
                    &&& max matches Some(m) ==> e[2 + n_min].0@ == "maximum"@ && e[2 + n_min].1
                        == Json::Num(m)
                },
                SchemaView::Int { desc } => {
                    &&& e.len() == 2
                    &&& text_entry(e[0], "type"@, "integer"@)
                    &&& text_entry(e[1], "description"@, desc@)
                },
                SchemaView::Bool { desc } => {
                    &&& e.len() == 2
                    &&& text_entry(e[0], "type"@, "boolean"@)
                    &&& text_entry(e[1], "description"@, desc@)
                },
                SchemaView::Any { desc } => {
                    &&& e.len() == 1
                    &&& text_entry(e[0], "description"@, desc@)
                },
            }
        },
        _ => false,
    }
}

/// The first `n` properties are described, key by key.
pub open spec fn props_described(
    entries: Seq<(String, Json)>,
    props: Seq<(&'static str, SchemaView)>,
    n: int,
) -> bool
    decreases props, n,
{
    if n <= 0 || n > props.len() {
        n == 0 && entries.len() == 0
    } else {
        proof {
            assert(decreases_to!(props => props[n - 1]));
            assert(decreases_to!(props[n - 1] => props[n - 1].1));
        }
        entries.len() == n && props_described(entries.drop_last(), props, n - 1)
            && entries.last().0@ == props[n - 1].0@ && describes(entries.last().1, props[n - 1].1)
    }
}

fn text_json(s: &str) -> (r: Json)
    ensures
        is_text(r, s@),
{
    Json::Str(String::from_str(s))
}

fn texts_json(v: &Vec<&'static str>) -> (r: Json)
    ensures
        r matches Json::Array(a) && texts_are(a@, v@),
{
    let mut a: Vec<Json> = Vec::new();
    let mut i: usize = 0;
    while i < v.len()
        invariant
            i <= v@.len(),
            a@.len() == i,
            forall|k: int| 0 <= k < i ==> is_text(#[trigger] a@[k], v@[k]@),
        decreases v.len() - i,
    {
        a.push(text_json(v[i]));
        i = i + 1;
    }
    Json::Array(a)
}

impl Schema {
    /// This schema as a JSON Schema object.
    pub fn to_json(&self) -> (r: Json)
        ensures
            describes(r, self.model()),
        decreases *self, 0int,
    {
        let mut e: Vec<(String, Json)> = Vec::new();
        match self {
            Schema::Object { desc, props, required } => {
                e.push((String::from_str("type"), text_json("object")));
                e.push((String::from_str("description"), text_json(desc)));
                let mut p: Vec<(String, Json)> = Vec::new();
                let mut i: usize = 0;
                while i < props.len()
                    invariant
                        *self == (Schema::Object { desc: *desc, props: *props, required: *required }),
                        i <= props@.len(),
                        props_described(p@, props_model(props@, props@.len() as int), i as int),
                    decreases props.len() - i,
                {
                    proof {
                        let ghost whole: Schema = *self;
                        let ghost ps: Vec<(&'static str, Schema)> = whole->Object_props;
                        assert(decreases_to!(whole => ps));
                        assert(decreases_to!(ps => ps@));
                        assert(decreases_to!(ps@ => ps@[i as int]));
                        assert(decreases_to!(ps@[i as int] => ps@[i as int].1));
                        lemma_props_model_index(props@, props@.len() as int, i as int);
                    }
                    let child = props[i].1.to_json();
                    let ghost before = p@;
                    p.push((String::from_str(props[i].0), child));
                    assert(p@.drop_last() =~= before);
                    i = i + 1;
                }
                proof {
                    lemma_props_model_len(props@, props@.len() as int);
                }
                e.push((String::from_str("properties"), Json::Object(p)));
                e.push((String::from_str("required"), texts_json(required)));
                e.push((String::from_str("additionalProperties"), Json::Bool(true)));
            },
            Schema::Array { desc, items, min_items } => {
                proof {
                    let ghost whole: Schema = *self;
                    assert(decreases_to!(whole => *whole->Array_items));
                }
                e.push((String::from_str("type"), text_json("array")));
                e.push((String::from_str("description"), text_json(desc)));
                e.push((String::from_str("items"), items.to_json()));
                e.push((String::from_str("minItems"), Json::Num(Number::Int(*min_items as i128))));
            },
            Schema::Str { desc, allowed } => {
                e.push((String::from_str("type"), text_json("string")));
                e.push((String::from_str("description"), text_json(desc)));
                if allowed.len() > 0 {
                    e.push((String::from_str("enum"), texts_json(allowed)));
                }
            },
            Schema::Num { desc, min, max } => {
                e.push((String::from_str("type"), text_json("number")));
                e.push((String::from_str("description"), text_json(desc)));
                match min {
                    Some(m) => {
                        e.push((String::from_str("minimum"), Json::Num(*m)));
                    },
                    None => {},
                }
                match max {
                    Some(m) => {
                        e.push((String::from_str("maximum"), Json::Num(*m)));
                    },
                    None => {},
                }
            },
            Schema::Int { desc } => {
                e.push((String::from_str("type"), text_json("integer")));
                e.push((String::from_str("description"), text_json(desc)));
            },
            Schema::Bool { desc } => {
                e.push((String::from_str("type"), text_json("boolean")));
                e.push((String::from_str("description"), text_json(desc)));
            },
            Schema::Any { desc } => {
                e.push((String::from_str("description"), text_json(desc)));
            },
        }
        Json::Object(e)
    }
}

/// The JSON Schema document of a stage, as written to `assets/schema/<stage>.json`.
pub open spec fn documents(j: Json, stage: StageId) -> bool {
    let key = stage.key_name();
    match j {
        Json::Object(o) => {
            let e = o@;
            &&& e.len() == 8
            &&& text_entry(e[0], "$schema"@, "http://json-schema.org/draft-07/schema#"@)
            &&& text_entry(
                e[1],
                "$id"@,
                "https://github.com/sunsheng/video-studio/schema/"@ + stage.name() + ".json"@,
            )
            &&& text_entry(e[2], "title"@, stage.name() + " 阶段产物"@)
            &&& text_entry(
                e[3],
                "description"@,
                "studio.submit_stage 在阶段 "@ + stage.name() + " 接受的 outputs 形状。顶层键固定为 "@
                    + key + "。"@,
            )
            &&& text_entry(e[4], "type"@, "object"@)
            &&& e[5].0@ == "properties"@
            &&& (e[5].1 matches Json::Object(p) && p@.len() == 1 && p@[0].0@ == key && describes(
                p@[0].1,
                schema_of(stage),
            ))
            &&& e[6].0@ == "required"@
            &&& (e[6].1 matches Json::Array(r) && r@.len() == 1 && is_text(r@[0], key))
            &&& e[7].0@ == "additionalProperties"@
            &&& e[7].1 == Json::Bool(true)
        },
        _ => false,
    }
}

/// The full JSON Schema document of a stage's outputs.
pub fn stage_schema_document(stage: StageId) -> (r: Json)
    ensures
        documents(r, stage),
{
    let key = stage.output_key();
    let name = stage.as_str();
    let mut e: Vec<(String, Json)> = Vec::new();
    e.push((String::from_str("$schema"), text_json("http://json-schema.org/draft-07/schema#")));
    let mut id = String::from_str("https://github.com/sunsheng/video-studio/schema/");
    id.append(name);
    id.append(".json");
    e.push((String::from_str("$id"), Json::Str(id)));
    let mut title = String::from_str(name);
    title.append(" 阶段产物");
    e.push((String::from_str("title"), Json::Str(title)));
    let mut d = String::from_str("studio.submit_stage 在阶段 ");
    d.append(name);
    d.append(" 接受的 outputs 形状。顶层键固定为 ");
    d.append(key);
    d.append("。");
    e.push((String::from_str("description"), Json::Str(d)));
    e.push((String::from_str("type"), text_json("object")));
    let mut p: Vec<(String, Json)> = Vec::new();
    p.push((String::from_str(key), stage_schema(stage).to_json()));
    e.push((String::from_str("properties"), Json::Object(p)));
    let mut r: Vec<Json> = Vec::new();
    r.push(text_json(key));
    e.push((String::from_str("required"), Json::Array(r)));
    e.push((String::from_str("additionalProperties"), Json::Bool(true)));
    Json::Object(e)
}

} // verus!
