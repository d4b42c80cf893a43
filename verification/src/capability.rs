//! What each baseline actually takes.
//!
//! A parameter that a baseline does not bind is skipped in silence: no error,
//! no trace, just a wrong picture. This module reconciles a prompt pack with
//! the capabilities of the machine in both directions (written but not taken:
//! dropped; taken but not written: the baseline's default), for the two
//! shapes a family can have: whole-graph baselines chosen by `workflow`, and
//! fragment libraries assembled from `head` + `references` + `guides`.
use vstd::prelude::*;
use crate::assembly::{
    find_key, shot_in_range, shot_path, shot_violations, validate_shot, verified_heads_of,
    FragmentSet, ShotDeclaration,
};
use crate::declaration::decl_of;
use crate::error::{violation_views, StudioError, Violation, ViolationView};
use crate::fragment::param_keys;
use crate::cards::dedup;
use crate::json::{
    entries_model, entry_models, lemma_entries_model, lemma_items_model, items_model, lookup, Json,
    JsonView, Outputs,
};
use crate::order::{sort_strings, sorted_texts};
use crate::stage::StageId;
use crate::text::{dec_nat, join, join_seq, push_u64, seq_starts_with, str_eq, str_starts_with, views_of};

verus! {

broadcast use vstd::string::group_string_axioms;

/// The parameter names that are reported when written but not taken.
///
/// Fields of a shot that never enter the node graph (`shot_id`, `workflow`,
/// `audio`) are not among them.
pub const INJECTABLE_PARAMS: [&'static str; 8] = [
    "positive",
    "negative",
    "width",
    "height",
    "length_frames",
    "duration_seconds",
    "fps",
    "seed",
];

/// The declarative fields that only fragment families take.
pub const DECLARATIVE_FIELDS: [&'static str; 5] = [
    "head",
    "references",
    "guides",
    "first_frame",
    "last_frame",
];

/// The capability of one verified whole-graph baseline.
#[derive(Debug, Clone, PartialEq, Eq)]
pub struct WorkflowCapability {
    /// Of the form `minimax_h3/t2v`.
    pub name: String,
    /// The parameters it takes: the keys of the baseline's `_studio.bindings`.
    pub params: Vec<String>,
    /// Whether its bindings have been checked on a real machine.
    pub verified: bool,
    /// Why not, for error messages.
    pub unavailable_reason: Option<String>,
}

impl WorkflowCapability {
    /// Whether the baseline takes this parameter.
    pub fn accepts(&self, param: &str) -> (r: bool)
        ensures
            r == views_of(self.params@).contains(param@),
    {
        contains_text(&self.params, param)
    }
}

fn contains_text(list: &Vec<String>, x: &str) -> (r: bool)
    ensures
        r == views_of(list@).contains(x@),
{
    let mut i: usize = 0;
    while i < list.len()
        invariant
            i <= list@.len(),
            forall|k: int| 0 <= k < i ==> (#[trigger] list@[k])@ != x@,
        decreases list.len() - i,
    {
        if str_eq(list[i].as_str(), x) {
            assert(views_of(list@)[i as int] == x@);
            return true;
        }
        i = i + 1;
    }
    assert forall|k: int| 0 <= k < views_of(list@).len() implies views_of(list@)[k] != x@ by {
        assert(views_of(list@)[k] == list@[k]@);
    }
    false
}

/// Every capability of this machine, of both shapes.
#[derive(Debug, PartialEq)]
pub struct CapabilitySet {
    workflows: Vec<WorkflowCapability>,
    /// Family name to fragment library. A family listed here takes the
    /// declarative shape and no `workflow`.
    fragments: Vec<(String, FragmentSet)>,
}

/// Whether a fragment library can run: a backbone and a verified head.
pub open spec fn usable(set: FragmentSet) -> bool {
    set.backbone is Some && verified_heads_of(set).len() > 0
}

/// The usable libraries among the first `n`, in order.
pub open spec fn usable_only(sets: Seq<(String, FragmentSet)>, n: int) -> Seq<(String, FragmentSet)>
    decreases n,
{
    if n <= 0 || n > sets.len() {
        Seq::empty()
    } else {
        let rest = usable_only(sets, n - 1);
        if usable(sets[n - 1].1) {
            rest.push(sets[n - 1])
        } else {
            rest
        }
    }
}

/// The first workflow of a name.
pub open spec fn find_workflow(w: Seq<WorkflowCapability>, name: Seq<char>) -> Option<
    WorkflowCapability,
>
    decreases w.len(),
{
    if w.len() == 0 {
        None
    } else if w[0].name@ == name {
        Some(w[0])
    } else {
        find_workflow(w.drop_first(), name)
    }
}

/// The names of the verified workflows among the first `n` whose name starts with `prefix`.
pub open spec fn verified_with_prefix(w: Seq<WorkflowCapability>, prefix: Seq<char>, n: int) -> Seq<
    Seq<char>,
>
    decreases n,
{
    if n <= 0 || n > w.len() {
        Seq::empty()
    } else {
        let rest = verified_with_prefix(w, prefix, n - 1);
        if w[n - 1].verified && seq_starts_with(w[n - 1].name@, prefix) {
            rest.push(w[n - 1].name@)
        } else {
            rest
        }
    }
}

impl CapabilitySet {
    pub closed spec fn workflows_of(self) -> Seq<WorkflowCapability> {
        self.workflows@
    }

    pub closed spec fn libraries(self) -> Seq<(String, FragmentSet)> {
        self.fragments@
    }

    /// The verified baseline names, sorted.
    pub open spec fn verified_names_of(self) -> Seq<Seq<char>> {
        sorted_texts(verified_with_prefix(self.workflows_of(), Seq::empty(), self.workflows_of().len() as int))
    }

    /// The fragment families, sorted.
    pub open spec fn families_of(self) -> Seq<Seq<char>> {
        sorted_texts(self.libraries().map_values(|e: (String, FragmentSet)| e.0@))
    }

    pub fn new(workflows: Vec<WorkflowCapability>) -> (r: CapabilitySet)
        ensures
            r.workflows_of() == workflows@,
            r.libraries().len() == 0,
    {
        CapabilitySet { workflows, fragments: Vec::new() }
    }

    /// Attaches the fragment libraries of the fragment families, keeping only
    /// those that can run: half a library must not switch a family to the
    /// declarative shape.
    pub fn with_fragments(self, sets: Vec<(String, FragmentSet)>) -> (r: CapabilitySet)
        ensures
            r.workflows_of() == self.workflows_of(),
            r.libraries() == usable_only(sets@, sets@.len() as int),
    {
        let ghost orig = sets@;
        let n = sets.len();
        let mut sets = sets;
        let mut kept: Vec<(String, FragmentSet)> = Vec::new();
        let mut i: usize = 0;
        while sets.len() > 0
            invariant
                n == orig.len(),
                i <= orig.len(),
                sets@ == orig.subrange(i as int, orig.len() as int),
                kept@ == usable_only(orig, i as int),
            decreases sets.len(),
        {
            let e = sets.remove(0);
            assert(e == orig[i as int]);
            if e.1.is_usable() {
                kept.push(e);
            }
            i = i + 1;
            assert(sets@ =~= orig.subrange(i as int, orig.len() as int));
        }
        CapabilitySet { workflows: self.workflows, fragments: kept }
    }

    /// The baseline of a name.
    pub fn get(&self, name: &str) -> (r: Option<&WorkflowCapability>)
        ensures
            r matches Some(w) ==> find_workflow(self.workflows_of(), name@) == Some(*w),
            r is None ==> find_workflow(self.workflows_of(), name@) is None,
    {
        let mut i: usize = 0;
        assert(self.workflows@.skip(0) =~= self.workflows@);
        while i < self.workflows.len()
            invariant
                i <= self.workflows@.len(),
                find_workflow(self.workflows@, name@) == find_workflow(
                    self.workflows@.skip(i as int),
                    name@,
                ),
            decreases self.workflows.len() - i,
        {
            assert(self.workflows@.skip(i as int)[0] == self.workflows@[i as int]);
            assert(self.workflows@.skip(i as int).drop_first() =~= self.workflows@.skip(i + 1));
            if str_eq(self.workflows[i].name.as_str(), name) {
                return Some(&self.workflows[i]);
            }
            i = i + 1;
        }
        None
    }

    pub fn is_empty(&self) -> (r: bool)
        ensures
            r == (self.workflows_of().len() == 0 && self.libraries().len() == 0),
    {
        self.workflows.len() == 0 && self.fragments.len() == 0
    }

    /// The fragment library of a family; none means the family uses whole graphs.
    pub fn fragments_for(&self, family: &str) -> (r: Option<&FragmentSet>)
        ensures
            r matches Some(s) ==> find_key(self.libraries(), family@) == Some(*s),
            r is None ==> find_key(self.libraries(), family@) is None,
    {
        crate::assembly::get_key(&self.fragments, family)
    }

    /// The families of the declarative shape, sorted.
    pub fn fragment_families(&self) -> (r: Vec<String>)
        ensures
            views_of(r@) == self.families_of(),
    {
        let mut v: Vec<String> = Vec::new();
        let mut i: usize = 0;
        while i < self.fragments.len()
            invariant
                i <= self.fragments@.len(),
                views_of(v@) == self.fragments@.subrange(0, i as int).map_values(
                    |e: (String, FragmentSet)| e.0@,
                ),
            decreases self.fragments.len() - i,
        {
            let ghost prev = views_of(v@);
            v.push(self.fragments[i].0.clone());
            assert(views_of(v@) =~= prev.push(self.fragments@[i as int].0@));
            i = i + 1;
            assert(views_of(v@) =~= self.fragments@.subrange(0, i as int).map_values(
                |e: (String, FragmentSet)| e.0@,
            ));
        }
        assert(self.fragments@.subrange(0, self.fragments@.len() as int) =~= self.fragments@);
        sort_strings(v)
    }

    fn with_prefix(&self, prefix: &str) -> (r: Vec<String>)
        ensures
            views_of(r@) == sorted_texts(
                verified_with_prefix(self.workflows_of(), prefix@, self.workflows_of().len() as int),
            ),
    {
        let mut v: Vec<String> = Vec::new();
        let mut i: usize = 0;
        while i < self.workflows.len()
            invariant
                i <= self.workflows@.len(),
                views_of(v@) == verified_with_prefix(self.workflows@, prefix@, i as int),
            decreases self.workflows.len() - i,
        {
            let ghost prev = views_of(v@);
            if self.workflows[i].verified && str_starts_with(self.workflows[i].name.as_str(), prefix) {
                v.push(self.workflows[i].name.clone());
                assert(views_of(v@) =~= prev.push(self.workflows@[i as int].name@));
            }
            i = i + 1;
        }
        sort_strings(v)
    }

    /// The verified baselines of a family, sorted.
    fn family_names(&self, family: &str) -> (r: Vec<String>)
        ensures
            views_of(r@) == sorted_texts(
                verified_with_prefix(
                    self.workflows_of(),
                    family@ + "/"@,
                    self.workflows_of().len() as int,
                ),
            ),
    {
        let mut prefix = String::from_str(family);
        prefix.append("/");
        self.with_prefix(prefix.as_str())
    }

    /// The verified baselines that a prompt pack may name, sorted.
    pub fn verified_names(&self) -> (r: Vec<String>)
        ensures
            views_of(r@) == self.verified_names_of(),
    {
        proof {
            reveal_strlit("");
            assert(""@ =~= Seq::<char>::empty());
        }
        let r = self.with_prefix("");
        r
    }
}

// ---------------------------------------------------------------------------
// Messages.

/// What to do about a parameter that a baseline would drop.
pub open spec fn dropped_hint_text(param: Seq<char>, workflow: Seq<char>) -> Seq<char> {
    let head = "基线 "@ + workflow + " 没有绑定 "@ + param + "，写了会被静默丢弃"@;
    if param == "negative"@ {
        head
            + "。把约束改写成正向提示词里的完整句子——「一镜到底，不切场景，画面中不出现任何文字、标志或水印」比一串负向标签可靠"@
    } else if param == "length_frames"@ {
        head + "。这条基线按秒收时长，改用 duration_seconds"@
    } else if param == "duration_seconds"@ {
        head + "。这条基线按帧数收时长，改用 length_frames 配 fps"@
    } else {
        head + "。这个系列吃什么参数，看它的能力卡"@
    }
}

fn dropped_hint(param: &str, workflow: &str) -> (r: String)
    ensures
        r@ == dropped_hint_text(param@, workflow@),
{
    let mut s = String::from_str("基线 ");
    s.append(workflow);
    s.append(" 没有绑定 ");
    s.append(param);
    s.append("，写了会被静默丢弃");
    if str_eq(param, "negative") {
        s.append(
            "。把约束改写成正向提示词里的完整句子——「一镜到底，不切场景，画面中不出现任何文字、标志或水印」比一串负向标签可靠",
        );
    } else if str_eq(param, "length_frames") {
        s.append("。这条基线按秒收时长，改用 duration_seconds");
    } else if str_eq(param, "duration_seconds") {
        s.append("。这条基线按帧数收时长，改用 length_frames 配 fps");
    } else {
        s.append("。这个系列吃什么参数，看它的能力卡");
    }
    s
}

/// A declarative field written on a whole-graph baseline: that road is closed.
pub open spec fn declarative_text(field: Seq<char>, workflow: Seq<char>, families: Seq<Seq<char>>) -> Seq<
    char,
> {
    let head = field + " 只有片段化的系列吃，基线 "@ + workflow
        + " 上写了不会有任何效果，也不会以后自动生效——整图基线的节点是固定的，没有挂参考的槽位"@;
    if families.len() == 0 {
        head + "。这台机器上没有片段化的系列，把这个需求改写进 positive。"@
    } else {
        head + "。要挂参考或锚点，把 core_model_family 换成 "@ + join_seq(families, "、"@)
            + "，那边用 head + references + guides 描述。"@
    }
}

fn declarative_on_whole_graph(field: &str, workflow: &str, families: &Vec<String>) -> (r: String)
    ensures
        r@ == declarative_text(field@, workflow@, views_of(families@)),
{
    let mut s = String::from_str(field);
    s.append(" 只有片段化的系列吃，基线 ");
    s.append(workflow);
    s.append(" 上写了不会有任何效果，也不会以后自动生效——整图基线的节点是固定的，没有挂参考的槽位");
    if families.len() == 0 {
        s.append("。这台机器上没有片段化的系列，把这个需求改写进 positive。");
    } else {
        s.append("。要挂参考或锚点，把 core_model_family 换成 ");
        let joined = join(families, "、");
        s.append(joined.as_str());
        s.append("，那边用 head + references + guides 描述。");
    }
    s
}

// ---------------------------------------------------------------------------
// Reconciling a prompt pack.

pub open spec fn has(e: Seq<(String, Json)>, k: Seq<char>) -> bool {
    lookup(e, k) is Some
}

/// Declarative fields among the first `n` that the shot writes on a whole-graph baseline.
pub open spec fn declarative_hits(
    e: Seq<(String, Json)>,
    i: int,
    name: Seq<char>,
    families: Seq<Seq<char>>,
    n: int,
) -> Seq<ViolationView>
    decreases n,
{
    if n <= 0 || n > DECLARATIVE_FIELDS@.len() {
        Seq::empty()
    } else {
        let f = DECLARATIVE_FIELDS@[n - 1]@;
        declarative_hits(e, i, name, families, n - 1) + if has(e, f) {
            seq![(shot_path(i, f), declarative_text(f, name, families))]
        } else {
            Seq::empty()
        }
    }
}

/// Injectable parameters among the first `n` that the shot writes and `takes` lacks.
pub open spec fn dropped_params(
    e: Seq<(String, Json)>,
    i: int,
    takes: Seq<Seq<char>>,
    name: Seq<char>,
    n: int,
) -> Seq<ViolationView>
    decreases n,
{
    if n <= 0 || n > INJECTABLE_PARAMS@.len() {
        Seq::empty()
    } else {
        let p = INJECTABLE_PARAMS@[n - 1]@;
        dropped_params(e, i, takes, name, n - 1) + if has(e, p) && !takes.contains(p) {
            seq![(shot_path(i, p), dropped_hint_text(p, name))]
        } else {
            Seq::empty()
        }
    }
}

/// Parameters among the first `n` of `takes` that the shot does not write.
pub open spec fn missing_params(
    e: Seq<(String, Json)>,
    i: int,
    takes: Seq<Seq<char>>,
    head: Seq<char>,
    tail: Seq<char>,
    n: int,
) -> Seq<ViolationView>
    decreases n,
{
    if n <= 0 || n > takes.len() {
        Seq::empty()
    } else {
        let p = takes[n - 1];
        missing_params(e, i, takes, head, tail, n - 1) + if has(e, p) {
            Seq::empty()
        } else {
            seq![(shot_path(i, p), head + " 接受 "@ + p + tail)]
        }
    }
}

pub open spec fn reason_text(r: Option<String>) -> Seq<char> {
    match r {
        Some(s) => s@,
        None => "原因未记录"@,
    }
}

/// The violations of shot `i` against the whole-graph baselines.
pub open spec fn whole_graph_shot(cs: CapabilitySet, shot: Json, i: int) -> Seq<ViolationView> {
    let names = cs.verified_names_of();
    match shot.field("workflow"@) {
        Some(w) => match w.str_of() {
            Some(name) => match find_workflow(cs.workflows_of(), name) {
                None => seq![
                    (
                        shot_path(i, "workflow"@),
                        "没有名为 "@ + name + " 的基线。可用的是："@ + if names.len() == 0 {
                            "（这台机器上一条都没有）"@
                        } else {
                            join_seq(names, "、"@)
                        },
                    ),
                ],
                Some(cap) => if !cap.verified {
                    seq![
                        (
                            shot_path(i, "workflow"@),
                            "基线 "@ + name + " 尚未真机核验（"@ + reason_text(cap.unavailable_reason)
                                + "），不能用来渲染——绑错节点会静默产出错的画面，比直接报错难查得多。换一条已核验的基线："@
                                + join_seq(names, "、"@),
                        ),
                    ]
                } else {
                    match shot {
                        Json::Object(e) => declarative_hits(
                            e@,
                            i,
                            name,
                            cs.families_of(),
                            DECLARATIVE_FIELDS@.len() as int,
                        ) + dropped_params(
                            e@,
                            i,
                            views_of(cap.params@),
                            name,
                            INJECTABLE_PARAMS@.len() as int,
                        ) + missing_params(
                            e@,
                            i,
                            views_of(cap.params@),
                            "基线 "@ + name,
                            "，但这一镜没写。不写就用基线自带的默认值，结果不受你控制"@,
                            cap.params@.len() as int,
                        ),
                        _ => Seq::empty(),
                    }
                },
            },
            None => Seq::empty(),
        },
        None => Seq::empty(),
    }
}

pub open spec fn whole_graph_violations(cs: CapabilitySet, shots: Seq<Json>, n: int) -> Seq<
    ViolationView,
>
    decreases n,
{
    if n <= 0 || n > shots.len() {
        Seq::empty()
    } else {
        whole_graph_violations(cs, shots, n - 1) + whole_graph_shot(cs, shots[n - 1], n - 1)
    }
}

/// The shot ids of the first `n` shots (empty where a shot has none).
pub open spec fn shot_ids(shots: Seq<Json>, n: int) -> Seq<Seq<char>>
    decreases n,
{
    if n <= 0 || n > shots.len() {
        Seq::empty()
    } else {
        shot_ids(shots, n - 1).push(
            match shots[n - 1].field("shot_id"@) {
                Some(x) => match x.str_of() {
                    Some(s) => s,
                    None => Seq::empty(),
                },
                None => Seq::empty(),
            },
        )
    }
}

/// The violations of shot `i` against a fragment library.
pub open spec fn declarative_shot(
    set: FragmentSet,
    family: Seq<char>,
    shot: Json,
    i: int,
    ids: Seq<Seq<char>>,
    known: Seq<Seq<char>>,
) -> Seq<ViolationView> {
    let params = dedup(sorted_texts(param_keys(set)));
    match shot {
        Json::Object(e) => if has(e@, "workflow"@) {
            seq![
                (
                    shot_path(i, "workflow"@),
                    family + " 的图在渲染时按声明现场组装，没有整图基线可选——写 workflow 不会有任何效果。删掉它，改用 head（"@
                        + join_seq(verified_heads_of(set), "、"@)
                        + "）配 references / guides 描述这一镜要什么。"@,
                ),
            ]
        } else {
            dropped_params(e@, i, params, family, INJECTABLE_PARAMS@.len() as int) + missing_params(
                e@,
                i,
                params,
                family + " 的骨架"@,
                "，但这一镜没写。不写就用片段自带的默认值，结果不受你控制"@,
                params.len() as int,
            ) + match decl_of(shot) {
                Some(d) => shot_violations(set, d, known, ids.subrange(0, i), i),
                None => Seq::empty(),
            }
        },
        _ => Seq::empty(),
    }
}

pub open spec fn declarative_violations(
    set: FragmentSet,
    family: Seq<char>,
    shots: Seq<Json>,
    known: Seq<Seq<char>>,
    n: int,
) -> Seq<ViolationView>
    decreases n,
{
    if n <= 0 || n > shots.len() {
        Seq::empty()
    } else {
        declarative_violations(set, family, shots, known, n - 1) + declarative_shot(
            set,
            family,
            shots[n - 1],
            n - 1,
            shot_ids(shots, shots.len() as int),
            known,
        )
    }
}

/// The prompt pack's shots, when they are an array.
pub open spec fn pack_shots(o: Outputs) -> Option<Seq<Json>> {
    match o.field("prompt_pack"@) {
        Some(p) => match p.field("shots"@) {
            Some(s) => s.items(),
            None => None,
        },
        None => None,
    }
}

/// The pack's `core_model_family`, or the empty string.
pub open spec fn pack_family(o: Outputs) -> Seq<char> {
    match o.field("prompt_pack"@) {
        Some(p) => match p.field("core_model_family"@) {
            Some(f) => match f.str_of() {
                Some(s) => s,
                None => Seq::empty(),
            },
            None => Seq::empty(),
        },
        None => Seq::empty(),
    }
}

/// What reconciling the pack finds; nothing to say when its shots are not
/// an array (the schema check reports that).
pub open spec fn pack_violations(cs: CapabilitySet, o: Outputs, known: Seq<Seq<char>>) -> Seq<
    ViolationView,
> {
    match pack_shots(o) {
        Some(shots) => match find_key(cs.libraries(), pack_family(o)) {
            Some(set) => declarative_violations(set, pack_family(o), shots, known, shots.len() as int),
            None => whole_graph_violations(cs, shots, shots.len() as int),
        },
        None => Seq::empty(),
    }
}

/// Every declaration of a fragment-family pack can be checked within `i64`.
pub open spec fn pack_in_range_spec(cs: CapabilitySet, o: Outputs) -> bool {
    match pack_shots(o) {
        Some(shots) => match find_key(cs.libraries(), pack_family(o)) {
            Some(set) => forall|i: int|
                0 <= i < shots.len() ==> (#[trigger] decl_of(shots[i]) matches Some(d) ==> shot_in_range(
                    set,
                    d,
                )),
            None => true,
        },
        None => true,
    }
}

fn shot_path_exec(index: usize, field: &str) -> (r: String)
    ensures
        r@ == shot_path(index as int, field@),
{
    let mut s = String::from_str("prompt_pack.shots[");
    push_u64(&mut s, index as u64);
    s.append("].");
    s.append(field);
    s
}

fn push_violation(out: &mut Vec<Violation>, path: String, message: String)
    ensures
        violation_views(final(out)@) == violation_views(old(out)@).push((path@, message@)),
{
    out.push(Violation::new(path, message));
    assert(violation_views(out@) =~= violation_views(old(out)@).push((path@, message@)));
}

fn has_exec(e: &Vec<(String, Json)>, k: &str) -> (r: bool)
    ensures
        r == has(e@, k@),
{
    let mut i: usize = 0;
    while i < e.len()
        invariant
            i <= e@.len(),
            forall|j: int| 0 <= j < i ==> e@[j].0@ != k@,
        decreases e.len() - i,
    {
        if str_eq(e[i].0.as_str(), k) {
            proof {
                crate::json::lemma_lookup_first(e@, k@, i as int);
            }
            return true;
        }
        i = i + 1;
    }
    proof {
        crate::json::lemma_lookup_absent(e@, k@);
    }
    false
}

fn check_declarative_fields(
    e: &Vec<(String, Json)>,
    i: usize,
    name: &str,
    families: &Vec<String>,
    out: &mut Vec<Violation>,
)
    ensures
        violation_views(final(out)@) == violation_views(old(out)@) + declarative_hits(
            e@,
            i as int,
            name@,
            views_of(families@),
            DECLARATIVE_FIELDS@.len() as int,
        ),
{
    let ghost start = violation_views(out@);
    let mut k: usize = 0;
    while k < DECLARATIVE_FIELDS.len()
        invariant
            k <= DECLARATIVE_FIELDS@.len(),
            violation_views(out@) == start + declarative_hits(
                e@,
                i as int,
                name@,
                views_of(families@),
                k as int,
            ),
        decreases DECLARATIVE_FIELDS.len() - k,
    {
        let f = DECLARATIVE_FIELDS[k];
        if has_exec(e, f) {
            push_violation(out, shot_path_exec(i, f), declarative_on_whole_graph(f, name, families));
        }
        k = k + 1;
        assert(violation_views(out@) =~= start + declarative_hits(
            e@,
            i as int,
            name@,
            views_of(families@),
            k as int,
        ));
    }
}

fn check_dropped(
    e: &Vec<(String, Json)>,
    i: usize,
    takes: &Vec<String>,
    name: &str,
    out: &mut Vec<Violation>,
)
    ensures
        violation_views(final(out)@) == violation_views(old(out)@) + dropped_params(
            e@,
            i as int,
            views_of(takes@),
            name@,
            INJECTABLE_PARAMS@.len() as int,
        ),
{
    let ghost start = violation_views(out@);
    let mut k: usize = 0;
    while k < INJECTABLE_PARAMS.len()
        invariant
            k <= INJECTABLE_PARAMS@.len(),
            violation_views(out@) == start + dropped_params(
                e@,
                i as int,
                views_of(takes@),
                name@,
                k as int,
            ),
        decreases INJECTABLE_PARAMS.len() - k,
    {
        let p = INJECTABLE_PARAMS[k];
        if has_exec(e, p) && !contains_text(takes, p) {
            push_violation(out, shot_path_exec(i, p), dropped_hint(p, name));
        }
        k = k + 1;
        assert(violation_views(out@) =~= start + dropped_params(
            e@,
            i as int,
            views_of(takes@),
            name@,
            k as int,
        ));
    }
}

fn check_missing(
    e: &Vec<(String, Json)>,
    i: usize,
    takes: &Vec<String>,
    head: &str,
    tail: &str,
    out: &mut Vec<Violation>,
)
    ensures
        violation_views(final(out)@) == violation_views(old(out)@) + missing_params(
            e@,
            i as int,
            views_of(takes@),
            head@,
            tail@,
            takes@.len() as int,
        ),
{
    let ghost start = violation_views(out@);
    let mut k: usize = 0;
    while k < takes.len()
        invariant
            k <= takes@.len(),
            violation_views(out@) == start + missing_params(
                e@,
                i as int,
                views_of(takes@),
                head@,
                tail@,
                k as int,
            ),
        decreases takes.len() - k,
    {
        let p = takes[k].as_str();
        if !has_exec(e, p) {
            let mut msg = String::from_str(head);
            msg.append(" 接受 ");
            msg.append(p);
            msg.append(tail);
            push_violation(out, shot_path_exec(i, p), msg);
        }
        k = k + 1;
        assert(violation_views(out@) =~= start + missing_params(
            e@,
            i as int,
            views_of(takes@),
            head@,
            tail@,
            k as int,
        ));
    }
}

fn reason_exec(r: &Option<String>) -> (t: String)
    ensures
        t@ == reason_text(*r),
{
    match r {
        Some(x) => x.clone(),
        None => String::from_str("原因未记录"),
    }
}

impl CapabilitySet {
    fn check_whole_graph_shot(&self, shot: &Json, i: usize, out: &mut Vec<Violation>)
        ensures
            violation_views(final(out)@) == violation_views(old(out)@) + whole_graph_shot(
                *self,
                *shot,
                i as int,
            ),
    {
        let ghost start = violation_views(out@);
        let name = match shot.get("workflow") {
            Some(w) => match w.as_str() {
                Some(n) => n,
                None => {
                    assert(violation_views(out@) =~= start + whole_graph_shot(*self, *shot, i as int));
                    return ;
                },
            },
            None => {
                assert(violation_views(out@) =~= start + whole_graph_shot(*self, *shot, i as int));
                return ;
            },
        };
        let cap = match self.get(name) {
            Some(c) => c,
            None => {
                let available = self.verified_names();
                let mut msg = String::from_str("没有名为 ");
                msg.append(name);
                msg.append(" 的基线。可用的是：");
                if available.len() == 0 {
                    msg.append("（这台机器上一条都没有）");
                } else {
                    let joined = join(&available, "、");
                    msg.append(joined.as_str());
                }
                push_violation(out, shot_path_exec(i, "workflow"), msg);
                assert(violation_views(out@) =~= start + whole_graph_shot(*self, *shot, i as int));
                return ;
            },
        };
        if !cap.verified {
            let mut msg = String::from_str("基线 ");
            msg.append(name);
            msg.append(" 尚未真机核验（");
            let reason = reason_exec(&cap.unavailable_reason);
            msg.append(reason.as_str());
            msg.append(
                "），不能用来渲染——绑错节点会静默产出错的画面，比直接报错难查得多。换一条已核验的基线：",
            );
            let names = self.verified_names();
            let joined = join(&names, "、");
            msg.append(joined.as_str());
            push_violation(out, shot_path_exec(i, "workflow"), msg);
            assert(violation_views(out@) =~= start + whole_graph_shot(*self, *shot, i as int));
            return ;
        }
        let e = match shot {
            Json::Object(e) => e,
            _ => {
                assert(violation_views(out@) =~= start + whole_graph_shot(*self, *shot, i as int));
                return ;
            },
        };
        let families = self.fragment_families();
        check_declarative_fields(e, i, name, &families, out);
        check_dropped(e, i, &cap.params, name, out);
        let mut head = String::from_str("基线 ");
        head.append(name);
        check_missing(
            e,
            i,
            &cap.params,
            head.as_str(),
            "，但这一镜没写。不写就用基线自带的默认值，结果不受你控制",
            out,
        );
        assert(violation_views(out@) =~= start + whole_graph_shot(*self, *shot, i as int));
    }

    /// Whole-graph baselines: each shot names one verified graph in `workflow`.
    fn check_whole_graph(&self, shots: &Vec<Json>) -> (r: Vec<Violation>)
        ensures
            violation_views(r@) == whole_graph_violations(*self, shots@, shots@.len() as int),
    {
        let mut out: Vec<Violation> = Vec::new();
        let mut i: usize = 0;
        while i < shots.len()
            invariant
                i <= shots@.len(),
                violation_views(out@) == whole_graph_violations(*self, shots@, i as int),
            decreases shots.len() - i,
        {
            self.check_whole_graph_shot(&shots[i], i, &mut out);
            i = i + 1;
            assert(violation_views(out@) =~= whole_graph_violations(*self, shots@, i as int));
        }
        out
    }
}

proof fn lemma_shot_ids_len(shots: Seq<Json>, n: int)
    requires
        0 <= n <= shots.len(),
    ensures
        shot_ids(shots, n).len() == n,
    decreases n,
{
    if n > 0 {
        lemma_shot_ids_len(shots, n - 1);
    }
}

fn shot_ids_exec(shots: &Vec<Json>) -> (r: Vec<String>)
    ensures
        views_of(r@) == shot_ids(shots@, shots@.len() as int),
{
    let mut out: Vec<String> = Vec::new();
    let mut i: usize = 0;
    while i < shots.len()
        invariant
            i <= shots@.len(),
            views_of(out@) == shot_ids(shots@, i as int),
        decreases shots.len() - i,
    {
        let ghost prev = views_of(out@);
        let id = match shots[i].get("shot_id") {
            Some(x) => match x.as_str() {
                Some(s) => String::from_str(s),
                None => String::new(),
            },
            None => String::new(),
        };
        out.push(id);
        assert(views_of(out@) =~= shot_ids(shots@, i + 1));
        i = i + 1;
    }
    out
}

fn check_declarative_shot(
    set: &FragmentSet,
    family: &str,
    params: &Vec<String>,
    shot: &Json,
    i: usize,
    ids: &Vec<String>,
    known: &[String],
    out: &mut Vec<Violation>,
)
    requires
        views_of(params@) == dedup(sorted_texts(param_keys(*set))),
        i <= ids@.len(),
        decl_of(*shot) matches Some(d) ==> shot_in_range(*set, d),
    ensures
        violation_views(final(out)@) == violation_views(old(out)@) + declarative_shot(
            *set,
            family@,
            *shot,
            i as int,
            views_of(ids@),
            views_of(known@),
        ),
{
    let ghost start = violation_views(out@);
    let e = match shot {
        Json::Object(e) => e,
        _ => {
            assert(violation_views(out@) =~= start + declarative_shot(
                *set,
                family@,
                *shot,
                i as int,
                views_of(ids@),
                views_of(known@),
            ));
            return ;
        },
    };
    if has_exec(e, "workflow") {
        let mut msg = String::from_str(family);
        msg.append(" 的图在渲染时按声明现场组装，没有整图基线可选——写 workflow 不会有任何效果。删掉它，改用 head（");
        let heads = set.verified_heads();
        let joined = join(&heads, "、");
        msg.append(joined.as_str());
        msg.append("）配 references / guides 描述这一镜要什么。");
        push_violation(out, shot_path_exec(i, "workflow"), msg);
        assert(violation_views(out@) =~= start + declarative_shot(
            *set,
            family@,
            *shot,
            i as int,
            views_of(ids@),
            views_of(known@),
        ));
        return ;
    }
    check_dropped(e, i, params, family, out);
    let mut head = String::from_str(family);
    head.append(" 的骨架");
    check_missing(
        e,
        i,
        params,
        head.as_str(),
        "，但这一镜没写。不写就用片段自带的默认值，结果不受你控制",
        out,
    );
    let ghost mid = violation_views(out@);
    match ShotDeclaration::from_json(shot) {
        Some(decl) => {
            let prior = vstd::slice::slice_subrange(ids.as_slice(), 0, i);
            assert(views_of(prior@) =~= views_of(ids@).subrange(0, i as int));
            let found = validate_shot(set, &decl, known, prior, i);
            let ghost before = violation_views(out@);
            let mut found = found;
            out.append(&mut found);
            assert(violation_views(out@) =~= before + shot_violations(
                *set,
                decl@,
                views_of(known@),
                views_of(prior@),
                i as int,
            ));
        },
        None => {},
    }
    assert(violation_views(out@) =~= start + declarative_shot(
        *set,
        family@,
        *shot,
        i as int,
        views_of(ids@),
        views_of(known@),
    ));
}

/// Fragment families: each shot declares a head with references and guides,
/// reconciled against the bindings of the backbone and the heads.
fn check_declarative(set: &FragmentSet, family: &str, shots: &Vec<Json>, known: &[String]) -> (r: Vec<
    Violation,
>)
    requires
        forall|i: int|
            0 <= i < shots@.len() ==> (#[trigger] decl_of(shots@[i]) matches Some(d) ==> shot_in_range(
                *set,
                d,
            )),
    ensures
        violation_views(r@) == declarative_violations(
            *set,
            family@,
            shots@,
            views_of(known@),
            shots@.len() as int,
        ),
{
    let params = set.shot_params();
    let ids = shot_ids_exec(shots);
    proof {
        lemma_shot_ids_len(shots@, shots@.len() as int);
    }
    let mut out: Vec<Violation> = Vec::new();
    let mut i: usize = 0;
    while i < shots.len()
        invariant
            i <= shots@.len(),
            ids@.len() == shots@.len(),
            views_of(params@) == dedup(sorted_texts(param_keys(*set))),
            views_of(ids@) == shot_ids(shots@, shots@.len() as int),
            forall|i: int|
                0 <= i < shots@.len() ==> (#[trigger] decl_of(shots@[i]) matches Some(d)
                    ==> shot_in_range(*set, d)),
            violation_views(out@) == declarative_violations(
                *set,
                family@,
                shots@,
                views_of(known@),
                i as int,
            ),
        decreases shots.len() - i,
    {
        assert(decl_of(shots@[i as int]) matches Some(d) ==> shot_in_range(*set, d));
        check_declarative_shot(set, family, &params, &shots[i], i, &ids, known, &mut out);
        i = i + 1;
        assert(violation_views(out@) =~= declarative_violations(
            *set,
            family@,
            shots@,
            views_of(known@),
            i as int,
        ));
    }
    out
}

fn pack_shots_exec(outputs: &Outputs) -> (r: Option<&Vec<Json>>)
    ensures
        r matches Some(s) ==> pack_shots(*outputs) == Some(s@),
        r is None ==> pack_shots(*outputs) is None,
{
    match outputs.get("prompt_pack") {
        Some(p) => match p.get("shots") {
            Some(s) => s.as_array(),
            None => None,
        },
        None => None,
    }
}

fn pack_family_exec(outputs: &Outputs) -> (r: &str)
    ensures
        r@ == pack_family(*outputs),
{
    proof {
        reveal_strlit("");
    }
    match outputs.get("prompt_pack") {
        Some(p) => match p.get("core_model_family") {
            Some(f) => match f.as_str() {
                Some(s) => s,
                None => "",
            },
            None => "",
        },
        None => "",
    }
}

/// Whether checking a declaration stays within `i64`.
pub fn declaration_in_range(set: &FragmentSet, d: &ShotDeclaration) -> (r: bool)
    ensures
        r == shot_in_range(*set, d@),
{
    match crate::assembly::get_key(&set.heads, d.head.as_str()) {
        None => true,
        Some(_) => {
            let len = d.length_frames;
            let grid_ok = if crate::assembly::is_on_frame_grid(len) || len <= 5 {
                true
            } else {
                let k = (len - 5) / 17;
                assert(0 <= k * 17 <= len - 5) by (nonlinear_arith)
                    requires
                        k == (len - 5) / 17,
                        len > 5,
                ;
                let lo = 5 + k * 17;
                lo <= i64::MAX - 17
            };
            let guides_ok = d.guides.len() == 0 || len > i64::MIN;
            grid_ok && guides_ok
        },
    }
}

impl CapabilitySet {
    /// Whether every declaration of the pack can be checked within `i64`;
    /// [`CapabilitySet::check_prompt_pack`] asks it of its caller.
    pub fn pack_in_range(&self, outputs: &Outputs) -> (r: bool)
        ensures
            r == pack_in_range_spec(*self, *outputs),
    {
        let shots = match pack_shots_exec(outputs) {
            Some(s) => s,
            None => return true,
        };
        let family = pack_family_exec(outputs);
        let set = match self.fragments_for(family) {
            Some(s) => s,
            None => return true,
        };
        let mut i: usize = 0;
        while i < shots.len()
            invariant
                i <= shots@.len(),
                pack_shots(*outputs) == Some(shots@),
                find_key(self.libraries(), pack_family(*outputs)) == Some(*set),
                forall|j: int|
                    0 <= j < i ==> (#[trigger] decl_of(shots@[j]) matches Some(d) ==> shot_in_range(
                        *set,
                        d,
                    )),
            decreases shots.len() - i,
        {
            match ShotDeclaration::from_json(&shots[i]) {
                Some(d) => {
                    if !declaration_in_range(set, &d) {
                        assert(decl_of(shots@[i as int]) == Some(d@));
                        assert(!(decl_of(shots@[i as int]) matches Some(dd) ==> shot_in_range(*set, dd)));
                        return false;
                    }
                },
                None => {},
            }
            i = i + 1;
        }
        true
    }

    /// Reconciles a prompt pack with this machine, both ways, dispatching on
    /// the pack's `core_model_family`: written but not taken is dropped in
    /// silence, taken but not written falls back to the baseline's default.
    ///
    /// `known_assets` are the artifacts `visual_assets` registered (empty:
    /// that check is skipped).
    pub fn check_prompt_pack(&self, outputs: &Outputs, known_assets: &[String]) -> (r: Result<
        (),
        StudioError,
    >)
        requires
            pack_in_range_spec(*self, *outputs),
        ensures
            r is Ok <==> pack_violations(*self, *outputs, views_of(known_assets@)).len() == 0,
            r matches Err(e) ==> (e matches StudioError::SchemaViolation { stage: s, violations }
                && s == StageId::PromptPack && violation_views(violations@) == pack_violations(
                *self,
                *outputs,
                views_of(known_assets@),
            )),
    {
        let shots = match pack_shots_exec(outputs) {
            Some(s) => s,
            None => return Ok(()),
        };
        let family = pack_family_exec(outputs);
        let violations = match self.fragments_for(family) {
            Some(set) => check_declarative(set, family, shots, known_assets),
            None => self.check_whole_graph(shots),
        };
        if violations.len() == 0 {
            Ok(())
        } else {
            Err(StudioError::SchemaViolation { stage: StageId::PromptPack, violations })
        }
    }
}

// ---------------------------------------------------------------------------
// Narrowing the prompt-pack schema document to this machine.

/// Where the properties of one prompt-pack shot sit in the schema document.
pub const SHOT_PROPERTIES_PATH: [&'static str; 6] = [
    "properties",
    "prompt_pack",
    "properties",
    "shots",
    "items",
    "properties",
];

pub type EntriesView = Seq<(Seq<char>, JsonView)>;

/// The position of the first entry under `k`.
pub open spec fn key_index(p: EntriesView, k: Seq<char>) -> Option<int>
    decreases p.len(),
{
    if p.len() == 0 {
        None
    } else if p[0].0 == k {
        Some(0)
    } else {
        match key_index(p.drop_first(), k) {
            Some(i) => Some(i + 1),
            None => None,
        }
    }
}

proof fn lemma_key_index(p: EntriesView, k: Seq<char>, i: int)
    requires
        0 <= i <= p.len(),
        forall|j: int| 0 <= j < i ==> (#[trigger] p[j]).0 != k,
    ensures
        i < p.len() && p[i].0 == k ==> key_index(p, k) == Some(i),
        i == p.len() ==> key_index(p, k) is None,
    decreases i,
{
    if i > 0 {
        assert forall|j: int| 0 <= j < i - 1 implies (#[trigger] p.drop_first()[j]).0 != k by {
            assert(p.drop_first()[j] == p[j + 1]);
        }
        lemma_key_index(p.drop_first(), k, i - 1);
    }
}

proof fn lemma_key_index_bound(p: EntriesView, k: Seq<char>)
    ensures
        key_index(p, k) matches Some(i) ==> 0 <= i < p.len() && p[i].0 == k,
    decreases p.len(),
{
    if p.len() > 0 && p[0].0 != k {
        lemma_key_index_bound(p.drop_first(), k);
    }
}

/// `map.insert(k, v)`: the first entry under `k` takes `v`, or the entry is added.
pub open spec fn set_entry(p: EntriesView, k: Seq<char>, v: JsonView) -> EntriesView {
    match key_index(p, k) {
        Some(i) => p.update(i, (k, v)),
        None => p.push((k, v)),
    }
}

/// The first `n` entries whose key is not `k`.
pub open spec fn drop_view(p: EntriesView, k: Seq<char>, n: int) -> EntriesView
    decreases n,
{
    if n <= 0 || n > p.len() {
        Seq::empty()
    } else {
        let rest = drop_view(p, k, n - 1);
        if p[n - 1].0 == k {
            rest
        } else {
            rest.push(p[n - 1])
        }
    }
}

pub open spec fn drop_key(p: EntriesView, k: Seq<char>) -> EntriesView {
    drop_view(p, k, p.len() as int)
}

/// The declarative fields dropped, in their order.
pub open spec fn drop_declarative(p: EntriesView) -> EntriesView {
    drop_key(
        drop_key(
            drop_key(drop_key(drop_key(p, "head"@), "references"@), "guides"@),
            "first_frame"@,
        ),
        "last_frame"@,
    )
}

pub open spec fn texts_view(v: Seq<Seq<char>>) -> JsonView {
    JsonView::Array(v.map_values(|t: Seq<char>| JsonView::Str(t)))
}

pub open spec fn head_description(heads: Seq<Seq<char>>) -> Seq<char> {
    "这一镜用哪种生成方式。这台机器上可用的就是这几个："@ + join_seq(heads, "、"@)
        + "。reference 挂参考锁身份与风格，起幅由模型定；image 给首尾帧，锁构图与运动轨迹。图在渲染时按这份声明现场组装，没有 workflow 字段可选"@
}

pub open spec fn workflow_description() -> Seq<char> {
    "使用的已验证 workflow 名。这台机器上可用的就是这几条，未核验的基线不在其中。每条吃的参数不同——写了它不吃的参数会被静默丢弃，提交时会被挡下；写之前先看这个系列的能力卡"@
}

/// The field `k` (an object) given an `enum` and a `description`; left as it is otherwise.
pub open spec fn with_enum(p: EntriesView, k: Seq<char>, values: Seq<Seq<char>>, desc: Seq<char>) -> EntriesView {
    match key_index(p, k) {
        Some(i) => match p[i].1 {
            JsonView::Object(f) => p.update(
                i,
                (
                    p[i].0,
                    JsonView::Object(
                        set_entry(set_entry(f, "enum"@, texts_view(values)), "description"@, JsonView::Str(desc)),
                    ),
                ),
            ),
            _ => p,
        },
        None => p,
    }
}

/// The fragment library of a named family, if the family is one.
pub open spec fn family_library(cs: CapabilitySet, family: Option<Seq<char>>) -> Option<FragmentSet> {
    match family {
        Some(f) => find_key(cs.libraries(), f),
        None => None,
    }
}

/// The shot properties after narrowing: one shape per family.
pub open spec fn narrow_props(cs: CapabilitySet, family: Option<Seq<char>>, p: EntriesView) -> EntriesView {
    match family_library(cs, family) {
        Some(set) => {
            let heads = verified_heads_of(set);
            with_enum(
                drop_key(drop_key(p, "workflow"@), "duration_seconds"@),
                "head"@,
                heads,
                head_description(heads),
            )
        },
        None => {
            let q = if family is Some || cs.libraries().len() > 0 {
                drop_declarative(p)
            } else {
                p
            };
            let names = match family {
                Some(f) => sorted_texts(
                    verified_with_prefix(cs.workflows_of(), f + "/"@, cs.workflows_of().len() as int),
                ),
                None => cs.verified_names_of(),
            };
            if names.len() == 0 {
                q
            } else {
                with_enum(q, "workflow"@, names, workflow_description())
            }
        },
    }
}

/// A document with the object at `path` narrowed by `f`; unchanged where
/// the path does not lead to an object.
pub open spec fn update_at(v: JsonView, path: Seq<Seq<char>>, cs: CapabilitySet, family: Option<Seq<char>>) -> JsonView
    decreases path.len(),
{
    match v {
        JsonView::Object(p) => if path.len() == 0 {
            JsonView::Object(narrow_props(cs, family, p))
        } else {
            match key_index(p, path[0]) {
                Some(i) => JsonView::Object(
                    p.update(i, (p[i].0, update_at(p[i].1, path.drop_first(), cs, family))),
                ),
                None => v,
            }
        },
        _ => v,
    }
}

fn find_entry(e: &Vec<(String, Json)>, k: &str) -> (r: Option<usize>)
    ensures
        r matches Some(i) ==> key_index(entry_models(e@), k@) == Some(i as int) && i < e@.len(),
        r is None ==> key_index(entry_models(e@), k@) is None,
{
    proof {
        lemma_entries_model(e@, e@.len() as int);
    }
    let ghost m = entry_models(e@);
    let mut i: usize = 0;
    while i < e.len()
        invariant
            i <= e@.len(),
            m == entry_models(e@),
            m.len() == e@.len(),
            forall|k: int| 0 <= k < e@.len() ==> #[trigger] m[k] == (e@[k].0@, e@[k].1.model()),
            forall|j: int| 0 <= j < i ==> (#[trigger] m[j]).0 != k@,
        decreases e.len() - i,
    {
        if str_eq(e[i].0.as_str(), k) {
            proof {
                lemma_key_index(m, k@, i as int);
            }
            return Some(i);
        }
        assert(m[i as int].0 != k@);
        i = i + 1;
    }
    proof {
        lemma_key_index(m, k@, i as int);
    }
    None
}

fn set_entry_exec(e: &mut Vec<(String, Json)>, k: &str, v: Json)
    ensures
        entry_models(final(e)@) == set_entry(entry_models(old(e)@), k@, v.model()),
{
    let ghost before = e@;
    let ghost vm = v.model();
    proof {
        lemma_entries_model(before, before.len() as int);
    }
    match find_entry(e, k) {
        Some(i) => {
            e.set(i, (String::from_str(k), v));
            proof {
                lemma_entries_model(e@, e@.len() as int);
                assert(entry_models(e@) =~= entry_models(before).update(i as int, (k@, vm)));
            }
        },
        None => {
            e.push((String::from_str(k), v));
            proof {
                lemma_entries_model(e@, e@.len() as int);
                assert(entry_models(e@) =~= entry_models(before).push((k@, vm)));
            }
        },
    }
}

fn drop_entries(e: Vec<(String, Json)>, k: &str) -> (r: Vec<(String, Json)>)
    ensures
        entry_models(r@) == drop_key(entry_models(e@), k@),
{
    let ghost orig = e@;
    let ghost om = entry_models(orig);
    proof {
        lemma_entries_model(orig, orig.len() as int);
    }
    let n = e.len();
    let mut e = e;
    let mut out: Vec<(String, Json)> = Vec::new();
    let mut i: usize = 0;
    while e.len() > 0
        invariant
            n == orig.len(),
            i <= orig.len(),
            om == entry_models(orig),
            om.len() == orig.len(),
            forall|j: int| 0 <= j < orig.len() ==> #[trigger] om[j] == (orig[j].0@, orig[j].1.model()),
            e@ == orig.subrange(i as int, orig.len() as int),
            entry_models(out@) == drop_view(om, k@, i as int),
        decreases e.len(),
    {
        let x = e.remove(0);
        assert(x == orig[i as int]);
        if !str_eq(x.0.as_str(), k) {
            let ghost prev = out@;
            out.push(x);
            proof {
                lemma_entries_model(prev, prev.len() as int);
                lemma_entries_model(out@, out@.len() as int);
                assert(entry_models(out@) =~= entry_models(prev).push(om[i as int]));
            }
        }
        i = i + 1;
        assert(e@ =~= orig.subrange(i as int, orig.len() as int));
    }
    out
}

fn texts_json(v: &Vec<String>) -> (r: Json)
    ensures
        r.model() == texts_view(views_of(v@)),
{
    let mut a: Vec<Json> = Vec::new();
    let mut i: usize = 0;
    while i < v.len()
        invariant
            i <= v@.len(),
            a@.len() == i,
            forall|k: int| 0 <= k < i ==> #[trigger] a@[k] == Json::Str(v@[k]),
        decreases v.len() - i,
    {
        a.push(Json::Str(v[i].clone()));
        i = i + 1;
    }
    proof {
        lemma_items_model(a@, a@.len() as int);
        assert(items_model(a@, a@.len() as int) =~= views_of(v@).map_values(
            |t: Seq<char>| JsonView::Str(t),
        ));
    }
    Json::Array(a)
}

proof fn lemma_entries_replace(p: Seq<(String, Json)>, i: int, x: (String, Json))
    requires
        0 <= i < p.len(),
    ensures
        entry_models(p.remove(i).insert(i, x)) == entry_models(p).update(i, (x.0@, x.1.model())),
{
    let q = p.remove(i).insert(i, x);
    assert(q =~= p.update(i, x));
    lemma_entries_model(p, p.len() as int);
    lemma_entries_model(q, q.len() as int);
    assert(entry_models(q) =~= entry_models(p).update(i, (x.0@, x.1.model())));
}

fn with_enum_exec(p: Vec<(String, Json)>, k: &str, values: &Vec<String>, desc: String) -> (r: Vec<
    (String, Json),
>)
    ensures
        entry_models(r@) == with_enum(entry_models(p@), k@, views_of(values@), desc@),
{
    let ghost pm = entry_models(p@);
    proof {
        lemma_entries_model(p@, p@.len() as int);
    }
    let mut p = p;
    match find_entry(&p, k) {
        Some(i) => {
            let ghost before = p@;
            let (key, val) = p.remove(i);
            match val {
                Json::Object(f) => {
                    let mut f = f;
                    let ghost fm = entry_models(f@);
                    set_entry_exec(&mut f, "enum", texts_json(values));
                    set_entry_exec(&mut f, "description", Json::Str(desc));
                    let x = (key, Json::Object(f));
                    let ghost xv = x;
                    p.insert(i, x);
                    proof {
                        lemma_entries_replace(before, i as int, xv);
                        assert(pm[i as int].1 == JsonView::Object(fm));
                    }
                },
                other => {
                    let x = (key, other);
                    let ghost xv = x;
                    p.insert(i, x);
                    proof {
                        lemma_entries_replace(before, i as int, xv);
                        assert(entry_models(p@) =~= pm);
                    }
                },
            }
            p
        },
        None => p,
    }
}

pub open spec fn opt_family(family: Option<&str>) -> Option<Seq<char>> {
    match family {
        Some(f) => Some(f@),
        None => None,
    }
}

/// The keys of the path to the shot properties.
pub open spec fn path_keys() -> Seq<Seq<char>> {
    SHOT_PROPERTIES_PATH@.map_values(|s: &'static str| s@)
}

impl CapabilitySet {
    fn narrow_props_exec(&self, p: Vec<(String, Json)>, family: Option<&str>) -> (r: Vec<(String, Json)>)
        ensures
            entry_models(r@) == narrow_props(*self, opt_family(family), entry_models(p@)),
    {
        let set = match family {
            Some(f) => self.fragments_for(f),
            None => None,
        };
        match set {
            Some(set) => {
                let q = drop_entries(drop_entries(p, "workflow"), "duration_seconds");
                let heads = set.verified_heads();
                let mut desc = String::from_str("这一镜用哪种生成方式。这台机器上可用的就是这几个：");
                let joined = join(&heads, "、");
                desc.append(joined.as_str());
                desc.append(
                    "。reference 挂参考锁身份与风格，起幅由模型定；image 给首尾帧，锁构图与运动轨迹。图在渲染时按这份声明现场组装，没有 workflow 字段可选",
                );
                with_enum_exec(q, "head", &heads, desc)
            },
            None => {
                let q = if family.is_some() || self.fragments.len() > 0 {
                    drop_entries(
                        drop_entries(
                            drop_entries(drop_entries(drop_entries(p, "head"), "references"), "guides"),
                            "first_frame",
                        ),
                        "last_frame",
                    )
                } else {
                    p
                };
                let names = match family {
                    Some(f) => self.family_names(f),
                    None => self.verified_names(),
                };
                if names.len() == 0 {
                    return q;
                }
                with_enum_exec(
                    q,
                    "workflow",
                    &names,
                    String::from_str(
                        "使用的已验证 workflow 名。这台机器上可用的就是这几条，未核验的基线不在其中。每条吃的参数不同——写了它不吃的参数会被静默丢弃，提交时会被挡下；写之前先看这个系列的能力卡",
                    ),
                )
            },
        }
    }

    fn narrow_owned(&self, v: Json, depth: usize, family: Option<&str>) -> (r: Json)
        requires
            depth <= 6,
        ensures
            r.model() == update_at(
                v.model(),
                path_keys().subrange(depth as int, 6),
                *self,
                opt_family(family),
            ),
        decreases 6 - depth,
    {
        let ghost path = path_keys().subrange(depth as int, 6);
        match v {
            Json::Object(e) => {
                if depth == 6 {
                    assert(path.len() == 0);
                    return Json::Object(self.narrow_props_exec(e, family));
                }
                assert(path[0] == SHOT_PROPERTIES_PATH@[depth as int]@);
                assert(path.drop_first() =~= path_keys().subrange(depth + 1, 6));
                let mut e = e;
                match find_entry(&e, SHOT_PROPERTIES_PATH[depth]) {
                    Some(i) => {
                        let ghost before = e@;
                        proof {
                            lemma_entries_model(before, before.len() as int);
                        }
                        let (k, child) = e.remove(i);
                        let nc = self.narrow_owned(child, depth + 1, family);
                        let x = (k, nc);
                        let ghost xv = x;
                        e.insert(i, x);
                        proof {
                            lemma_entries_replace(before, i as int, xv);
                        }
                        Json::Object(e)
                    },
                    None => Json::Object(e),
                }
            },
            other => other,
        }
    }

    /// Narrows the prompt-pack schema document to what this machine can run.
    ///
    /// With the family decided upstream, only that family's shape is kept:
    /// a fragment family loses `workflow` (and `duration_seconds`) and gets
    /// its verified heads; a whole-graph family loses the declarative fields
    /// and gets its verified baselines. Without a family both shapes stay,
    /// each narrowed. With nothing to offer, the document is left alone.
    pub fn narrow_schema(&self, doc: &mut Json, family: Option<&str>)
        ensures
            final(doc).model() == update_at(old(doc).model(), path_keys(), *self, opt_family(family)),
    {
        let mut taken = Json::Null;
        std::mem::swap(&mut taken, doc);
        let r = self.narrow_owned(taken, 0, family);
        assert(path_keys().subrange(0, 6) =~= path_keys());
        *doc = r;
    }
}

} // verus!
