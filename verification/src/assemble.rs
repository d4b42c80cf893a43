//! Assembling a node graph from a shot declaration and a fragment library.
//!
//! The declaration says what a shot needs; the fragments say how the pieces
//! are wired. The assembler splices the fragments' nodes into one graph,
//! renames them by role and position, and writes the shot's values into the
//! places the fragments name. Node ids carry no random part and no time
//! stamp: the same declaration assembled twice gives the same graph.
use vstd::prelude::*;
use crate::assembly::{
    find_key, first_dot, first_dot_exec, get_key, kind_count, opt_text, split_target, target_parts,
    verified_heads_of,
    AutogrowSlot, DeclView, Fragment, FragmentSet, GuideKind, GuideView, Medium, RefView,
    ShotDeclaration,
};
use crate::error::{StudioError, Violation};
use crate::json::{
    entries_model, entry_models, items_model, lemma_entries_model, lemma_items_model, Json, JsonView,
    Number,
};
use crate::stage::StageId;
use crate::text::{chars_of, dec_nat, join, join_seq, push_u64, str_eq, views_of};

verus! {

broadcast use vstd::string::group_string_axioms;

/// The entries of an object as mathematical values.
pub type Entries = Seq<(Seq<char>, JsonView)>;

/// The index of the first entry under `k`.
pub open spec fn vfind(e: Entries, k: Seq<char>) -> Option<int>
    decreases e.len(),
{
    if e.len() == 0 {
        None
    } else if e[0].0 == k {
        Some(0)
    } else {
        match vfind(e.drop_first(), k) {
            Some(i) => Some(i + 1),
            None => None,
        }
    }
}

/// The value of the first entry under `k`.
#[verifier::opaque]
pub open spec fn vget(e: Entries, k: Seq<char>) -> Option<JsonView> {
    match vfind(e, k) {
        Some(i) => Some(e[i].1),
        None => None,
    }
}

/// Sets `k` to `v`: in place when the key is there, else at the end.
#[verifier::opaque]
pub open spec fn vput(e: Entries, k: Seq<char>, v: JsonView) -> Entries {
    match vfind(e, k) {
        Some(i) => e.update(i, (k, v)),
        None => e.push((k, v)),
    }
}

proof fn lemma_vfind_prefix(e: Entries, k: Seq<char>, i: int)
    requires
        0 <= i <= e.len(),
        forall|j: int| 0 <= j < i ==> (#[trigger] e[j]).0 != k,
    ensures
        i < e.len() && e[i].0 == k ==> vfind(e, k) == Some(i),
        i == e.len() ==> vfind(e, k) is None,
    decreases i,
{
    if i > 0 {
        assert forall|j: int| 0 <= j < i - 1 implies (#[trigger] e.drop_first()[j]).0 != k by {
            assert(e.drop_first()[j] == e[j + 1]);
        }
        lemma_vfind_prefix(e.drop_first(), k, i - 1);
        assert(e[0].0 != k);
    } else if e.len() > 0 {
        assert(e[0].0 == k ==> vfind(e, k) == Some(0int));
    }
}

proof fn lemma_vfind_bounds(e: Entries, k: Seq<char>)
    ensures
        vfind(e, k) matches Some(i) ==> 0 <= i < e.len() && e[i].0 == k,
    decreases e.len(),
{
    if e.len() > 0 && e[0].0 != k {
        lemma_vfind_bounds(e.drop_first(), k);
    }
}

/// The index of the first entry under `k`.
fn find_index(g: &Vec<(String, Json)>, k: &str) -> (r: Option<usize>)
    ensures
        r matches Some(i) ==> vfind(entry_models(g@), k@) == Some(i as int) && i < g@.len(),
        r is None ==> vfind(entry_models(g@), k@) is None,
{
    let ghost m = entry_models(g@);
    proof {
        lemma_entries_model(g@, g@.len() as int);
    }
    let mut i: usize = 0;
    while i < g.len()
        invariant
            m == entry_models(g@),
            m.len() == g@.len(),
            forall|j: int| 0 <= j < g@.len() ==> (#[trigger] m[j]).0 == g@[j].0@,
            i <= g@.len(),
            forall|j: int| 0 <= j < i ==> (#[trigger] m[j]).0 != k@,
        decreases g.len() - i,
    {
        if str_eq(g[i].0.as_str(), k) {
            proof {
                lemma_vfind_prefix(m, k@, i as int);
            }
            return Some(i);
        }
        i = i + 1;
    }
    proof {
        lemma_vfind_prefix(m, k@, i as int);
    }
    None
}

/// Sets `k` to `v` in a list of entries.
fn put(g: &mut Vec<(String, Json)>, k: String, v: Json)
    ensures
        entry_models(final(g)@) == vput(entry_models(old(g)@), k@, v.model()),
{
    proof {
        reveal(vput);
    }
    let ghost m = entry_models(g@);
    let ghost kv = k@;
    let ghost vm = v.model();
    proof {
        lemma_entries_model(g@, g@.len() as int);
        lemma_vfind_bounds(m, kv);
    }
    match find_index(g, k.as_str()) {
        Some(i) => {
            g.set(i, (k, v));
            proof {
                lemma_entries_model(g@, g@.len() as int);
                assert(entry_models(g@) =~= m.update(i as int, (kv, vm)));
            }
        },
        None => {
            g.push((k, v));
            proof {
                lemma_entries_model(g@, g@.len() as int);
                assert(entry_models(g@) =~= m.push((kv, vm)));
            }
        },
    }
}

/// A deep copy of a list of entries.
fn copy_entries(e: &Vec<(String, Json)>) -> (r: Vec<(String, Json)>)
    ensures
        entry_models(r@) == entry_models(e@),
{
    let mut out: Vec<(String, Json)> = Vec::new();
    let mut i: usize = 0;
    while i < e.len()
        invariant
            i <= e@.len(),
            out@.len() == i,
            forall|k: int|
                0 <= k < i ==> (#[trigger] out@[k]).0@ == e@[k].0@ && out@[k].1.model()
                    == e@[k].1.model(),
        decreases e.len() - i,
    {
        out.push((e[i].0.clone(), e[i].1.copy()));
        i = i + 1;
    }
    proof {
        lemma_entries_model(out@, out@.len() as int);
        lemma_entries_model(e@, e@.len() as int);
        assert(entries_model(out@, out@.len() as int) =~= entries_model(e@, e@.len() as int));
    }
    out
}


// ---------------------------------------------------------------------------
// Errors.

/// Why an assembly stops.
pub enum AsmError {
    /// The library or the declaration breaks the model contract.
    Contract(Seq<char>),
    /// An AUTOGROW slot is full: its target, and the message.
    SlotFull(Seq<char>, Seq<char>),
}

/// `e` is the error that `a` describes: `ModelContractViolation`, or a
/// schema violation of the prompt pack at the slot's target.
pub open spec fn error_is(e: StudioError, a: AsmError) -> bool {
    match a {
        AsmError::Contract(d) => e matches StudioError::ModelContractViolation { detail }
            && detail@ == d,
        AsmError::SlotFull(p, m) => e matches StudioError::SchemaViolation { stage, violations }
            && stage == StageId::PromptPack && violations@.len() == 1 && violations@[0].path@ == p
            && violations@[0].message@ == m,
    }
}

fn contract(detail: String) -> (r: StudioError)
    ensures
        error_is(r, AsmError::Contract(detail@)),
{
    StudioError::ModelContractViolation { detail }
}

// ---------------------------------------------------------------------------
// Reading and writing `<node>.inputs.<field>`.

pub open spec fn bad_path_text(path: Seq<char>) -> Seq<char> {
    "路径 "@ + path + " 应当形如 <节点id>.inputs.<输入名>"@
}

pub open spec fn no_node_text(node: Seq<char>) -> Seq<char> {
    "图里没有节点 "@ + node + " 或它没有 inputs"@
}

/// The entries of a node's `inputs`, when the node is an object whose
/// `inputs` is an object.
#[verifier::opaque]
pub open spec fn inputs_of(node: JsonView) -> Option<Entries> {
    match node {
        JsonView::Object(ne) => match vget(ne, "inputs"@) {
            Some(JsonView::Object(ie)) => Some(ie),
            _ => None,
        },
        _ => None,
    }
}

/// The node with its `inputs` replaced by `ie`.
#[verifier::opaque]
pub open spec fn with_inputs(node: JsonView, ie: Entries) -> JsonView {
    match node {
        JsonView::Object(ne) => JsonView::Object(vput(ne, "inputs"@, JsonView::Object(ie))),
        _ => node,
    }
}

/// Writes `val` to `path` of the graph `g`.
#[verifier::opaque]
pub open spec fn write_spec(g: Entries, path: Seq<char>, val: JsonView) -> Result<Entries, AsmError> {
    match target_parts(path) {
        None => Err(AsmError::Contract(bad_path_text(path))),
        Some((node, field)) => match vget(g, node) {
            Some(n) => match inputs_of(n) {
                Some(ie) => Ok(vput(g, node, with_inputs(n, vput(ie, field, val)))),
                None => Err(AsmError::Contract(no_node_text(node))),
            },
            None => Err(AsmError::Contract(no_node_text(node))),
        },
    }
}

/// Reads `path` of the graph `g`.
#[verifier::opaque]
pub open spec fn read_spec(g: Entries, path: Seq<char>) -> Option<JsonView> {
    match target_parts(path) {
        None => None,
        Some((node, field)) => match vget(g, node) {
            Some(n) => match inputs_of(n) {
                Some(ie) => vget(ie, field),
                None => None,
            },
            None => None,
        },
    }
}

fn no_node(node: &str) -> (r: StudioError)
    ensures
        error_is(r, AsmError::Contract(no_node_text(node@))),
{
    let mut d = String::from_str("图里没有节点 ");
    d.append(node);
    d.append(" 或它没有 inputs");
    contract(d)
}

/// The entries of `inputs` of an object node, by index.
fn inputs_index(node: &Json) -> (r: Option<usize>)
    ensures
        r matches Some(j) ==> node matches Json::Object(ne) && j < ne@.len() && vfind(
            entry_models(ne@),
            "inputs"@,
        ) == Some(j as int) && ne@[j as int].1 is Object,
        r is None ==> inputs_of(node.model()) is None,
{
    proof {
        reveal(inputs_of);
        reveal(vget);
    }
    match node {
        Json::Object(ne) => {
            proof {
                lemma_entries_model(ne@, ne@.len() as int);
            }
            match find_index(ne, "inputs") {
                Some(j) => match &ne[j].1 {
                    Json::Object(_) => Some(j),
                    _ => None,
                },
                None => None,
            }
        },
        _ => None,
    }
}

/// The node with `inputs.field` set to `val`.
fn with_input(node: &Json, field: String, val: Json) -> (r: Option<Json>)
    ensures
        match inputs_of(node.model()) {
            Some(ie) => r matches Some(x) && x.model() == with_inputs(
                node.model(),
                vput(ie, field@, val.model()),
            ),
            None => r is None,
        },
{
    proof {
        reveal(inputs_of);
        reveal(with_inputs);
        reveal(vput);
        reveal(vget);
    }
    match node {
        Json::Object(ne) => {
            proof {
                lemma_entries_model(ne@, ne@.len() as int);
            }
            match inputs_index(node) {
                Some(j) => match &ne[j].1 {
                    Json::Object(ie) => {
                        let mut ie2 = copy_entries(ie);
                        put(&mut ie2, field, val);
                        let mut ne2 = copy_entries(ne);
                        put(&mut ne2, String::from_str("inputs"), Json::Object(ie2));
                        Some(Json::Object(ne2))
                    },
                    _ => None,
                },
                None => None,
            }
        },
        _ => None,
    }
}

/// Writes `value` to `<node>.inputs.<field>`.
fn write_at(g: &mut Vec<(String, Json)>, path: &str, value: Json) -> (r: Result<(), StudioError>)
    ensures
        match write_spec(entry_models(old(g)@), path@, value.model()) {
            Ok(g2) => r is Ok && entry_models(final(g)@) == g2,
            Err(a) => r matches Err(e) && error_is(e, a),
        },
{
    proof {
        reveal(inputs_of);
        reveal(vget);
    }
    reveal(write_spec);
    let (node, field) = match split_target(path) {
        Ok(p) => p,
        Err(e) => {
            return Err(e);
        },
    };
    proof {
        lemma_entries_model(g@, g@.len() as int);
    }
    let i = match find_index(g, node.as_str()) {
        Some(i) => i,
        None => {
            return Err(no_node(node.as_str()));
        },
    };
    match with_input(&g[i].1, field, value) {
        Some(n2) => {
            put(g, node, n2);
            Ok(())
        },
        None => Err(no_node(node.as_str())),
    }
}

/// The entries of a node's `inputs`.
fn input_entries(node: &Json) -> (r: Option<&Vec<(String, Json)>>)
    ensures
        match inputs_of(node.model()) {
            Some(ie) => r matches Some(v) && entry_models(v@) == ie,
            None => r is None,
        },
{
    proof {
        reveal(inputs_of);
        reveal(vget);
    }
    match inputs_index(node) {
        Some(j) => match node {
            Json::Object(ne) => {
                proof {
                    lemma_entries_model(ne@, ne@.len() as int);
                }
                match &ne[j].1 {
                    Json::Object(ie) => Some(ie),
                    _ => None,
                }
            },
            _ => None,
        },
        None => None,
    }
}

/// Whether `<node>.inputs.<field>` holds a value.
fn is_filled(g: &Vec<(String, Json)>, path: &str) -> (r: bool)
    ensures
        r == read_spec(entry_models(g@), path@) is Some,
{
    proof {
        reveal(read_spec);
        reveal(vget);
        reveal(inputs_of);
    }
    let (node, field) = match split_target(path) {
        Ok(p) => p,
        Err(_) => {
            return false;
        },
    };
    proof {
        lemma_entries_model(g@, g@.len() as int);
    }
    let i = match find_index(g, node.as_str()) {
        Some(i) => i,
        None => {
            return false;
        },
    };
    match input_entries(&g[i].1) {
        Some(ie) => find_index(ie, field.as_str()).is_some(),
        None => false,
    }
}

// ---------------------------------------------------------------------------
// Splicing a fragment in.

/// The id a fragment's node gets in the graph: `{prefix}_{orig}`.
pub open spec fn new_id(prefix: Seq<char>, orig: Seq<char>) -> Seq<char> {
    prefix + "_"@ + orig
}

pub open spec fn is_node_of(frag: Fragment, s: Seq<char>) -> bool {
    find_key(frag.nodes@, s) is Some
}

/// A wire `[node, port]` whose node is one of the fragment's, renamed;
/// anything else unchanged.
#[verifier::opaque]
pub open spec fn rename_ref(prefix: Seq<char>, frag: Fragment, v: JsonView) -> JsonView {
    match v {
        JsonView::Array(a) => if a.len() > 0 && a[0] is Str && is_node_of(frag, a[0]->Str_0) {
            JsonView::Array(a.update(0, JsonView::Str(new_id(prefix, a[0]->Str_0))))
        } else {
            v
        },
        _ => v,
    }
}

pub open spec fn rename_refs(prefix: Seq<char>, frag: Fragment, ie: Entries) -> Entries {
    ie.map_values(|e: (Seq<char>, JsonView)| (e.0, rename_ref(prefix, frag, e.1)))
}

/// A node with the wires among its inputs renamed.
#[verifier::opaque]
pub open spec fn rename_node(prefix: Seq<char>, frag: Fragment, node: JsonView) -> JsonView {
    match inputs_of(node) {
        Some(ie) => with_inputs(node, rename_refs(prefix, frag, ie)),
        None => node,
    }
}

/// The graph with the first `n` nodes of the fragment spliced in.
pub open spec fn splice_spec(g: Entries, frag: Fragment, prefix: Seq<char>, n: int) -> Entries
    decreases n,
{
    if n <= 0 || n > frag.nodes@.len() {
        g
    } else {
        vput(
            splice_spec(g, frag, prefix, n - 1),
            new_id(prefix, frag.nodes@[n - 1].0@),
            rename_node(prefix, frag, frag.nodes@[n - 1].1.model()),
        )
    }
}

pub open spec fn spliced(g: Entries, frag: Fragment, prefix: Seq<char>) -> Entries {
    splice_spec(g, frag, prefix, frag.nodes@.len() as int)
}

fn new_id_exec(prefix: &str, orig: &str) -> (r: String)
    ensures
        r@ == new_id(prefix@, orig@),
{
    let mut s = String::from_str(prefix);
    s.append("_");
    s.append(orig);
    s
}

fn rename_ref_exec(prefix: &str, frag: &Fragment, v: &Json) -> (r: Json)
    ensures
        r.model() == rename_ref(prefix@, *frag, v.model()),
{
    proof {
        reveal(rename_ref);
    }
    match v {
        Json::Array(a) => {
            proof {
                lemma_items_model(a@, a@.len() as int);
            }
            if a.len() > 0 {
                match a[0].as_str() {
                    Some(s) => {
                        if get_key(&frag.nodes, s).is_some() {
                            let mut out: Vec<Json> = Vec::new();
                            out.push(Json::Str(new_id_exec(prefix, s)));
                            let mut i: usize = 1;
                            while i < a.len()
                                invariant
                                    1 <= i <= a@.len(),
                                    out@.len() == i,
                                    out@[0].model() == JsonView::Str(new_id(prefix@, s@)),
                                    forall|k: int| 1 <= k < i ==> (#[trigger] out@[k]).model()
                                        == a@[k].model(),
                                decreases a.len() - i,
                            {
                                out.push(a[i].copy());
                                i = i + 1;
                            }
                            proof {
                                lemma_items_model(out@, out@.len() as int);
                                assert(items_model(out@, out@.len() as int) =~= items_model(
                                    a@,
                                    a@.len() as int,
                                ).update(0, JsonView::Str(new_id(prefix@, s@))));
                            }
                            return Json::Array(out);
                        }
                    },
                    None => {},
                }
            }
            v.copy()
        },
        _ => v.copy(),
    }
}

fn rename_node_exec(prefix: &str, frag: &Fragment, node: &Json) -> (r: Json)
    ensures
        r.model() == rename_node(prefix@, *frag, node.model()),
{
    proof {
        reveal(rename_node);
        reveal(inputs_of);
        reveal(with_inputs);
        reveal(vget);
        reveal(vput);
    }
    match inputs_index(node) {
        Some(j) => match node {
            Json::Object(ne) => {
                proof {
                    lemma_entries_model(ne@, ne@.len() as int);
                }
                match &ne[j].1 {
                    Json::Object(ie) => {
                        let mut ie2: Vec<(String, Json)> = Vec::new();
                        let mut i: usize = 0;
                        while i < ie.len()
                            invariant
                                i <= ie@.len(),
                                ie2@.len() == i,
                                forall|k: int|
                                    0 <= k < i ==> (#[trigger] ie2@[k]).0@ == ie@[k].0@
                                        && ie2@[k].1.model() == rename_ref(
                                        prefix@,
                                        *frag,
                                        ie@[k].1.model(),
                                    ),
                            decreases ie.len() - i,
                        {
                            ie2.push((ie[i].0.clone(), rename_ref_exec(prefix, frag, &ie[i].1)));
                            i = i + 1;
                        }
                        proof {
                            lemma_entries_model(ie2@, ie2@.len() as int);
                            lemma_entries_model(ie@, ie@.len() as int);
                            assert(entry_models(ie2@) =~= rename_refs(
                                prefix@,
                                *frag,
                                entry_models(ie@),
                            ));
                        }
                        let mut ne2 = copy_entries(ne);
                        put(&mut ne2, String::from_str("inputs"), Json::Object(ie2));
                        Json::Object(ne2)
                    },
                    _ => node.copy(),
                }
            },
            _ => node.copy(),
        },
        None => node.copy(),
    }
}

/// Splices the fragment's nodes into the graph under `{prefix}_{id}`; the
/// wires between them follow the renaming.
fn splice(g: &mut Vec<(String, Json)>, frag: &Fragment, prefix: &str)
    ensures
        entry_models(final(g)@) == spliced(entry_models(old(g)@), *frag, prefix@),
{
    let ghost g0 = entry_models(g@);
    let mut i: usize = 0;
    while i < frag.nodes.len()
        invariant
            i <= frag.nodes@.len(),
            entry_models(g@) == splice_spec(g0, *frag, prefix@, i as int),
        decreases frag.nodes.len() - i,
    {
        let n = rename_node_exec(prefix, frag, &frag.nodes[i].1);
        put(g, new_id_exec(prefix, frag.nodes[i].0.as_str()), n);
        i = i + 1;
    }
}

/// `load.inputs.image` becomes `ref1_load.inputs.image` when `load` is one
/// of the fragment's nodes.
#[verifier::opaque]
pub open spec fn rename_path(path: Seq<char>, prefix: Seq<char>, frag: Fragment) -> Seq<char> {
    match first_dot(path) {
        None => path,
        Some(d) => {
            let node = path.subrange(0, d);
            if is_node_of(frag, node) {
                new_id(prefix, node) + "."@ + path.subrange(d + 1, path.len() as int)
            } else {
                path
            }
        },
    }
}

fn rename_path_exec(path: &str, prefix: &str, frag: &Fragment) -> (r: String)
    ensures
        r@ == rename_path(path@, prefix@, *frag),
{
    proof {
        reveal(rename_path);
    }
    let c = chars_of(path);
    match first_dot_exec(&c) {
        None => String::from_str(path),
        Some(d) => {
            let node = path.substring_char(0, d);
            if get_key(&frag.nodes, node).is_some() {
                let mut s = new_id_exec(prefix, node);
                s.append(".");
                s.append(path.substring_char(d + 1, c.len()));
                s
            } else {
                String::from_str(path)
            }
        },
    }
}

// ---------------------------------------------------------------------------
// Writing one value to many places.

/// Writes `val` to the first `n` paths in turn, stopping at the first error.
pub open spec fn write_all(g: Entries, paths: Seq<Seq<char>>, val: JsonView, n: int) -> Result<
    Entries,
    AsmError,
>
    decreases n,
{
    if n <= 0 || n > paths.len() {
        Ok(g)
    } else {
        match write_all(g, paths, val, n - 1) {
            Ok(g1) => write_spec(g1, paths[n - 1], val),
            Err(e) => Err(e),
        }
    }
}

proof fn lemma_write_all_stops(g: Entries, paths: Seq<Seq<char>>, val: JsonView, k: int, n: int)
    requires
        0 <= k <= n <= paths.len(),
        write_all(g, paths, val, k) is Err,
    ensures
        write_all(g, paths, val, n) == write_all(g, paths, val, k),
    decreases n - k,
{
    if n > k {
        lemma_write_all_stops(g, paths, val, k, n - 1);
    }
}

/// Writes a copy of `val` to each path in turn.
fn write_each(g: &mut Vec<(String, Json)>, paths: &Vec<String>, val: &Json) -> (r: Result<
    (),
    StudioError,
>)
    ensures
        match write_all(entry_models(old(g)@), paths@.map_values(|p: String| p@), val.model(), paths@.len() as int) {
            Ok(g2) => r is Ok && entry_models(final(g)@) == g2,
            Err(a) => r matches Err(e) && error_is(e, a),
        },
{
    let ghost g0 = entry_models(g@);
    let ghost ps = paths@.map_values(|p: String| p@);
    let mut i: usize = 0;
    while i < paths.len()
        invariant
            ps == paths@.map_values(|p: String| p@),
            g0 == entry_models(old(g)@),
            i <= paths@.len(),
            write_all(g0, ps, val.model(), i as int) == Ok::<Entries, AsmError>(entry_models(g@)),
        decreases paths.len() - i,
    {
        let ghost before = entry_models(g@);
        assert(ps[i as int] == paths@[i as int]@);
        let c = val.copy();
        let w = write_at(g, paths[i].as_str(), c);
        assert(write_all(g0, ps, val.model(), i + 1) == write_spec(before, ps[i as int], val.model()));
        match w {
            Ok(()) => {},
            Err(e) => {
                proof {
                    lemma_write_all_stops(g0, ps, val.model(), i + 1, ps.len() as int);
                    assert(g0 == entry_models(old(g)@));
                    assert(ps == paths@.map_values(|p: String| p@));
                }
                return Err(e);
            },
        }
        i = i + 1;
    }
    Ok(())
}

/// The paths of a binding, renamed by the splice prefix.
pub open spec fn renamed_paths(paths: Seq<String>, prefix: Seq<char>, frag: Fragment) -> Seq<Seq<char>> {
    paths.map_values(|p: String| rename_path(p@, prefix, frag))
}

/// Writes a copy of `val` to each path, renamed by the splice prefix.
fn write_each_renamed(
    g: &mut Vec<(String, Json)>,
    paths: &Vec<String>,
    prefix: &str,
    frag: &Fragment,
    val: &Json,
) -> (r: Result<(), StudioError>)
    ensures
        match write_all(entry_models(old(g)@), renamed_paths(paths@, prefix@, *frag), val.model(), paths@.len() as int) {
            Ok(g2) => r is Ok && entry_models(final(g)@) == g2,
            Err(a) => r matches Err(e) && error_is(e, a),
        },
{
    let mut renamed: Vec<String> = Vec::new();
    let mut i: usize = 0;
    while i < paths.len()
        invariant
            i <= paths@.len(),
            renamed@.len() == i,
            forall|k: int| 0 <= k < i ==> (#[trigger] renamed@[k])@ == rename_path(paths@[k]@, prefix@, *frag),
        decreases paths.len() - i,
    {
        renamed.push(rename_path_exec(paths[i].as_str(), prefix, frag));
        i = i + 1;
    }
    assert(renamed@.map_values(|p: String| p@) =~= renamed_paths(paths@, prefix@, *frag));
    write_each(g, &renamed, val)
}

/// The paths a fragment binds `name` to; none when it binds nothing.
pub open spec fn bound_paths(frag: Fragment, name: Seq<char>) -> Seq<String> {
    match find_key(frag.bindings@, name) {
        Some(ts) => ts@,
        None => Seq::empty(),
    }
}

/// Writes the asset into the places the input fragment binds `filename` to.
#[verifier::opaque]
pub open spec fn set_media_spec(g: Entries, input: Fragment, prefix: Seq<char>, asset: Seq<char>) -> Result<
    Entries,
    AsmError,
> {
    let ps = bound_paths(input, "filename"@);
    write_all(g, renamed_paths(ps, prefix, input), JsonView::Str(asset), ps.len() as int)
}

fn set_media(g: &mut Vec<(String, Json)>, input: &Fragment, prefix: &str, asset: &str) -> (r: Result<
    (),
    StudioError,
>)
    ensures
        match set_media_spec(entry_models(old(g)@), *input, prefix@, asset@) {
            Ok(g2) => r is Ok && entry_models(final(g)@) == g2,
            Err(a) => r matches Err(e) && error_is(e, a),
        },
{
    proof {
        reveal(set_media_spec);
    }
    let val = Json::Str(String::from_str(asset));
    match get_key(&input.bindings, "filename") {
        Some(ts) => write_each_renamed(g, ts, prefix, input, &val),
        None => {
            assert(renamed_paths(Seq::<String>::empty(), prefix@, *input).len() == 0);
            Ok(())
        },
    }
}

// ---------------------------------------------------------------------------
// Ports and chains.

/// The output port an input fragment offers for a medium: `audio` for
/// audio, `image` for pictures and videos.
pub open spec fn port_key(kind: Medium) -> Seq<char> {
    if kind == Medium::Audio {
        "audio"@
    } else {
        "image"@
    }
}

#[verifier::opaque]
pub open spec fn port_spec(input: Fragment, kind: Medium) -> Result<JsonView, AsmError> {
    match find_key(input.input_outputs@, port_key(kind)) {
        Some(v) => Ok(v.model()),
        None => Err(
            AsmError::Contract("输入片段「"@ + input.id@ + "」没有 "@ + port_key(kind) + " 输出端口"@),
        ),
    }
}

fn port_of(input: &Fragment, kind: Medium) -> (r: Result<Json, StudioError>)
    ensures
        match port_spec(*input, kind) {
            Ok(v) => r matches Ok(x) && x.model() == v,
            Err(a) => r matches Err(e) && error_is(e, a),
        },
{
    proof {
        reveal(port_spec);
    }
    let key = match kind {
        Medium::Audio => "audio",
        _ => "image",
    };
    proof {
        reveal_strlit("audio");
        reveal_strlit("image");
    }
    match get_key(&input.input_outputs, key) {
        Some(v) => Ok(v.copy()),
        None => {
            let mut d = String::from_str("输入片段「");
            d.append(input.id.as_str());
            d.append("」没有 ");
            d.append(key);
            d.append(" 输出端口");
            Err(contract(d))
        },
    }
}

/// Where a guide's chain place `key` lies in the graph.
#[verifier::opaque]
pub open spec fn chain_spec(frag: Fragment, key: Seq<char>, prefix: Seq<char>) -> Result<
    Seq<char>,
    AsmError,
> {
    match find_key(frag.chain@, key) {
        Some(v) => match v.str_of() {
            Some(p) => Ok(rename_path(p, prefix, frag)),
            None => Err(AsmError::Contract("guide 片段「"@ + frag.id@ + "」没有 "@ + key)),
        },
        None => Err(AsmError::Contract("guide 片段「"@ + frag.id@ + "」没有 "@ + key)),
    }
}

fn chain_path(frag: &Fragment, key: &str, prefix: &str) -> (r: Result<String, StudioError>)
    ensures
        match chain_spec(*frag, key@, prefix@) {
            Ok(p) => r matches Ok(x) && x@ == p,
            Err(a) => r matches Err(e) && error_is(e, a),
        },
{
    proof {
        reveal(chain_spec);
    }
    match get_key(&frag.chain, key) {
        Some(v) => match v.as_str() {
            Some(p) => {
                return Ok(rename_path_exec(p, prefix, frag));
            },
            None => {},
        },
        None => {},
    }
    let mut d = String::from_str("guide 片段「");
    d.append(frag.id.as_str());
    d.append("」没有 ");
    d.append(key);
    Err(contract(d))
}

// ---------------------------------------------------------------------------
// AUTOGROW slots.

pub open spec fn slot_full_text(max: nat, n: nat) -> Seq<char> {
    "这个槽位最多挂 "@ + dec_nat(max) + " 个，第 "@ + dec_nat(n) + " 个放不下"@
}

/// The entries already in an AUTOGROW slot: none yet, or those of an object.
pub open spec fn slot_entries(v: Option<JsonView>) -> Option<Entries> {
    match v {
        None => Some(Seq::empty()),
        Some(JsonView::Object(se)) => Some(se),
        Some(_) => None,
    }
}

/// Hangs `wire` as the `n`-th item of an AUTOGROW slot: under
/// `{prefix}{n}` in the object at the slot's target.
#[verifier::opaque]
pub open spec fn autogrow_spec(g: Entries, slot: AutogrowSlot, n: nat, wire: JsonView) -> Result<
    Entries,
    AsmError,
> {
    if n > slot.max {
        Err(AsmError::SlotFull(slot.target@, slot_full_text(slot.max as nat, n)))
    } else {
        match target_parts(slot.target@) {
            None => Err(AsmError::Contract(bad_path_text(slot.target@))),
            Some((node, field)) => match vget(g, node) {
                Some(nd) => match inputs_of(nd) {
                    Some(ie) => match slot_entries(vget(ie, field)) {
                        Some(se) => Ok(
                            vput(
                                g,
                                node,
                                with_inputs(
                                    nd,
                                    vput(
                                        ie,
                                        field,
                                        JsonView::Object(vput(se, slot.prefix@ + dec_nat(n), wire)),
                                    ),
                                ),
                            ),
                        ),
                        None => Err(
                            AsmError::Contract(
                                slot.target@ + " 不是对象，AUTOGROW 槽位必须是对象"@,
                            ),
                        ),
                    },
                    None => Err(AsmError::Contract(no_node_text(node))),
                },
                None => Err(AsmError::Contract(no_node_text(node))),
            },
        }
    }
}

fn push_autogrow(g: &mut Vec<(String, Json)>, slot: &AutogrowSlot, n: usize, wire: Json) -> (r: Result<
    (),
    StudioError,
>)
    ensures
        match autogrow_spec(entry_models(old(g)@), *slot, n as nat, wire.model()) {
            Ok(g2) => r is Ok && entry_models(final(g)@) == g2,
            Err(a) => r matches Err(e) && error_is(e, a),
        },
{
    proof {
        reveal(autogrow_spec);
        reveal(vget);
        reveal(vput);
        reveal(inputs_of);
        reveal(with_inputs);
    }
    if n > slot.max {
        let mut m = String::from_str("这个槽位最多挂 ");
        push_u64(&mut m, slot.max as u64);
        m.append(" 个，第 ");
        push_u64(&mut m, n as u64);
        m.append(" 个放不下");
        let mut violations: Vec<Violation> = Vec::new();
        violations.push(Violation::new(slot.target.clone(), m));
        return Err(StudioError::SchemaViolation { stage: StageId::PromptPack, violations });
    }
    let (node, field) = match split_target(slot.target.as_str()) {
        Ok(p) => p,
        Err(e) => {
            return Err(e);
        },
    };
    proof {
        lemma_entries_model(g@, g@.len() as int);
    }
    let i = match find_index(g, node.as_str()) {
        Some(i) => i,
        None => {
            return Err(no_node(node.as_str()));
        },
    };
    let ie = match input_entries(&g[i].1) {
        Some(ie) => ie,
        None => {
            return Err(no_node(node.as_str()));
        },
    };
    proof {
        lemma_entries_model(ie@, ie@.len() as int);
    }
    let mut se: Vec<(String, Json)> = match find_index(ie, field.as_str()) {
        None => Vec::new(),
        Some(k) => match &ie[k].1 {
            Json::Object(se) => copy_entries(se),
            _ => {
                let mut d = slot.target.clone();
                d.append(" 不是对象，AUTOGROW 槽位必须是对象");
                return Err(contract(d));
            },
        },
    };
    proof {
        assert(entry_models(Seq::<(String, Json)>::empty()) =~= Seq::<(Seq<char>, JsonView)>::empty());
    }
    let mut key = slot.prefix.clone();
    push_u64(&mut key, n as u64);
    put(&mut se, key, wire);
    let mut ie2 = copy_entries(ie);
    put(&mut ie2, field, Json::Object(se));
    let node_v = match &g[i].1 {
        Json::Object(ne) => {
            let mut ne2 = copy_entries(ne);
            put(&mut ne2, String::from_str("inputs"), Json::Object(ie2));
            Json::Object(ne2)
        },
        _ => {
            return Err(no_node(node.as_str()));
        },
    };
    put(g, node, node_v);
    Ok(())
}

// ---------------------------------------------------------------------------
// Folding lists of nodes and wires into the graph.

/// The graph with the first `n` nodes put in, unchanged.
pub open spec fn insert_all(g: Entries, nodes: Seq<(String, Json)>, n: int) -> Entries
    decreases n,
{
    if n <= 0 || n > nodes.len() {
        g
    } else {
        vput(insert_all(g, nodes, n - 1), nodes[n - 1].0@, nodes[n - 1].1.model())
    }
}

fn insert_nodes(g: &mut Vec<(String, Json)>, nodes: &Vec<(String, Json)>)
    ensures
        entry_models(final(g)@) == insert_all(entry_models(old(g)@), nodes@, nodes@.len() as int),
{
    let ghost g0 = entry_models(g@);
    let mut i: usize = 0;
    while i < nodes.len()
        invariant
            g0 == entry_models(old(g)@),
            i <= nodes@.len(),
            entry_models(g@) == insert_all(g0, nodes@, i as int),
        decreases nodes.len() - i,
    {
        put(g, nodes[i].0.clone(), nodes[i].1.copy());
        i = i + 1;
    }
}

/// Writes the first `n` (path, value) pairs in turn, stopping at the first error.
pub open spec fn write_pairs(g: Entries, pairs: Seq<(String, Json)>, n: int) -> Result<
    Entries,
    AsmError,
>
    decreases n,
{
    if n <= 0 || n > pairs.len() {
        Ok(g)
    } else {
        match write_pairs(g, pairs, n - 1) {
            Ok(g1) => write_spec(g1, pairs[n - 1].0@, pairs[n - 1].1.model()),
            Err(e) => Err(e),
        }
    }
}

proof fn lemma_write_pairs_stops(g: Entries, pairs: Seq<(String, Json)>, k: int, n: int)
    requires
        0 <= k <= n <= pairs.len(),
        write_pairs(g, pairs, k) is Err,
    ensures
        write_pairs(g, pairs, n) == write_pairs(g, pairs, k),
    decreases n - k,
{
    if n > k {
        lemma_write_pairs_stops(g, pairs, k, n - 1);
    }
}

fn write_pairs_exec(g: &mut Vec<(String, Json)>, pairs: &Vec<(String, Json)>) -> (r: Result<
    (),
    StudioError,
>)
    ensures
        match write_pairs(entry_models(old(g)@), pairs@, pairs@.len() as int) {
            Ok(g2) => r is Ok && entry_models(final(g)@) == g2,
            Err(a) => r matches Err(e) && error_is(e, a),
        },
{
    let ghost g0 = entry_models(g@);
    let mut i: usize = 0;
    while i < pairs.len()
        invariant
            g0 == entry_models(old(g)@),
            i <= pairs@.len(),
            write_pairs(g0, pairs@, i as int) == Ok::<Entries, AsmError>(entry_models(g@)),
        decreases pairs.len() - i,
    {
        let ghost before = entry_models(g@);
        let w = write_at(g, pairs[i].0.as_str(), pairs[i].1.copy());
        assert(write_pairs(g0, pairs@, i + 1) == write_spec(
            before,
            pairs@[i as int].0@,
            pairs@[i as int].1.model(),
        ));
        match w {
            Ok(()) => {},
            Err(e) => {
                proof {
                    lemma_write_pairs_stops(g0, pairs@, i + 1, pairs@.len() as int);
                }
                return Err(e);
            },
        }
        i = i + 1;
    }
    Ok(())
}

// ---------------------------------------------------------------------------
// The shot's own values.

/// The value a shot gives to a bound parameter, if it gives one.
pub open spec fn param_value(shot: DeclView, output_prefix: Seq<char>, name: Seq<char>) -> Option<
    JsonView,
> {
    if name == "positive"@ {
        Some(JsonView::Str(shot.positive))
    } else if name == "width"@ {
        Some(JsonView::Num(Number::Int(shot.width as i128)))
    } else if name == "height"@ {
        Some(JsonView::Num(Number::Int(shot.height as i128)))
    } else if name == "length_frames"@ {
        Some(JsonView::Num(Number::Int(shot.length_frames as i128)))
    } else if name == "fps"@ {
        Some(JsonView::Num(shot.fps))
    } else if name == "seed"@ {
        Some(JsonView::Num(Number::Int(shot.seed as i128)))
    } else if name == "output_prefix"@ {
        Some(JsonView::Str(output_prefix))
    } else {
        None
    }
}

fn param_value_exec(shot: &ShotDeclaration, output_prefix: &str, name: &str) -> (r: Option<Json>)
    ensures
        match param_value(shot@, output_prefix@, name@) {
            Some(v) => r matches Some(x) && x.model() == v,
            None => r is None,
        },
{
    if str_eq(name, "positive") {
        Some(Json::Str(shot.positive.clone()))
    } else if str_eq(name, "width") {
        Some(Json::Num(Number::Int(shot.width as i128)))
    } else if str_eq(name, "height") {
        Some(Json::Num(Number::Int(shot.height as i128)))
    } else if str_eq(name, "length_frames") {
        Some(Json::Num(Number::Int(shot.length_frames as i128)))
    } else if str_eq(name, "fps") {
        Some(Json::Num(shot.fps))
    } else if str_eq(name, "seed") {
        Some(Json::Num(Number::Int(shot.seed as i128)))
    } else if str_eq(name, "output_prefix") {
        Some(Json::Str(String::from_str(output_prefix)))
    } else {
        None
    }
}

/// The first `n` bindings of a fragment written with the shot's values.
pub open spec fn bind_spec(
    g: Entries,
    bindings: Seq<(String, Vec<String>)>,
    shot: DeclView,
    output_prefix: Seq<char>,
    n: int,
) -> Result<Entries, AsmError>
    decreases n,
{
    if n <= 0 || n > bindings.len() {
        Ok(g)
    } else {
        match bind_spec(g, bindings, shot, output_prefix, n - 1) {
            Ok(g1) => match param_value(shot, output_prefix, bindings[n - 1].0@) {
                Some(v) => {
                    let ts = bindings[n - 1].1@;
                    write_all(g1, ts.map_values(|p: String| p@), v, ts.len() as int)
                },
                None => Ok(g1),
            },
            Err(e) => Err(e),
        }
    }
}

proof fn lemma_bind_stops(
    g: Entries,
    bindings: Seq<(String, Vec<String>)>,
    shot: DeclView,
    output_prefix: Seq<char>,
    k: int,
    n: int,
)
    requires
        0 <= k <= n <= bindings.len(),
        bind_spec(g, bindings, shot, output_prefix, k) is Err,
    ensures
        bind_spec(g, bindings, shot, output_prefix, n) == bind_spec(
            g,
            bindings,
            shot,
            output_prefix,
            k,
        ),
    decreases n - k,
{
    if n > k {
        lemma_bind_stops(g, bindings, shot, output_prefix, k, n - 1);
    }
}

fn bind_exec(
    g: &mut Vec<(String, Json)>,
    bindings: &Vec<(String, Vec<String>)>,
    shot: &ShotDeclaration,
    output_prefix: &str,
) -> (r: Result<(), StudioError>)
    ensures
        match bind_spec(entry_models(old(g)@), bindings@, shot@, output_prefix@, bindings@.len() as int) {
            Ok(g2) => r is Ok && entry_models(final(g)@) == g2,
            Err(a) => r matches Err(e) && error_is(e, a),
        },
{
    let ghost g0 = entry_models(g@);
    let mut i: usize = 0;
    while i < bindings.len()
        invariant
            g0 == entry_models(old(g)@),
            i <= bindings@.len(),
            bind_spec(g0, bindings@, shot@, output_prefix@, i as int) == Ok::<Entries, AsmError>(
                entry_models(g@),
            ),
        decreases bindings.len() - i,
    {
        match param_value_exec(shot, output_prefix, bindings[i].0.as_str()) {
            Some(v) => {
                let w = write_each(g, &bindings[i].1, &v);
                match w {
                    Ok(()) => {},
                    Err(e) => {
                        proof {
                            lemma_bind_stops(
                                g0,
                                bindings@,
                                shot@,
                                output_prefix@,
                                i + 1,
                                bindings@.len() as int,
                            );
                        }
                        return Err(e);
                    },
                }
            },
            None => {},
        }
        i = i + 1;
    }
    Ok(())
}

// ---------------------------------------------------------------------------
// References.

/// `unavailable_reason`, or a fallback.
pub open spec fn reason_or(r: Option<String>, fallback: Seq<char>) -> Seq<char> {
    match r {
        Some(x) => x@,
        None => fallback,
    }
}

pub open spec fn unverified_text(f: Fragment) -> Seq<char> {
    "片段「"@ + f.id@ + "」尚未核验，不能用来渲染："@ + reason_or(f.unavailable_reason, "没有写明原因"@)
}

fn reason_or_exec(r: &Option<String>, fallback: &str) -> (s: String)
    ensures
        s@ == reason_or(*r, fallback@),
{
    match r {
        Some(x) => x.clone(),
        None => String::from_str(fallback),
    }
}

/// Only a fragment verified on a real machine may be used to render.
fn require_verified(f: &Fragment) -> (r: Result<(), StudioError>)
    ensures
        f.verified ==> r is Ok,
        !f.verified ==> (r matches Err(e) && error_is(e, AsmError::Contract(unverified_text(*f)))),
{
    if f.verified {
        return Ok(());
    }
    let mut d = String::from_str("片段「");
    d.append(f.id.as_str());
    d.append("」尚未核验，不能用来渲染：");
    d.append(reason_or_exec(&f.unavailable_reason, "没有写明原因").as_str());
    Err(contract(d))
}

/// `ref{i+1}`.
pub open spec fn ref_prefix(i: int) -> Seq<char> {
    "ref"@ + dec_nat((i + 1) as nat)
}

/// The video's audio takes the slot of the same number in `video_audio`.
pub open spec fn audio_spec(g: Entries, head: Fragment, input: Fragment, prefix: Seq<char>, n: nat) -> Result<
    Entries,
    AsmError,
> {
    match find_key(head.autogrow@, "video_audio"@) {
        None => Err(AsmError::Contract("head「"@ + head.id@ + "」没有 video_audio 槽位"@)),
        Some(aslot) => match find_key(input.input_outputs@, "audio"@) {
            None => Err(AsmError::Contract("视频输入片段没有 audio 输出端口"@)),
            Some(ap) => autogrow_spec(g, aslot, n, rename_ref(prefix, input, ap.model())),
        },
    }
}

/// Reference `i`: its input fragment spliced in under `ref{i+1}`, the
/// asset written in, and the input's port hung on the head's AUTOGROW slot
/// of its medium, numbered from 1 per medium.
pub open spec fn ref_spec(g: Entries, set: FragmentSet, head: Fragment, refs: Seq<RefView>, i: int) -> Result<
    Entries,
    AsmError,
> {
    let r = refs[i];
    let kind = r.0;
    match find_key(head.autogrow@, kind.name()) {
        None => Err(
            AsmError::Contract(
                "head「"@ + head.id@ + "」不接 "@ + kind.name() + " 类参考（它没有对应的 AUTOGROW 槽位）"@,
            ),
        ),
        Some(slot) => if !slot.verified {
            Err(
                AsmError::Contract(
                    "head「"@ + head.id@ + "」的 "@ + kind.name() + " 类参考槽位尚未核验，不能用来渲染："@
                        + reason_or(slot.unverified_reason, "原因未记录"@),
                ),
            )
        } else {
            match find_key(set.inputs@, kind.name()) {
                None => Err(AsmError::Contract("片段库里没有 "@ + kind.name() + " 类输入片段"@)),
                Some(input) => if !input.verified {
                    Err(AsmError::Contract(unverified_text(input)))
                } else {
                    let prefix = ref_prefix(i);
                    match set_media_spec(spliced(g, input, prefix), input, prefix, r.1) {
                        Err(e) => Err(e),
                        Ok(g2) => {
                            let n = kind_count(refs, i + 1, kind);
                            match port_spec(input, kind) {
                                Err(e) => Err(e),
                                Ok(port) => match autogrow_spec(
                                    g2,
                                    slot,
                                    n,
                                    rename_ref(prefix, input, port),
                                ) {
                                    Err(e) => Err(e),
                                    Ok(g3) => if r.2 && kind == Medium::Video {
                                        audio_spec(g3, head, input, prefix, n)
                                    } else {
                                        Ok(g3)
                                    },
                                },
                            }
                        },
                    }
                },
            }
        },
    }
}

/// The first `n` references, in order, stopping at the first error.
pub open spec fn refs_spec(g: Entries, set: FragmentSet, head: Fragment, refs: Seq<RefView>, n: int) -> Result<
    Entries,
    AsmError,
>
    decreases n,
{
    if n <= 0 || n > refs.len() {
        Ok(g)
    } else {
        match refs_spec(g, set, head, refs, n - 1) {
            Ok(g1) => ref_spec(g1, set, head, refs, n - 1),
            Err(e) => Err(e),
        }
    }
}

proof fn lemma_refs_stops(g: Entries, set: FragmentSet, head: Fragment, refs: Seq<RefView>, k: int, n: int)
    requires
        0 <= k <= n <= refs.len(),
        refs_spec(g, set, head, refs, k) is Err,
    ensures
        refs_spec(g, set, head, refs, n) == refs_spec(g, set, head, refs, k),
    decreases n - k,
{
    if n > k {
        lemma_refs_stops(g, set, head, refs, k, n - 1);
    }
}

/// What the assembly records of reference `i`: `input/{id}#ref{i+1}`.
pub open spec fn ref_used(set: FragmentSet, refs: Seq<RefView>, i: int) -> Seq<char> {
    match find_key(set.inputs@, refs[i].0.name()) {
        Some(input) => "input/"@ + input.id@ + "#"@ + ref_prefix(i),
        None => Seq::empty(),
    }
}

fn ref_prefix_exec(i: usize) -> (r: String)
    requires
        i < usize::MAX,
    ensures
        r@ == ref_prefix(i as int),
{
    let mut s = String::from_str("ref");
    push_u64(&mut s, (i + 1) as u64);
    s
}

fn count_kind(shot: &ShotDeclaration, upto: usize, kind: Medium) -> (r: usize)
    requires
        upto <= shot.references@.len(),
    ensures
        r == kind_count(shot@.references, upto as int, kind),
{
    let mut n: usize = 0;
    let mut j: usize = 0;
    while j < upto
        invariant
            upto <= shot.references@.len(),
            j <= upto,
            n <= j,
            n == kind_count(shot@.references, j as int, kind),
        decreases upto - j,
    {
        assert(shot@.references[j as int] == shot.references@[j as int]@);
        if shot.references[j].kind == kind {
            n = n + 1;
        }
        j = j + 1;
    }
    n
}

fn ref_exec(
    g: &mut Vec<(String, Json)>,
    used: &mut Vec<String>,
    set: &FragmentSet,
    head: &Fragment,
    shot: &ShotDeclaration,
    i: usize,
) -> (r: Result<(), StudioError>)
    requires
        i < shot.references@.len(),
    ensures
        match ref_spec(entry_models(old(g)@), *set, *head, shot@.references, i as int) {
            Ok(g2) => r is Ok && entry_models(final(g)@) == g2 && final(used)@.map_values(
                |u: String| u@,
            ) == old(used)@.map_values(|u: String| u@).push(
                ref_used(*set, shot@.references, i as int),
            ),
            Err(a) => r matches Err(e) && error_is(e, a),
        },
{
    let nrefs = shot.references.len();
    let rf = &shot.references[i];
    assert(shot@.references[i as int] == rf@);
    let kind = rf.kind;
    let slot = match get_key(&head.autogrow, kind.as_str()) {
        Some(s) => s,
        None => {
            let mut d = String::from_str("head「");
            d.append(head.id.as_str());
            d.append("」不接 ");
            d.append(kind.as_str());
            d.append(" 类参考（它没有对应的 AUTOGROW 槽位）");
            return Err(contract(d));
        },
    };
    if !slot.verified {
        let mut d = String::from_str("head「");
        d.append(head.id.as_str());
        d.append("」的 ");
        d.append(kind.as_str());
        d.append(" 类参考槽位尚未核验，不能用来渲染：");
        d.append(reason_or_exec(&slot.unverified_reason, "原因未记录").as_str());
        return Err(contract(d));
    }
    let input = match get_key(&set.inputs, kind.as_str()) {
        Some(f) => f,
        None => {
            let mut d = String::from_str("片段库里没有 ");
            d.append(kind.as_str());
            d.append(" 类输入片段");
            return Err(contract(d));
        },
    };
    match require_verified(input) {
        Ok(()) => {},
        Err(e) => {
            return Err(e);
        },
    }
    let prefix = ref_prefix_exec(i);
    splice(g, input, prefix.as_str());
    match set_media(g, input, prefix.as_str(), rf.asset_id.as_str()) {
        Ok(()) => {},
        Err(e) => {
            return Err(e);
        },
    }
    let mut u = String::from_str("input/");
    u.append(input.id.as_str());
    u.append("#");
    u.append(prefix.as_str());
    let ghost before_used = used@;
    used.push(u);
    assert(used@.map_values(|x: String| x@) =~= before_used.map_values(|x: String| x@).push(
        ref_used(*set, shot@.references, i as int),
    ));
    let n = count_kind(shot, i + 1, kind);
    let port = match port_of(input, kind) {
        Ok(p) => p,
        Err(e) => {
            return Err(e);
        },
    };
    let wire = rename_ref_exec(prefix.as_str(), input, &port);
    match push_autogrow(g, slot, n, wire) {
        Ok(()) => {},
        Err(e) => {
            return Err(e);
        },
    }
    if rf.with_audio && kind == Medium::Video {
        let aslot = match get_key(&head.autogrow, "video_audio") {
            Some(s) => s,
            None => {
                let mut d = String::from_str("head「");
                d.append(head.id.as_str());
                d.append("」没有 video_audio 槽位");
                return Err(contract(d));
            },
        };
        let ap = match get_key(&input.input_outputs, "audio") {
            Some(p) => p,
            None => {
                return Err(contract(String::from_str("视频输入片段没有 audio 输出端口")));
            },
        };
        let awire = rename_ref_exec(prefix.as_str(), input, ap);
        match push_autogrow(g, aslot, n, awire) {
            Ok(()) => {},
            Err(e) => {
                return Err(e);
            },
        }
    }
    Ok(())
}

pub open spec fn refs_used(set: FragmentSet, refs: Seq<RefView>, n: int) -> Seq<Seq<char>>
    decreases n,
{
    if n <= 0 || n > refs.len() {
        Seq::empty()
    } else {
        refs_used(set, refs, n - 1).push(ref_used(set, refs, n - 1))
    }
}

/// Every reference in turn.
fn refs_exec(
    g: &mut Vec<(String, Json)>,
    used: &mut Vec<String>,
    set: &FragmentSet,
    head: &Fragment,
    shot: &ShotDeclaration,
) -> (r: Result<(), StudioError>)
    ensures
        match refs_spec(entry_models(old(g)@), *set, *head, shot@.references, shot@.references.len() as int) {
            Ok(g2) => r is Ok && entry_models(final(g)@) == g2 && final(used)@.map_values(
                |u: String| u@,
            ) == old(used)@.map_values(|u: String| u@) + refs_used(
                *set,
                shot@.references,
                shot@.references.len() as int,
            ),
            Err(a) => r matches Err(e) && error_is(e, a),
        },
{
    let ghost g0 = entry_models(g@);
    let ghost u0 = used@.map_values(|u: String| u@);
    let mut i: usize = 0;
    while i < shot.references.len()
        invariant
            g0 == entry_models(old(g)@),
            u0 == old(used)@.map_values(|u: String| u@),
            i <= shot.references@.len(),
            shot@.references.len() == shot.references@.len(),
            refs_spec(g0, *set, *head, shot@.references, i as int) == Ok::<Entries, AsmError>(
                entry_models(g@),
            ),
            used@.map_values(|u: String| u@) == u0 + refs_used(*set, shot@.references, i as int),
        decreases shot.references.len() - i,
    {
        let ghost ub = used@.map_values(|u: String| u@);
        match ref_exec(g, used, set, head, shot, i) {
            Ok(()) => {},
            Err(e) => {
                proof {
                    lemma_refs_stops(
                        g0,
                        *set,
                        *head,
                        shot@.references,
                        i + 1,
                        shot@.references.len() as int,
                    );
                }
                return Err(e);
            },
        }
        assert(used@.map_values(|u: String| u@) =~= u0 + refs_used(
            *set,
            shot@.references,
            i + 1,
        ));
        i = i + 1;
    }
    Ok(())
}

// ---------------------------------------------------------------------------
// The preview overlay.

/// Which combination a graph is assembled in.
#[derive(Debug, Clone, Copy, PartialEq, Eq, Structural)]
pub enum Combination {
    /// The real render: the backbone as it is, steps as in the baseline.
    Standard,
    /// A preview: the head's turbo LoRA hung on, steps down to the LoRA's.
    /// Without a verified overlay for the head it falls back to
    /// [`Combination::Standard`] and says so in the notes: a faster preview
    /// is welcome, but not worth blocking the preview stage over.
    PreviewTurbo,
}

/// The overlay's nodes and wires, when a verified one is asked for.
pub open spec fn overlay_spec(g: Entries, set: FragmentSet, head: Fragment, comb: Combination) -> Result<
    Entries,
    AsmError,
> {
    if comb == Combination::PreviewTurbo {
        match find_key(set.overlays@, head.id@) {
            Some(o) => if o.verified {
                match write_pairs(
                    insert_all(g, o.nodes@, o.nodes@.len() as int),
                    o.wires_from_backbone@,
                    o.wires_from_backbone@.len() as int,
                ) {
                    Ok(g2) => write_pairs(g2, o.backbone_overrides@, o.backbone_overrides@.len() as int),
                    Err(e) => Err(e),
                }
            } else {
                Ok(g)
            },
            None => Ok(g),
        }
    } else {
        Ok(g)
    }
}

/// What the assembly records of the overlay.
pub open spec fn overlay_used(set: FragmentSet, head: Fragment, comb: Combination) -> Seq<Seq<char>> {
    if comb == Combination::PreviewTurbo {
        match find_key(set.overlays@, head.id@) {
            Some(o) => if o.verified {
                seq!["overlay/"@ + o.id@]
            } else {
                Seq::empty()
            },
            None => Seq::empty(),
        }
    } else {
        Seq::empty()
    }
}

/// What the assembly says it did instead of what was asked.
pub open spec fn overlay_notes(set: FragmentSet, head: Fragment, comb: Combination) -> Seq<Seq<char>> {
    if comb == Combination::PreviewTurbo {
        match find_key(set.overlays@, head.id@) {
            Some(o) => if o.verified {
                Seq::empty()
            } else {
                seq![
                    "turbo 叠加层「"@ + o.id@ + "」尚未真机核验（"@ + reason_or(
                        o.unavailable_reason,
                        "原因未记录"@,
                    ) + "），这一镜退回普通组合，预览会慢一些但结果可信"@,
                ]
            },
            None => seq!["head「"@ + head.id@ + "」没有 turbo 叠加层，用普通组合"@],
        }
    } else {
        Seq::empty()
    }
}

fn overlay_exec(
    g: &mut Vec<(String, Json)>,
    used: &mut Vec<String>,
    notes: &mut Vec<String>,
    set: &FragmentSet,
    head: &Fragment,
    comb: Combination,
) -> (r: Result<(), StudioError>)
    ensures
        match overlay_spec(entry_models(old(g)@), *set, *head, comb) {
            Ok(g2) => r is Ok && entry_models(final(g)@) == g2 && final(used)@.map_values(
                |u: String| u@,
            ) == old(used)@.map_values(|u: String| u@) + overlay_used(*set, *head, comb)
                && final(notes)@.map_values(|u: String| u@) == old(notes)@.map_values(
                |u: String| u@,
            ) + overlay_notes(*set, *head, comb),
            Err(a) => r matches Err(e) && error_is(e, a),
        },
{
    let ghost u0 = used@.map_values(|u: String| u@);
    let ghost n0 = notes@.map_values(|u: String| u@);
    if comb != Combination::PreviewTurbo {
        assert(used@.map_values(|u: String| u@) =~= u0 + Seq::<Seq<char>>::empty());
        assert(notes@.map_values(|u: String| u@) =~= n0 + Seq::<Seq<char>>::empty());
        return Ok(());
    }
    match get_key(&set.overlays, head.id.as_str()) {
        Some(o) => {
            if o.verified {
                insert_nodes(g, &o.nodes);
                match write_pairs_exec(g, &o.wires_from_backbone) {
                    Ok(()) => {},
                    Err(e) => {
                        return Err(e);
                    },
                }
                match write_pairs_exec(g, &o.backbone_overrides) {
                    Ok(()) => {},
                    Err(e) => {
                        return Err(e);
                    },
                }
                let mut u = String::from_str("overlay/");
                u.append(o.id.as_str());
                used.push(u);
                assert(used@.map_values(|u: String| u@) =~= u0 + overlay_used(*set, *head, comb));
                assert(notes@.map_values(|u: String| u@) =~= n0 + overlay_notes(*set, *head, comb));
            } else {
                let mut t = String::from_str("turbo 叠加层「");
                t.append(o.id.as_str());
                t.append("」尚未真机核验（");
                t.append(reason_or_exec(&o.unavailable_reason, "原因未记录").as_str());
                t.append("），这一镜退回普通组合，预览会慢一些但结果可信");
                notes.push(t);
                assert(used@.map_values(|u: String| u@) =~= u0 + overlay_used(*set, *head, comb));
                assert(notes@.map_values(|u: String| u@) =~= n0 + overlay_notes(*set, *head, comb));
            }
        },
        None => {
            let mut t = String::from_str("head「");
            t.append(head.id.as_str());
            t.append("」没有 turbo 叠加层，用普通组合");
            notes.push(t);
            assert(used@.map_values(|u: String| u@) =~= u0 + overlay_used(*set, *head, comb));
            assert(notes@.map_values(|u: String| u@) =~= n0 + overlay_notes(*set, *head, comb));
        },
    }
    Ok(())
}

// ---------------------------------------------------------------------------
// Guides.

/// The input medium a guide needs. A clip wants a **sequence of frames**,
/// through a video loader; an image loader would feed it one picture of the
/// same type, pass the graph's checks, and anchor the wrong thing.
pub open spec fn guide_medium(k: GuideKind) -> Medium {
    match k {
        GuideKind::Audio => Medium::Audio,
        GuideKind::Image => Medium::Image,
        GuideKind::Clip => Medium::Video,
    }
}

fn guide_medium_exec(k: GuideKind) -> (r: Medium)
    ensures
        r == guide_medium(k),
{
    match k {
        GuideKind::Audio => Medium::Audio,
        GuideKind::Image => Medium::Image,
        GuideKind::Clip => Medium::Video,
    }
}

/// `guide{j+1}`.
pub open spec fn guide_prefix(j: int) -> Seq<char> {
    "guide"@ + dec_nat((j + 1) as nat)
}

/// `guide{j+1}_src`.
pub open spec fn source_prefix(j: int) -> Seq<char> {
    guide_prefix(j) + "_src"@
}

/// Wires the guide's media input to its source, when the guide has one.
pub open spec fn media_spec(
    g: Entries,
    frag: Fragment,
    input: Fragment,
    gp: Seq<char>,
    ip: Seq<char>,
    media: Medium,
) -> Result<Entries, AsmError> {
    match frag.media_input {
        None => Ok(g),
        Some(mi) => match port_spec(input, media) {
            Err(e) => Err(e),
            Ok(port) => write_spec(g, rename_path(mi@, gp, frag), rename_ref(ip, input, port)),
        },
    }
}

/// The chain after the guide's fragment and its source are spliced in:
/// `positive` takes the previous link, `latent` always the head's, the frame
/// goes where the fragment binds `at_frame`.
pub open spec fn guide_wiring(
    g: Entries,
    tail: JsonView,
    latent: JsonView,
    frag: Fragment,
    input: Fragment,
    gd: GuideView,
    j: int,
) -> Result<(Entries, JsonView), AsmError> {
    let gp = guide_prefix(j);
    let ip = source_prefix(j);
    match chain_spec(frag, "positive_in"@, gp) {
        Err(e) => Err(e),
        Ok(pos_in) => match chain_spec(frag, "latent_in"@, gp) {
            Err(e) => Err(e),
            Ok(lat_in) => match write_spec(g, pos_in, tail) {
                Err(e) => Err(e),
                Ok(g3) => match write_spec(g3, lat_in, latent) {
                    Err(e) => Err(e),
                    Ok(g4) => {
                        let ats = bound_paths(frag, "at_frame"@);
                        match write_all(
                            g4,
                            renamed_paths(ats, gp, frag),
                            JsonView::Num(Number::Int(gd.1 as i128)),
                            ats.len() as int,
                        ) {
                            Err(e) => Err(e),
                            Ok(g5) => match media_spec(g5, frag, input, gp, ip, guide_medium(gd.0)) {
                                Err(e) => Err(e),
                                Ok(g6) => match find_key(frag.chain@, "positive_out"@) {
                                    None => Err(
                                        AsmError::Contract(
                                            "guide 片段「"@ + frag.id@ + "」没有 positive_out 端口"@,
                                        ),
                                    ),
                                    Some(p) => Ok((g6, rename_ref(gp, frag, p.model()))),
                                },
                            },
                        }
                    },
                },
            },
        },
    }
}

/// Guide `j` on the chain ending at `tail`: the new graph and the new tail.
pub open spec fn guide_spec(
    g: Entries,
    tail: JsonView,
    set: FragmentSet,
    latent: JsonView,
    guides: Seq<GuideView>,
    j: int,
) -> Result<(Entries, JsonView), AsmError> {
    let gd = guides[j];
    let kind = gd.0;
    match find_key(set.guides@, kind.name()) {
        None => Err(AsmError::Contract("片段库里没有 "@ + kind.name() + " 类 guide 片段"@)),
        Some(frag) => if !frag.verified {
            Err(AsmError::Contract(unverified_text(frag)))
        } else {
            let media = guide_medium(kind);
            match find_key(set.inputs@, media.name()) {
                None => Err(AsmError::Contract("片段库里没有 "@ + media.name() + " 类输入片段"@)),
                Some(input) => if !input.verified {
                    Err(AsmError::Contract(unverified_text(input)))
                } else {
                    let gp = guide_prefix(j);
                    let ip = source_prefix(j);
                    match set_media_spec(spliced(spliced(g, frag, gp), input, ip), input, ip, gd.2) {
                        Err(e) => Err(e),
                        Ok(g2) => guide_wiring(g2, tail, latent, frag, input, gd, j),
                    }
                },
            }
        },
    }
}

/// The first `n` guides, chained from `tail`.
pub open spec fn guides_spec(
    g: Entries,
    tail: JsonView,
    set: FragmentSet,
    latent: JsonView,
    guides: Seq<GuideView>,
    n: int,
) -> Result<(Entries, JsonView), AsmError>
    decreases n,
{
    if n <= 0 || n > guides.len() {
        Ok((g, tail))
    } else {
        match guides_spec(g, tail, set, latent, guides, n - 1) {
            Ok((g1, t1)) => guide_spec(g1, t1, set, latent, guides, n - 1),
            Err(e) => Err(e),
        }
    }
}

proof fn lemma_guides_stops(
    g: Entries,
    tail: JsonView,
    set: FragmentSet,
    latent: JsonView,
    guides: Seq<GuideView>,
    k: int,
    n: int,
)
    requires
        0 <= k <= n <= guides.len(),
        guides_spec(g, tail, set, latent, guides, k) is Err,
    ensures
        guides_spec(g, tail, set, latent, guides, n) == guides_spec(g, tail, set, latent, guides, k),
    decreases n - k,
{
    if n > k {
        lemma_guides_stops(g, tail, set, latent, guides, k, n - 1);
    }
}

/// What the assembly records of guide `j`: `guide/{id}#guide{j+1}`.
pub open spec fn guide_used(set: FragmentSet, guides: Seq<GuideView>, j: int) -> Seq<char> {
    match find_key(set.guides@, guides[j].0.name()) {
        Some(frag) => "guide/"@ + frag.id@ + "#"@ + guide_prefix(j),
        None => Seq::empty(),
    }
}

pub open spec fn guides_used(set: FragmentSet, guides: Seq<GuideView>, n: int) -> Seq<Seq<char>>
    decreases n,
{
    if n <= 0 || n > guides.len() {
        Seq::empty()
    } else {
        guides_used(set, guides, n - 1).push(guide_used(set, guides, n - 1))
    }
}

fn guide_prefix_exec(j: usize) -> (r: String)
    requires
        j < usize::MAX,
    ensures
        r@ == guide_prefix(j as int),
{
    let mut s = String::from_str("guide");
    push_u64(&mut s, (j + 1) as u64);
    s
}

fn media_exec(
    g: &mut Vec<(String, Json)>,
    frag: &Fragment,
    input: &Fragment,
    gp: &str,
    ip: &str,
    media: Medium,
) -> (r: Result<(), StudioError>)
    ensures
        match media_spec(entry_models(old(g)@), *frag, *input, gp@, ip@, media) {
            Ok(g2) => r is Ok && entry_models(final(g)@) == g2,
            Err(a) => r matches Err(e) && error_is(e, a),
        },
{
    match &frag.media_input {
        None => Ok(()),
        Some(mi) => {
            let port = match port_of(input, media) {
                Ok(p) => p,
                Err(e) => {
                    return Err(e);
                },
            };
            let target = rename_path_exec(mi.as_str(), gp, frag);
            write_at(g, target.as_str(), rename_ref_exec(ip, input, &port))
        },
    }
}

fn guide_wiring_exec(
    g: &mut Vec<(String, Json)>,
    tail: Json,
    latent: &Json,
    frag: &Fragment,
    input: &Fragment,
    gd: &crate::assembly::Guide,
    j: usize,
) -> (r: Result<Json, StudioError>)
    requires
        j < usize::MAX,
    ensures
        match guide_wiring(entry_models(old(g)@), tail.model(), latent.model(), *frag, *input, gd@, j as int) {
            Ok((g2, t2)) => r matches Ok(t) && entry_models(final(g)@) == g2 && t.model() == t2,
            Err(a) => r matches Err(e) && error_is(e, a),
        },
{
    let gp = guide_prefix_exec(j);
    let mut ip = guide_prefix_exec(j);
    ip.append("_src");
    let pos_in = match chain_path(frag, "positive_in", gp.as_str()) {
        Ok(p) => p,
        Err(e) => {
            return Err(e);
        },
    };
    let lat_in = match chain_path(frag, "latent_in", gp.as_str()) {
        Ok(p) => p,
        Err(e) => {
            return Err(e);
        },
    };
    match write_at(g, pos_in.as_str(), tail) {
        Ok(()) => {},
        Err(e) => {
            return Err(e);
        },
    }
    match write_at(g, lat_in.as_str(), latent.copy()) {
        Ok(()) => {},
        Err(e) => {
            return Err(e);
        },
    }
    let at = Json::Num(Number::Int(gd.at_frame as i128));
    match get_key(&frag.bindings, "at_frame") {
        Some(ts) => match write_each_renamed(g, ts, gp.as_str(), frag, &at) {
            Ok(()) => {},
            Err(e) => {
                return Err(e);
            },
        },
        None => {
            assert(renamed_paths(Seq::<String>::empty(), gp@, *frag).len() == 0);
        },
    }
    match media_exec(g, frag, input, gp.as_str(), ip.as_str(), guide_medium_exec(gd.kind)) {
        Ok(()) => {},
        Err(e) => {
            return Err(e);
        },
    }
    match get_key(&frag.chain, "positive_out") {
        Some(p) => Ok(rename_ref_exec(gp.as_str(), frag, p)),
        None => {
            let mut d = String::from_str("guide 片段「");
            d.append(frag.id.as_str());
            d.append("」没有 positive_out 端口");
            Err(contract(d))
        },
    }
}

fn guide_exec(
    g: &mut Vec<(String, Json)>,
    used: &mut Vec<String>,
    tail: Json,
    set: &FragmentSet,
    latent: &Json,
    shot: &ShotDeclaration,
    j: usize,
) -> (r: Result<Json, StudioError>)
    requires
        j < shot.guides@.len(),
    ensures
        match guide_spec(entry_models(old(g)@), tail.model(), *set, latent.model(), shot@.guides, j as int) {
            Ok((g2, t2)) => r matches Ok(t) && entry_models(final(g)@) == g2 && t.model() == t2
                && final(used)@.map_values(|u: String| u@) == old(used)@.map_values(|u: String| u@).push(
                guide_used(*set, shot@.guides, j as int),
            ),
            Err(a) => r matches Err(e) && error_is(e, a),
        },
{
    let nguides = shot.guides.len();
    let gd = &shot.guides[j];
    assert(shot@.guides[j as int] == gd@);
    let frag = match get_key(&set.guides, gd.kind.as_str()) {
        Some(f) => f,
        None => {
            let mut d = String::from_str("片段库里没有 ");
            d.append(gd.kind.as_str());
            d.append(" 类 guide 片段");
            return Err(contract(d));
        },
    };
    match require_verified(frag) {
        Ok(()) => {},
        Err(e) => {
            return Err(e);
        },
    }
    let media = guide_medium_exec(gd.kind);
    let input = match get_key(&set.inputs, media.as_str()) {
        Some(f) => f,
        None => {
            let mut d = String::from_str("片段库里没有 ");
            d.append(media.as_str());
            d.append(" 类输入片段");
            return Err(contract(d));
        },
    };
    match require_verified(input) {
        Ok(()) => {},
        Err(e) => {
            return Err(e);
        },
    }
    let gp = guide_prefix_exec(j);
    let mut ip = guide_prefix_exec(j);
    ip.append("_src");
    splice(g, frag, gp.as_str());
    splice(g, input, ip.as_str());
    match set_media(g, input, ip.as_str(), gd.asset_id.as_str()) {
        Ok(()) => {},
        Err(e) => {
            return Err(e);
        },
    }
    let mut u = String::from_str("guide/");
    u.append(frag.id.as_str());
    u.append("#");
    u.append(gp.as_str());
    let ghost before_used = used@;
    used.push(u);
    assert(used@.map_values(|x: String| x@) =~= before_used.map_values(|x: String| x@).push(
        guide_used(*set, shot@.guides, j as int),
    ));
    guide_wiring_exec(g, tail, latent, frag, input, gd, j)
}

/// Every guide in turn, the chain starting at the head's conditioning.
fn guides_exec(
    g: &mut Vec<(String, Json)>,
    used: &mut Vec<String>,
    start: Json,
    set: &FragmentSet,
    latent: &Json,
    shot: &ShotDeclaration,
) -> (r: Result<Json, StudioError>)
    ensures
        match guides_spec(entry_models(old(g)@), start.model(), *set, latent.model(), shot@.guides, shot@.guides.len() as int) {
            Ok((g2, t2)) => r matches Ok(t) && entry_models(final(g)@) == g2 && t.model() == t2
                && final(used)@.map_values(|u: String| u@) == old(used)@.map_values(|u: String| u@)
                + guides_used(*set, shot@.guides, shot@.guides.len() as int),
            Err(a) => r matches Err(e) && error_is(e, a),
        },
{
    let ghost g0 = entry_models(g@);
    let ghost s0 = start.model();
    let ghost u0 = used@.map_values(|u: String| u@);
    let mut tail = start;
    let mut j: usize = 0;
    while j < shot.guides.len()
        invariant
            g0 == entry_models(old(g)@),
            s0 == start.model(),
            u0 == old(used)@.map_values(|u: String| u@),
            j <= shot.guides@.len(),
            shot@.guides.len() == shot.guides@.len(),
            guides_spec(g0, s0, *set, latent.model(), shot@.guides, j as int) == Ok::<
                (Entries, JsonView),
                AsmError,
            >((entry_models(g@), tail.model())),
            used@.map_values(|u: String| u@) == u0 + guides_used(*set, shot@.guides, j as int),
        decreases shot.guides.len() - j,
    {
        let ghost gb = entry_models(g@);
        let ghost tb = tail.model();
        let step = guide_exec(g, used, tail, set, latent, shot, j);
        assert(guides_spec(g0, s0, *set, latent.model(), shot@.guides, j + 1) == guide_spec(
            gb,
            tb,
            *set,
            latent.model(),
            shot@.guides,
            j as int,
        ));
        match step {
            Ok(t) => {
                tail = t;
            },
            Err(e) => {
                proof {
                    lemma_guides_stops(
                        g0,
                        s0,
                        *set,
                        latent.model(),
                        shot@.guides,
                        j + 1,
                        shot@.guides.len() as int,
                    );
                }
                return Err(e);
            },
        }
        assert(used@.map_values(|u: String| u@) =~= u0 + guides_used(*set, shot@.guides, j + 1));
        j = j + 1;
    }
    Ok(tail)
}

// ---------------------------------------------------------------------------
// First and last frames: named slots, not AUTOGROW.

pub open spec fn frame_spec(
    g: Entries,
    set: FragmentSet,
    head: Fragment,
    slot: Seq<char>,
    asset: Option<Seq<char>>,
) -> Result<Entries, AsmError> {
    match asset {
        None => Ok(g),
        Some(a) => match find_key(head.frames@, slot) {
            None => Err(AsmError::Contract("head「"@ + head.id@ + "」没有 "@ + slot + " 帧槽位"@)),
            Some(target) => match find_key(set.inputs@, "image"@) {
                None => Err(AsmError::Contract("片段库里没有 image 输入片段"@)),
                Some(input) => {
                    let prefix = slot + "_frame"@;
                    match set_media_spec(spliced(g, input, prefix), input, prefix, a) {
                        Err(e) => Err(e),
                        Ok(g2) => match port_spec(input, Medium::Image) {
                            Err(e) => Err(e),
                            Ok(port) => write_spec(g2, target@, rename_ref(prefix, input, port)),
                        },
                    }
                },
            },
        },
    }
}

pub open spec fn frame_used(set: FragmentSet, slot: Seq<char>, asset: Option<Seq<char>>) -> Seq<
    Seq<char>,
> {
    match asset {
        None => Seq::empty(),
        Some(_) => match find_key(set.inputs@, "image"@) {
            Some(input) => seq!["input/"@ + input.id@ + "#"@ + slot + "_frame"@],
            None => Seq::empty(),
        },
    }
}

fn frame_exec(
    g: &mut Vec<(String, Json)>,
    used: &mut Vec<String>,
    set: &FragmentSet,
    head: &Fragment,
    slot: &str,
    asset: &Option<String>,
) -> (r: Result<(), StudioError>)
    ensures
        match frame_spec(entry_models(old(g)@), *set, *head, slot@, opt_text(*asset)) {
            Ok(g2) => r is Ok && entry_models(final(g)@) == g2 && final(used)@.map_values(
                |u: String| u@,
            ) == old(used)@.map_values(|u: String| u@) + frame_used(*set, slot@, opt_text(*asset)),
            Err(a) => r matches Err(e) && error_is(e, a),
        },
{
    let ghost u0 = used@.map_values(|u: String| u@);
    let a = match asset {
        None => {
            assert(used@.map_values(|u: String| u@) =~= u0 + Seq::<Seq<char>>::empty());
            return Ok(());
        },
        Some(a) => a,
    };
    let target = match get_key(&head.frames, slot) {
        Some(t) => t,
        None => {
            let mut d = String::from_str("head「");
            d.append(head.id.as_str());
            d.append("」没有 ");
            d.append(slot);
            d.append(" 帧槽位");
            return Err(contract(d));
        },
    };
    let input = match get_key(&set.inputs, "image") {
        Some(f) => f,
        None => {
            return Err(contract(String::from_str("片段库里没有 image 输入片段")));
        },
    };
    let mut prefix = String::from_str(slot);
    prefix.append("_frame");
    splice(g, input, prefix.as_str());
    match set_media(g, input, prefix.as_str(), a.as_str()) {
        Ok(()) => {},
        Err(e) => {
            return Err(e);
        },
    }
    let port = match port_of(input, Medium::Image) {
        Ok(p) => p,
        Err(e) => {
            return Err(e);
        },
    };
    match write_at(g, target.as_str(), rename_ref_exec(prefix.as_str(), input, &port)) {
        Ok(()) => {},
        Err(e) => {
            return Err(e);
        },
    }
    let mut u = String::from_str("input/");
    u.append(input.id.as_str());
    u.append("#");
    u.append(prefix.as_str());
    assert(u@ =~= "input/"@ + input.id@ + "#"@ + slot@ + "_frame"@);
    used.push(u);
    assert(used@.map_values(|x: String| x@) =~= u0 + frame_used(*set, slot@, opt_text(*asset)));
    Ok(())
}


// ---------------------------------------------------------------------------
// Finishing.

/// The first of the first `n` paths that is still empty.
pub open spec fn first_unfilled(g: Entries, paths: Seq<String>, n: int) -> Option<Seq<char>>
    decreases n,
{
    if n <= 0 || n > paths.len() {
        None
    } else {
        match first_unfilled(g, paths, n - 1) {
            Some(p) => Some(p),
            None => if read_spec(g, paths[n - 1]@) is None {
                Some(paths[n - 1]@)
            } else {
                None
            },
        }
    }
}

pub open spec fn unfilled_text(p: Seq<char>) -> Seq<char> {
    "组装完成后 "@ + p + " 仍然是空的——这是骨架要求必填的位置"@
}

/// The three places the backbone leaves open, filled: the guider takes the
/// chain's end, the sampler the head's latent; then every place the backbone
/// marks as required must hold a value. A leftover value would point at a
/// node that no longer exists once the head changes.
pub open spec fn finish_spec(g: Entries, bb: Fragment, tail: JsonView, latent: JsonView) -> Result<
    Entries,
    AsmError,
> {
    match write_spec(g, "guider.inputs.conditioning"@, tail) {
        Err(e) => Err(e),
        Ok(g1) => match write_spec(g1, "sampler.inputs.latent_image"@, latent) {
            Err(e) => Err(e),
            Ok(g2) => match first_unfilled(g2, bb.must_be_filled@, bb.must_be_filled@.len() as int) {
                Some(p) => Err(AsmError::Contract(unfilled_text(p))),
                None => Ok(g2),
            },
        },
    }
}

fn finish_exec(g: &mut Vec<(String, Json)>, bb: &Fragment, tail: Json, latent: Json) -> (r: Result<
    (),
    StudioError,
>)
    ensures
        match finish_spec(entry_models(old(g)@), *bb, tail.model(), latent.model()) {
            Ok(g2) => r is Ok && entry_models(final(g)@) == g2,
            Err(a) => r matches Err(e) && error_is(e, a),
        },
{
    let ghost tm = tail.model();
    let ghost lm = latent.model();
    match write_at(g, "guider.inputs.conditioning", tail) {
        Ok(()) => {},
        Err(e) => {
            return Err(e);
        },
    }
    match write_at(g, "sampler.inputs.latent_image", latent) {
        Ok(()) => {},
        Err(e) => {
            return Err(e);
        },
    }
    let ghost g2 = entry_models(g@);
    let ghost fin = finish_spec(entry_models(old(g)@), *bb, tm, lm);
    assert(fin == match first_unfilled(g2, bb.must_be_filled@, bb.must_be_filled@.len() as int) {
        Some(p) => Err(AsmError::Contract(unfilled_text(p))),
        None => Ok::<Entries, AsmError>(g2),
    });
    let mut i: usize = 0;
    while i < bb.must_be_filled.len()
        invariant
            g2 == entry_models(g@),
            tm == tail.model(),
            lm == latent.model(),
            fin == finish_spec(entry_models(old(g)@), *bb, tm, lm),
            fin == match first_unfilled(g2, bb.must_be_filled@, bb.must_be_filled@.len() as int) {
                Some(p) => Err(AsmError::Contract(unfilled_text(p))),
                None => Ok::<Entries, AsmError>(g2),
            },
            i <= bb.must_be_filled@.len(),
            first_unfilled(g2, bb.must_be_filled@, i as int) is None,
        decreases bb.must_be_filled.len() - i,
    {
        if !is_filled(g, bb.must_be_filled[i].as_str()) {
            proof {
                assert(first_unfilled(g2, bb.must_be_filled@, i + 1) == Some(bb.must_be_filled@[i as int]@));
                lemma_first_unfilled_stays(
                    g2,
                    bb.must_be_filled@,
                    i + 1,
                    bb.must_be_filled@.len() as int,
                );
            }
            let mut d = String::from_str("组装完成后 ");
            d.append(bb.must_be_filled[i].as_str());
            d.append(" 仍然是空的——这是骨架要求必填的位置");
            return Err(contract(d));
        }
        i = i + 1;
    }
    Ok(())
}

proof fn lemma_first_unfilled_stays(g: Entries, paths: Seq<String>, k: int, n: int)
    requires
        0 <= k <= n <= paths.len(),
        first_unfilled(g, paths, k) is Some,
    ensures
        first_unfilled(g, paths, n) == first_unfilled(g, paths, k),
    decreases n - k,
{
    if n > k {
        lemma_first_unfilled_stays(g, paths, k, n - 1);
    }
}

// ---------------------------------------------------------------------------
// The whole assembly.

/// The graph that the backbone and the head make by themselves: the
/// backbone's nodes, the head's overrides of them (weights and scheduler
/// settings that go with the head: contracts found on a real machine, not
/// free choices), the head's nodes, and its wires from the backbone.
pub open spec fn base_spec(bb: Fragment, head: Fragment) -> Result<Entries, AsmError> {
    match write_pairs(
        insert_all(Seq::empty(), bb.nodes@, bb.nodes@.len() as int),
        head.backbone_overrides@,
        head.backbone_overrides@.len() as int,
    ) {
        Ok(g2) => write_pairs(
            insert_all(g2, head.nodes@, head.nodes@.len() as int),
            head.wires_from_backbone@,
            head.wires_from_backbone@.len() as int,
        ),
        Err(e) => Err(e),
    }
}

/// Base, overlay, the shot's values (backbone bindings, then head
/// bindings), and the references.
pub open spec fn front_spec(
    set: FragmentSet,
    bb: Fragment,
    head: Fragment,
    shot: DeclView,
    output_prefix: Seq<char>,
    comb: Combination,
) -> Result<Entries, AsmError> {
    match base_spec(bb, head) {
        Err(e) => Err(e),
        Ok(g4) => match overlay_spec(g4, set, head, comb) {
            Err(e) => Err(e),
            Ok(g5) => match bind_spec(g5, bb.bindings@, shot, output_prefix, bb.bindings@.len() as int) {
                Err(e) => Err(e),
                Ok(g6) => match bind_spec(
                    g6,
                    head.bindings@,
                    shot,
                    output_prefix,
                    head.bindings@.len() as int,
                ) {
                    Err(e) => Err(e),
                    Ok(g7) => refs_spec(g7, set, head, shot.references, shot.references.len() as int),
                },
            },
        },
    }
}

/// The head's ports, the guide chain, the named frames, and the finish.
pub open spec fn back_spec(g: Entries, set: FragmentSet, bb: Fragment, head: Fragment, shot: DeclView) -> Result<
    Entries,
    AsmError,
> {
    match find_key(head.outputs@, "conditioning"@) {
        None => Err(AsmError::Contract("head「"@ + head.id@ + "」没有 conditioning 输出端口"@)),
        Some(cond) => match find_key(head.outputs@, "latent"@) {
            None => Err(AsmError::Contract("head「"@ + head.id@ + "」没有 latent 输出端口"@)),
            Some(lat) => match guides_spec(
                g,
                cond.model(),
                set,
                lat.model(),
                shot.guides,
                shot.guides.len() as int,
            ) {
                Err(e) => Err(e),
                Ok((g9, tail)) => match frame_spec(g9, set, head, "first"@, shot.first_frame) {
                    Err(e) => Err(e),
                    Ok(g10) => match frame_spec(g10, set, head, "last"@, shot.last_frame) {
                        Err(e) => Err(e),
                        Ok(g11) => finish_spec(g11, bb, tail, lat.model()),
                    },
                },
            },
        },
    }
}

pub open spec fn no_head_text(set: FragmentSet, head: Seq<char>) -> Seq<char> {
    "片段库里没有 head「"@ + head + "」。可用的："@ + (if verified_heads_of(set).len() == 0 {
        "（一个都没有）"@
    } else {
        join_seq(verified_heads_of(set), "、"@)
    })
}

/// The graph assembled from a declaration, or the first reason it cannot be.
pub open spec fn assembly_spec(
    set: FragmentSet,
    shot: DeclView,
    output_prefix: Seq<char>,
    comb: Combination,
) -> Result<Entries, AsmError> {
    match set.backbone {
        None => Err(AsmError::Contract("片段库里没有骨架（backbone），无法组装"@)),
        Some(bb) => match find_key(set.heads@, shot.head) {
            None => Err(AsmError::Contract(no_head_text(set, shot.head))),
            Some(head) => if !head.verified {
                Err(AsmError::Contract(unverified_text(head)))
            } else {
                match front_spec(set, bb, head, shot, output_prefix, comb) {
                    Err(e) => Err(e),
                    Ok(g8) => back_spec(g8, set, bb, head, shot),
                }
            },
        },
    }
}

/// What an assembly records it used, in order (on success).
pub open spec fn used_spec(set: FragmentSet, shot: DeclView, comb: Combination) -> Seq<Seq<char>> {
    let bb = set.backbone->0;
    let head = find_key(set.heads@, shot.head)->0;
    seq!["backbone/"@ + bb.id@, "head/"@ + head.id@] + overlay_used(set, head, comb) + refs_used(
        set,
        shot.references,
        shot.references.len() as int,
    ) + guides_used(set, shot.guides, shot.guides.len() as int) + frame_used(
        set,
        "first"@,
        shot.first_frame,
    ) + frame_used(set, "last"@, shot.last_frame)
}

/// What an assembly says it did instead of what was asked (on success).
pub open spec fn notes_spec(set: FragmentSet, shot: DeclView, comb: Combination) -> Seq<Seq<char>> {
    overlay_notes(set, find_key(set.heads@, shot.head)->0, comb)
}

/// The assembled node graph, with a readable record of the assembly.
#[derive(Debug, PartialEq)]
pub struct AssembledGraph {
    pub graph: Json,
    /// The fragments used, in order: a trace of how the graph was put together.
    pub used: Vec<String>,
    /// The fallbacks taken, e.g. an unverified turbo overlay replaced by the
    /// standard combination. Empty when the graph is what was asked for.
    pub notes: Vec<String>,
}

fn front_exec(
    g: &mut Vec<(String, Json)>,
    used: &mut Vec<String>,
    notes: &mut Vec<String>,
    set: &FragmentSet,
    bb: &Fragment,
    head: &Fragment,
    shot: &ShotDeclaration,
    output_prefix: &str,
    comb: Combination,
) -> (r: Result<(), StudioError>)
    requires
        old(g)@.len() == 0,
    ensures
        match front_spec(*set, *bb, *head, shot@, output_prefix@, comb) {
            Ok(g2) => r is Ok && entry_models(final(g)@) == g2 && views_of(final(used)@) == views_of(
                old(used)@,
            ) + overlay_used(*set, *head, comb) + refs_used(
                *set,
                shot@.references,
                shot@.references.len() as int,
            ) && views_of(final(notes)@) == views_of(old(notes)@) + overlay_notes(
                *set,
                *head,
                comb,
            ),
            Err(a) => r matches Err(e) && error_is(e, a),
        },
{
    proof {
        assert(entry_models(g@) =~= Seq::<(Seq<char>, JsonView)>::empty());
    }
    insert_nodes(g, &bb.nodes);
    match write_pairs_exec(g, &head.backbone_overrides) {
        Ok(()) => {},
        Err(e) => {
            return Err(e);
        },
    }
    insert_nodes(g, &head.nodes);
    match write_pairs_exec(g, &head.wires_from_backbone) {
        Ok(()) => {},
        Err(e) => {
            return Err(e);
        },
    }
    let ghost u0 = views_of(used@);
    let ghost n0 = views_of(notes@);
    match overlay_exec(g, used, notes, set, head, comb) {
        Ok(()) => {},
        Err(e) => {
            return Err(e);
        },
    }
    match bind_exec(g, &bb.bindings, shot, output_prefix) {
        Ok(()) => {},
        Err(e) => {
            return Err(e);
        },
    }
    match bind_exec(g, &head.bindings, shot, output_prefix) {
        Ok(()) => {},
        Err(e) => {
            return Err(e);
        },
    }
    let ghost u1 = views_of(used@);
    match refs_exec(g, used, set, head, shot) {
        Ok(()) => {},
        Err(e) => {
            return Err(e);
        },
    }
    proof {
        assert(views_of(used@) =~= u0 + overlay_used(*set, *head, comb) + refs_used(
            *set,
            shot@.references,
            shot@.references.len() as int,
        ));
    }
    Ok(())
}

fn back_exec(
    g: &mut Vec<(String, Json)>,
    used: &mut Vec<String>,
    set: &FragmentSet,
    bb: &Fragment,
    head: &Fragment,
    shot: &ShotDeclaration,
) -> (r: Result<(), StudioError>)
    ensures
        match back_spec(entry_models(old(g)@), *set, *bb, *head, shot@) {
            Ok(g2) => r is Ok && entry_models(final(g)@) == g2 && views_of(final(used)@) == views_of(
                old(used)@,
            ) + guides_used(*set, shot@.guides, shot@.guides.len() as int) + frame_used(
                *set,
                "first"@,
                shot@.first_frame,
            ) + frame_used(*set, "last"@, shot@.last_frame),
            Err(a) => r matches Err(e) && error_is(e, a),
        },
{
    let cond = match get_key(&head.outputs, "conditioning") {
        Some(c) => c.copy(),
        None => {
            let mut d = String::from_str("head「");
            d.append(head.id.as_str());
            d.append("」没有 conditioning 输出端口");
            return Err(contract(d));
        },
    };
    let latent = match get_key(&head.outputs, "latent") {
        Some(c) => c.copy(),
        None => {
            let mut d = String::from_str("head「");
            d.append(head.id.as_str());
            d.append("」没有 latent 输出端口");
            return Err(contract(d));
        },
    };
    let ghost u0 = views_of(used@);
    let tail = match guides_exec(g, used, cond, set, &latent, shot) {
        Ok(t) => t,
        Err(e) => {
            return Err(e);
        },
    };
    match frame_exec(g, used, set, head, "first", &shot.first_frame) {
        Ok(()) => {},
        Err(e) => {
            return Err(e);
        },
    }
    match frame_exec(g, used, set, head, "last", &shot.last_frame) {
        Ok(()) => {},
        Err(e) => {
            return Err(e);
        },
    }
    proof {
        assert(views_of(used@) =~= u0 + guides_used(*set, shot@.guides, shot@.guides.len() as int)
            + frame_used(*set, "first"@, shot@.first_frame) + frame_used(
            *set,
            "last"@,
            shot@.last_frame,
        ));
    }
    finish_exec(g, bb, tail, latent)
}

/// Translates a declaration into a node graph in the given combination.
///
/// `output_prefix` becomes `save_video.filename_prefix`; the caller decides
/// it from the stage and the shot id. Every error is the first one met, in
/// the order the graph is put together.
pub fn assemble_as(
    set: &FragmentSet,
    shot: &ShotDeclaration,
    output_prefix: &str,
    combination: Combination,
) -> (r: Result<AssembledGraph, StudioError>)
    ensures
        match assembly_spec(*set, shot@, output_prefix@, combination) {
            Ok(g) => r matches Ok(a) && a.graph.model() == JsonView::Object(g) && views_of(a.used@)
                == used_spec(*set, shot@, combination) && views_of(a.notes@) == notes_spec(
                *set,
                shot@,
                combination,
            ),
            Err(e) => r matches Err(x) && error_is(x, e),
        },
{
    let bb = match &set.backbone {
        Some(b) => b,
        None => {
            return Err(contract(String::from_str("片段库里没有骨架（backbone），无法组装")));
        },
    };
    let head = match get_key(&set.heads, shot.head.as_str()) {
        Some(h) => h,
        None => {
            let available = set.verified_heads();
            let mut d = String::from_str("片段库里没有 head「");
            d.append(shot.head.as_str());
            d.append("」。可用的：");
            if available.len() == 0 {
                d.append("（一个都没有）");
            } else {
                d.append(join(&available, "、").as_str());
            }
            return Err(contract(d));
        },
    };
    match require_verified(head) {
        Ok(()) => {},
        Err(e) => {
            return Err(e);
        },
    }
    let mut used: Vec<String> = Vec::new();
    let mut u = String::from_str("backbone/");
    u.append(bb.id.as_str());
    used.push(u);
    let mut u = String::from_str("head/");
    u.append(head.id.as_str());
    used.push(u);
    let mut notes: Vec<String> = Vec::new();
    let mut g: Vec<(String, Json)> = Vec::new();
    let ghost u0 = views_of(used@);
    assert(u0 =~= seq!["backbone/"@ + bb.id@, "head/"@ + head.id@]);
    match front_exec(&mut g, &mut used, &mut notes, set, bb, head, shot, output_prefix, combination) {
        Ok(()) => {},
        Err(e) => {
            return Err(e);
        },
    }
    match back_exec(&mut g, &mut used, set, bb, head, shot) {
        Ok(()) => {},
        Err(e) => {
            return Err(e);
        },
    }
    proof {
        assert(views_of(notes@) =~= notes_spec(*set, shot@, combination));
        assert(views_of(used@) =~= used_spec(*set, shot@, combination));
    }
    Ok(AssembledGraph { graph: Json::Object(g), used, notes })
}

/// [`assemble_as`] in the standard combination.
pub fn assemble(set: &FragmentSet, shot: &ShotDeclaration, output_prefix: &str) -> (r: Result<
    AssembledGraph,
    StudioError,
>)
    ensures
        match assembly_spec(*set, shot@, output_prefix@, Combination::Standard) {
            Ok(g) => r matches Ok(a) && a.graph.model() == JsonView::Object(g) && views_of(a.used@)
                == used_spec(*set, shot@, Combination::Standard) && a.notes@.len() == 0,
            Err(e) => r matches Err(x) && error_is(x, e),
        },
{
    assemble_as(set, shot, output_prefix, Combination::Standard)
}

// ---------------------------------------------------------------------------
// Laws.

/// The head a declaration names has no verified turbo overlay.
pub open spec fn no_verified_overlay(set: FragmentSet, head: Seq<char>) -> bool {
    match find_key(set.heads@, head) {
        Some(h) => match find_key(set.overlays@, h.id@) {
            Some(o) => !o.verified,
            None => true,
        },
        None => true,
    }
}

/// A preview asked for without a verified turbo overlay falls back to the
/// standard combination: the same graph, or the same error, as a standard
/// assembly; and on success it says so in a note.
pub proof fn lemma_preview_falls_back(set: FragmentSet, shot: DeclView, output_prefix: Seq<char>)
    requires
        no_verified_overlay(set, shot.head),
    ensures
        assembly_spec(set, shot, output_prefix, Combination::PreviewTurbo) == assembly_spec(
            set,
            shot,
            output_prefix,
            Combination::Standard,
        ),
        assembly_spec(set, shot, output_prefix, Combination::PreviewTurbo) is Ok ==> notes_spec(
            set,
            shot,
            Combination::PreviewTurbo,
        ).len() == 1,
        notes_spec(set, shot, Combination::Standard).len() == 0,
{
    match set.backbone {
        Some(bb) => match find_key(set.heads@, shot.head) {
            Some(head) => {
                match base_spec(bb, head) {
                    Ok(g4) => {
                        assert(overlay_spec(g4, set, head, Combination::PreviewTurbo) == overlay_spec(
                            g4,
                            set,
                            head,
                            Combination::Standard,
                        ));
                    },
                    Err(_) => {},
                }
                assert(front_spec(set, bb, head, shot, output_prefix, Combination::PreviewTurbo)
                    == front_spec(set, bb, head, shot, output_prefix, Combination::Standard));
            },
            None => {},
        },
        None => {},
    }
}

/// In a well-formed set (each fragment filed under its own id), a preview of
/// a head whose overlay, looked up by the head's name, is missing or not
/// verified falls back to the standard combination, with a note.
pub proof fn lemma_preview_falls_back_by_name(set: FragmentSet, shot: DeclView, output_prefix: Seq<char>)
    requires
        set.wf(),
        match find_key(set.overlays@, shot.head) {
            Some(o) => !o.verified,
            None => true,
        },
    ensures
        assembly_spec(set, shot, output_prefix, Combination::PreviewTurbo) == assembly_spec(
            set,
            shot,
            output_prefix,
            Combination::Standard,
        ),
        assembly_spec(set, shot, output_prefix, Combination::PreviewTurbo) is Ok ==> notes_spec(
            set,
            shot,
            Combination::PreviewTurbo,
        ).len() == 1,
{
    crate::fragment::lemma_find_key_witness(set.heads@, shot.head);
    match find_key(set.heads@, shot.head) {
        Some(h) => {
            let i = choose|i: int|
                0 <= i < set.heads@.len() && (#[trigger] set.heads@[i]).0@ == shot.head && set.heads@[i].1 == h;
            assert(set.heads@[i].0@ == set.heads@[i].1.id@);
            assert(h.id@ == shot.head);
        },
        None => {},
    }
    assert(no_verified_overlay(set, shot.head));
    lemma_preview_falls_back(set, shot, output_prefix);
}

proof fn lemma_all_filled(g: Entries, paths: Seq<String>, n: int)
    requires
        0 <= n <= paths.len(),
        first_unfilled(g, paths, n) is None,
    ensures
        forall|k: int| 0 <= k < n ==> read_spec(g, (#[trigger] paths[k])@) is Some,
    decreases n,
{
    if n > 0 {
        lemma_all_filled(g, paths, n - 1);
    }
}

proof fn lemma_finish_fills(g: Entries, bb: Fragment, tail: JsonView, latent: JsonView)
    requires
        finish_spec(g, bb, tail, latent) is Ok,
    ensures
        forall|k: int|
            0 <= k < bb.must_be_filled@.len() ==> read_spec(
                finish_spec(g, bb, tail, latent)->Ok_0,
                (#[trigger] bb.must_be_filled@[k])@,
            ) is Some,
{
    let g1 = write_spec(g, "guider.inputs.conditioning"@, tail)->Ok_0;
    let g2 = write_spec(g1, "sampler.inputs.latent_image"@, latent)->Ok_0;
    assert(finish_spec(g, bb, tail, latent) == Ok::<Entries, AsmError>(g2));
    lemma_all_filled(g2, bb.must_be_filled@, bb.must_be_filled@.len() as int);
}

/// An assembled graph holds a value at every place the backbone marks as
/// required.
pub proof fn lemma_required_places_filled(
    set: FragmentSet,
    shot: DeclView,
    output_prefix: Seq<char>,
    comb: Combination,
)
    requires
        assembly_spec(set, shot, output_prefix, comb) is Ok,
    ensures
        forall|k: int|
            0 <= k < set.backbone->0.must_be_filled@.len() ==> read_spec(
                assembly_spec(set, shot, output_prefix, comb)->Ok_0,
                (#[trigger] set.backbone->0.must_be_filled@[k])@,
            ) is Some,
{
    let bb = set.backbone->0;
    let head = find_key(set.heads@, shot.head)->0;
    let g8 = front_spec(set, bb, head, shot, output_prefix, comb)->Ok_0;
    let cond = find_key(head.outputs@, "conditioning"@)->0;
    let lat = find_key(head.outputs@, "latent"@)->0;
    let gt = guides_spec(g8, cond.model(), set, lat.model(), shot.guides, shot.guides.len() as int)->Ok_0;
    let g10 = frame_spec(gt.0, set, head, "first"@, shot.first_frame)->Ok_0;
    let g11 = frame_spec(g10, set, head, "last"@, shot.last_frame)->Ok_0;
    assert(assembly_spec(set, shot, output_prefix, comb) == finish_spec(g11, bb, gt.1, lat.model()));
    lemma_finish_fills(g11, bb, gt.1, lat.model());
}

} // verus!
