//! Reading a fragment file (already parsed as JSON) into a [`Fragment`], and
//! filing fragments into a [`FragmentSet`].
//!
//! A fragment file is part of a node graph plus one `_studio` block of
//! metadata. This is a pure transformation: reading the file is the caller's
//! business, so the format can be checked without a fragment directory.
use vstd::prelude::*;
use crate::assembly::{
    find_key, get_key, verified_heads_of, AutogrowSlot, Fragment, FragmentSet,
};
use crate::cards::{dedup, strings_in};
use crate::error::StudioError;
use crate::json::{lookup, Json, JsonView, Number};
use crate::json_text::{json_of_raw, json_text_document, json_text_error, parse_json_text};
use crate::order::{sort_strings, sorted_texts};
use crate::text::{str_eq, views_of};

verus! {

broadcast use vstd::string::group_string_axioms;

/// The role of a fragment in an assembly, from `_studio.kind`.
#[derive(Debug, Clone, Copy, PartialEq, Eq, PartialOrd, Ord, Structural)]
pub enum FragmentKind {
    Backbone,
    Head,
    Guide,
    Input,
    /// An optional layer over the backbone; for now only the preview turbo LoRA.
    Overlay,
}

pub open spec fn kind_named(s: Seq<char>) -> Option<FragmentKind> {
    if s == "backbone"@ {
        Some(FragmentKind::Backbone)
    } else if s == "head"@ {
        Some(FragmentKind::Head)
    } else if s == "guide"@ {
        Some(FragmentKind::Guide)
    } else if s == "input"@ {
        Some(FragmentKind::Input)
    } else if s == "overlay"@ {
        Some(FragmentKind::Overlay)
    } else {
        None
    }
}

impl FragmentKind {
    fn parse(s: &str) -> (r: Option<FragmentKind>)
        ensures
            r == kind_named(s@),
    {
        if str_eq(s, "backbone") {
            Some(FragmentKind::Backbone)
        } else if str_eq(s, "head") {
            Some(FragmentKind::Head)
        } else if str_eq(s, "guide") {
            Some(FragmentKind::Guide)
        } else if str_eq(s, "input") {
            Some(FragmentKind::Input)
        } else if str_eq(s, "overlay") {
            Some(FragmentKind::Overlay)
        } else {
            None
        }
    }
}

// ---------------------------------------------------------------------------
// What a fragment file says.

/// The entries of a value when it is an object; nothing otherwise.
pub open spec fn entries_of(v: Option<Json>) -> Seq<(String, Json)> {
    match v {
        Some(Json::Object(e)) => e@,
        _ => Seq::empty(),
    }
}

pub open spec fn str_at(entries: Seq<(String, Json)>, key: Seq<char>) -> Option<Seq<char>> {
    match lookup(entries, key) {
        Some(v) => v.str_of(),
        None => None,
    }
}

pub open spec fn bool_at(entries: Seq<(String, Json)>, key: Seq<char>) -> Option<bool> {
    match lookup(entries, key) {
        Some(v) => v.bool_of(),
        None => None,
    }
}

/// The first `n` entries whose key is not `key`.
pub open spec fn without_key(entries: Seq<(String, Json)>, key: Seq<char>, n: int) -> Seq<
    (String, Json),
>
    decreases n,
{
    if n <= 0 || n > entries.len() {
        Seq::empty()
    } else {
        let rest = without_key(entries, key, n - 1);
        if entries[n - 1].0@ == key {
            rest
        } else {
            rest.push(entries[n - 1])
        }
    }
}

/// The strings of an array; nothing when it is not one.
pub open spec fn string_list(v: Json) -> Seq<Seq<char>> {
    match v {
        Json::Array(a) => strings_in(a@, a@.len() as int),
        _ => Seq::empty(),
    }
}

/// `bindings`: each key with the strings of its array.
pub open spec fn string_lists(entries: Seq<(String, Json)>) -> Seq<(Seq<char>, Seq<Seq<char>>)> {
    entries.map_values(|e: (String, Json)| (e.0@, string_list(e.1)))
}

/// `frames`: the entries whose value is a string, among the first `n`.
pub open spec fn string_entries(entries: Seq<(String, Json)>, n: int) -> Seq<
    (Seq<char>, Seq<char>),
>
    decreases n,
{
    if n <= 0 || n > entries.len() {
        Seq::empty()
    } else {
        let rest = string_entries(entries, n - 1);
        match entries[n - 1].1.str_of() {
            Some(s) => rest.push((entries[n - 1].0@, s)),
            None => rest,
        }
    }
}

/// An AUTOGROW slot as plain values: target, prefix, max, verified, reason.
pub type SlotView = (Seq<char>, Seq<char>, usize, bool, Option<Seq<char>>);

pub open spec fn slot_view(s: AutogrowSlot) -> SlotView {
    (
        s.target@,
        s.prefix@,
        s.max,
        s.verified,
        match s.unverified_reason {
            Some(r) => Some(r@),
            None => None,
        },
    )
}

/// A slot description read from the file: target, prefix and max are
/// required; an unflagged slot counts as verified.
pub open spec fn slot_of(v: Json) -> Option<SlotView> {
    match v {
        Json::Object(e) => {
            let e = e@;
            match (str_at(e, "target"@), str_at(e, "prefix"@), lookup(e, "max"@)) {
                (Some(t), Some(p), Some(Json::Num(Number::Int(m)))) => if 0 <= m
                    <= 0xffff_ffff_ffff_ffff {
                    Some(
                        (
                            t,
                            p,
                            (m as u64) as usize,
                            match bool_at(e, "verified"@) {
                                Some(b) => b,
                                None => true,
                            },
                            str_at(e, "unverified_reason"@),
                        ),
                    )
                } else {
                    None
                },
                _ => None,
            }
        },
        _ => None,
    }
}

/// `autogrow`: the well-described slots among the first `n` entries.
pub open spec fn slots_of(entries: Seq<(String, Json)>, n: int) -> Seq<(Seq<char>, SlotView)>
    decreases n,
{
    if n <= 0 || n > entries.len() {
        Seq::empty()
    } else {
        let rest = slots_of(entries, n - 1);
        match slot_of(entries[n - 1].1) {
            Some(s) => rest.push((entries[n - 1].0@, s)),
            None => rest,
        }
    }
}

/// Whether a port `[node, index]` names a node of the fragment.
pub open spec fn port_in(port: Json, nodes: Seq<(String, Json)>) -> bool {
    match port {
        Json::Array(a) => a@.len() > 0 && match a@[0] {
            Json::Str(n) => lookup(nodes, n@) is Some,
            _ => false,
        },
        _ => false,
    }
}

/// The name of the first port among the first `n` that names no node.
pub open spec fn first_bad_port(ports: Seq<(String, Json)>, nodes: Seq<(String, Json)>, n: int) -> Option<
    Seq<char>,
>
    decreases n,
{
    if n <= 0 || n > ports.len() {
        None
    } else {
        match first_bad_port(ports, nodes, n - 1) {
            Some(name) => Some(name),
            None => if port_in(ports[n - 1].1, nodes) {
                None
            } else {
                Some(ports[n - 1].0@)
            },
        }
    }
}

/// What the file's metadata block says, when the document is an object with one.
pub open spec fn meta_entries(doc: Json) -> Seq<(String, Json)> {
    match doc {
        Json::Object(e) => entries_of(lookup(e@, "_studio"@)),
        _ => Seq::empty(),
    }
}

pub open spec fn doc_nodes(doc: Json) -> Seq<(String, Json)> {
    match doc {
        Json::Object(e) => without_key(e@, "_studio"@, e@.len() as int),
        _ => Seq::empty(),
    }
}

pub open spec fn parse_failure(doc: Json, where_: Seq<char>) -> Option<Seq<char>> {
    let head = "片段 "@ + where_;
    match doc {
        Json::Object(e) => match lookup(e@, "_studio"@) {
            Some(Json::Object(m)) => {
                let m = m@;
                let nodes = doc_nodes(doc);
                match str_at(m, "kind"@) {
                    Some(k) => match kind_named(k) {
                        Some(kind) => match str_at(m, "id"@) {
                            Some(_) => if nodes.len() == 0 {
                                Some(head + " 一个节点都没有"@)
                            } else {
                                let ports = entries_of(lookup(m, "outputs"@));
                                match first_bad_port(ports, nodes, ports.len() as int) {
                                    Some(name) => Some(
                                        head + " 的 outputs."@ + name + " 指向的节点不在这份片段里"@,
                                    ),
                                    None => match lookup(
                                        entries_of(lookup(m, "chain"@)),
                                        "positive_out"@,
                                    ) {
                                        Some(p) => if port_in(p, nodes) {
                                            None
                                        } else {
                                            Some(
                                                head
                                                    + " 的 chain.positive_out 指向的节点不在这份片段里"@,
                                            )
                                        },
                                        None => None,
                                    },
                                }
                            },
                            None => Some(head + " 缺 _studio.id"@),
                        },
                        None => Some(
                            head
                                + " 的 _studio.kind 缺失或不认识，只接受 backbone / head / guide / input"@,
                        ),
                    },
                    None => Some(
                        head + " 的 _studio.kind 缺失或不认识，只接受 backbone / head / guide / input"@,
                    ),
                }
            },
            _ => Some(head + " 缺 _studio 元数据块"@),
        },
        _ => Some(head + " 顶层必须是对象"@),
    }
}

/// Every port of `ports` names a node of the fragment.
pub proof fn lemma_first_bad_port_none(ports: Seq<(String, Json)>, nodes: Seq<(String, Json)>, n: int)
    requires
        0 <= n <= ports.len(),
    ensures
        first_bad_port(ports, nodes, n) is None <==> forall|i: int| 0 <= i < n ==> port_in(#[trigger] ports[i].1, nodes),
    decreases n,
{
    if n > 0 {
        lemma_first_bad_port_none(ports, nodes, n - 1);
    }
}

/// A fragment file is accepted exactly when it is an object with an
/// object `_studio` whose `kind` is one of the fragment kinds and whose
/// `id` is a string, it has at least one node besides `_studio`, every
/// `outputs` port and `chain.positive_out` (when present) is
/// `[<a node of it>, ..]`.
pub proof fn lemma_fragment_accepted_iff(doc: Json, where_: Seq<char>)
    ensures
        parse_failure(doc, where_) is None <==> ({
            &&& doc is Object
            &&& meta_of(doc) is Some
            &&& doc_kind(doc) is Some
            &&& str_at(meta_entries(doc), "id"@) is Some
            &&& doc_nodes(doc).len() > 0
            &&& forall|i: int|
                0 <= i < entries_of(lookup(meta_entries(doc), "outputs"@)).len() ==> port_in(
                    #[trigger] entries_of(lookup(meta_entries(doc), "outputs"@))[i].1,
                    doc_nodes(doc),
                )
            &&& match lookup(entries_of(lookup(meta_entries(doc), "chain"@)), "positive_out"@) {
                Some(p) => port_in(p, doc_nodes(doc)),
                None => true,
            }
        }),
{
    let ports = entries_of(lookup(meta_entries(doc), "outputs"@));
    lemma_first_bad_port_none(ports, doc_nodes(doc), ports.len() as int);
}

/// The `_studio` block, when it is an object.
pub open spec fn meta_of(doc: Json) -> Option<Seq<(String, Json)>> {
    match doc {
        Json::Object(e) => match lookup(e@, "_studio"@) {
            Some(Json::Object(m)) => Some(m@),
            _ => None,
        },
        _ => None,
    }
}

/// The kind a well-formed file declares.
pub open spec fn doc_kind(doc: Json) -> Option<FragmentKind> {
    match str_at(meta_entries(doc), "kind"@) {
        Some(k) => kind_named(k),
        None => None,
    }
}

pub open spec fn binding_views(b: Seq<(String, Vec<String>)>) -> Seq<(Seq<char>, Seq<Seq<char>>)> {
    b.map_values(|e: (String, Vec<String>)| (e.0@, views_of(e.1@)))
}

pub open spec fn slot_views(s: Seq<(String, AutogrowSlot)>) -> Seq<(Seq<char>, SlotView)> {
    s.map_values(|e: (String, AutogrowSlot)| (e.0@, slot_view(e.1)))
}

pub open spec fn pair_texts(s: Seq<(String, String)>) -> Seq<(Seq<char>, Seq<char>)> {
    s.map_values(|e: (String, String)| (e.0@, e.1@))
}

pub open spec fn opt_view(o: Option<String>) -> Option<Seq<char>> {
    match o {
        Some(s) => Some(s@),
        None => None,
    }
}

/// The fragment is what the (well-formed) file says.
pub open spec fn fragment_of(f: Fragment, doc: Json) -> bool {
    let m = meta_entries(doc);
    let outputs = entries_of(lookup(m, "outputs"@));
    let is_input = doc_kind(doc) == Some(FragmentKind::Input);
    &&& Some(f.id@) == str_at(m, "id"@)
    &&& f.nodes@ == doc_nodes(doc)
    &&& f.verified == (bool_at(m, "bindings_verified"@) == Some(true))
    &&& opt_view(f.unavailable_reason) == str_at(m, "unavailable_reason"@)
    &&& binding_views(f.bindings@) == string_lists(entries_of(lookup(m, "bindings"@)))
    &&& f.backbone_overrides@ == entries_of(lookup(m, "backbone_overrides"@))
    &&& f.wires_from_backbone@ == entries_of(lookup(m, "wires_from_backbone"@))
    &&& f.chain@ == entries_of(lookup(m, "chain"@))
    &&& opt_view(f.media_input) == str_at(m, "media_input"@)
    &&& pair_texts(f.frames@) == {
        let fe = entries_of(lookup(m, "frames"@));
        string_entries(fe, fe.len() as int)
    }
    &&& views_of(f.must_be_filled@) == match lookup(m, "must_be_filled"@) {
        Some(v) => string_list(v),
        None => Seq::empty(),
    }
    &&& slot_views(f.autogrow@) == {
        let ae = entries_of(lookup(m, "autogrow"@));
        slots_of(ae, ae.len() as int)
    }
    &&& f.outputs@ == if is_input {
        Seq::empty()
    } else {
        outputs
    }
    &&& f.input_outputs@ == if is_input {
        outputs
    } else {
        Seq::empty()
    }
}

// ---------------------------------------------------------------------------
// Reading a fragment.

/// The position of the first entry under `key`.
fn index_of_key(entries: &Vec<(String, Json)>, key: &str) -> (r: Option<usize>)
    ensures
        r matches Some(i) ==> i < entries@.len() && entries@[i as int].0@ == key@ && lookup(
            entries@,
            key@,
        ) == Some(entries@[i as int].1) && forall|j: int| 0 <= j < i ==> entries@[j].0@ != key@,
        r is None ==> lookup(entries@, key@) is None,
{
    let mut i: usize = 0;
    while i < entries.len()
        invariant
            i <= entries@.len(),
            forall|j: int| 0 <= j < i ==> entries@[j].0@ != key@,
        decreases entries.len() - i,
    {
        if str_eq(entries[i].0.as_str(), key) {
            proof {
                crate::json::lemma_lookup_first(entries@, key@, i as int);
            }
            return Some(i);
        }
        i = i + 1;
    }
    proof {
        crate::json::lemma_lookup_absent(entries@, key@);
    }
    None
}

proof fn lemma_lookup_remove(entries: Seq<(String, Json)>, i: int, key: Seq<char>, k: Seq<char>)
    requires
        0 <= i < entries.len(),
        entries[i].0@ == key,
        forall|j: int| 0 <= j < i ==> entries[j].0@ != key,
        k != key,
    ensures
        lookup(entries.remove(i), k) == lookup(entries, k),
    decreases i,
{
    if i > 0 {
        if entries[0].0@ != k {
            lemma_lookup_remove(entries.drop_first(), i - 1, key, k);
            assert(entries.remove(i).drop_first() =~= entries.drop_first().remove(i - 1));
        }
    } else {
        assert(entries.remove(0) =~= entries.drop_first());
    }
}

/// Takes the first value under `key` out of the entries.
fn take_key(entries: &mut Vec<(String, Json)>, key: &str) -> (r: Option<Json>)
    ensures
        r == lookup(old(entries)@, key@),
        forall|k: Seq<char>| k != key@ ==> #[trigger] lookup(final(entries)@, k) == lookup(
            old(entries)@,
            k,
        ),
{
    match index_of_key(entries, key) {
        Some(i) => {
            let ghost before = entries@;
            let e = entries.remove(i);
            proof {
                assert forall|k: Seq<char>| k != key@ implies #[trigger] lookup(entries@, k) == lookup(
                    before,
                    k,
                ) by {
                    lemma_lookup_remove(before, i as int, key@, k);
                }
            }
            Some(e.1)
        },
        None => None,
    }
}

/// The entries of an object value, moved out; nothing for another value.
fn into_entries(v: Option<Json>) -> (r: Vec<(String, Json)>)
    ensures
        r@ == entries_of(v),
{
    match v {
        Some(Json::Object(e)) => e,
        _ => Vec::new(),
    }
}

fn str_at_exec<'a>(entries: &'a Vec<(String, Json)>, key: &str) -> (r: Option<&'a str>)
    ensures
        r matches Some(s) ==> str_at(entries@, key@) == Some(s@),
        r is None ==> str_at(entries@, key@) is None,
{
    match index_of_key(entries, key) {
        Some(i) => entries[i].1.as_str(),
        None => None,
    }
}

fn bool_at_exec(entries: &Vec<(String, Json)>, key: &str) -> (r: Option<bool>)
    ensures
        r == bool_at(entries@, key@),
{
    match index_of_key(entries, key) {
        Some(i) => entries[i].1.as_bool(),
        None => None,
    }
}

fn owned_opt(s: Option<&str>) -> (r: Option<String>)
    ensures
        opt_view(r) == match s {
            Some(x) => Some(x@),
            None => None::<Seq<char>>,
        },
{
    match s {
        Some(x) => Some(String::from_str(x)),
        None => None,
    }
}

/// The entries whose key is not `key`, moved out in order.
fn drain_without(v: Vec<(String, Json)>, key: &str) -> (r: Vec<(String, Json)>)
    ensures
        r@ == without_key(v@, key@, v@.len() as int),
{
    let ghost orig = v@;
    let n = v.len();
    let mut v = v;
    let mut out: Vec<(String, Json)> = Vec::new();
    let mut i: usize = 0;
    while v.len() > 0
        invariant
            n == orig.len(),
            i <= orig.len(),
            v@ == orig.subrange(i as int, orig.len() as int),
            out@ == without_key(orig, key@, i as int),
        decreases v.len(),
    {
        let e = v.remove(0);
        assert(e == orig[i as int]);
        if !str_eq(e.0.as_str(), key) {
            out.push(e);
        }
        i = i + 1;
        assert(v@ =~= orig.subrange(i as int, orig.len() as int));
    }
    out
}

fn strings_of(v: &Json) -> (r: Vec<String>)
    ensures
        views_of(r@) == string_list(*v),
{
    let mut out: Vec<String> = Vec::new();
    match v {
        Json::Array(a) => {
            let mut k: usize = 0;
            while k < a.len()
                invariant
                    k <= a@.len(),
                    views_of(out@) == strings_in(a@, k as int),
                decreases a.len() - k,
            {
                let ghost prev = views_of(out@);
                match a[k].as_str() {
                    Some(x) => {
                        out.push(String::from_str(x));
                        assert(views_of(out@) =~= prev.push(x@));
                    },
                    None => {},
                }
                k = k + 1;
            }
        },
        _ => {
            assert(views_of(out@) =~= Seq::<Seq<char>>::empty());
        },
    }
    out
}

fn string_lists_exec(entries: &Vec<(String, Json)>) -> (r: Vec<(String, Vec<String>)>)
    ensures
        binding_views(r@) == string_lists(entries@),
{
    let mut out: Vec<(String, Vec<String>)> = Vec::new();
    let mut k: usize = 0;
    while k < entries.len()
        invariant
            k <= entries@.len(),
            binding_views(out@) == string_lists(entries@.subrange(0, k as int)),
        decreases entries.len() - k,
    {
        let ghost prev = binding_views(out@);
        let list = strings_of(&entries[k].1);
        out.push((entries[k].0.clone(), list));
        assert(binding_views(out@) =~= prev.push((entries@[k as int].0@, string_list(entries@[k as int].1))));
        k = k + 1;
        assert(binding_views(out@) =~= string_lists(entries@.subrange(0, k as int)));
    }
    assert(entries@.subrange(0, entries@.len() as int) =~= entries@);
    out
}

fn string_entries_exec(entries: &Vec<(String, Json)>) -> (r: Vec<(String, String)>)
    ensures
        pair_texts(r@) == string_entries(entries@, entries@.len() as int),
{
    let mut out: Vec<(String, String)> = Vec::new();
    let mut k: usize = 0;
    while k < entries.len()
        invariant
            k <= entries@.len(),
            pair_texts(out@) == string_entries(entries@, k as int),
        decreases entries.len() - k,
    {
        let ghost prev = pair_texts(out@);
        match entries[k].1.as_str() {
            Some(x) => {
                out.push((entries[k].0.clone(), String::from_str(x)));
                assert(pair_texts(out@) =~= prev.push((entries@[k as int].0@, x@)));
            },
            None => {},
        }
        k = k + 1;
    }
    out
}

fn slot_exec(v: &Json) -> (r: Option<AutogrowSlot>)
    ensures
        r matches Some(s) ==> slot_of(*v) == Some(slot_view(s)),
        r is None ==> slot_of(*v) is None,
{
    let e = match v {
        Json::Object(e) => e,
        _ => return None,
    };
    let target = match str_at_exec(e, "target") {
        Some(t) => t,
        None => return None,
    };
    let prefix = match str_at_exec(e, "prefix") {
        Some(p) => p,
        None => return None,
    };
    let max = match index_of_key(e, "max") {
        Some(i) => match &e[i].1 {
            Json::Num(Number::Int(m)) => {
                if 0 <= *m && *m <= 0xffff_ffff_ffff_ffff {
                    (*m as u64) as usize
                } else {
                    return None;
                }
            },
            _ => return None,
        },
        None => return None,
    };
    let verified = match bool_at_exec(e, "verified") {
        Some(b) => b,
        None => true,
    };
    let reason = owned_opt(str_at_exec(e, "unverified_reason"));
    Some(
        AutogrowSlot {
            target: String::from_str(target),
            prefix: String::from_str(prefix),
            max,
            verified,
            unverified_reason: reason,
        },
    )
}

fn slots_exec(entries: &Vec<(String, Json)>) -> (r: Vec<(String, AutogrowSlot)>)
    ensures
        slot_views(r@) == slots_of(entries@, entries@.len() as int),
{
    let mut out: Vec<(String, AutogrowSlot)> = Vec::new();
    let mut k: usize = 0;
    while k < entries.len()
        invariant
            k <= entries@.len(),
            slot_views(out@) == slots_of(entries@, k as int),
        decreases entries.len() - k,
    {
        let ghost prev = slot_views(out@);
        match slot_exec(&entries[k].1) {
            Some(slot) => {
                let ghost sv = slot_view(slot);
                out.push((entries[k].0.clone(), slot));
                assert(slot_views(out@) =~= prev.push((entries@[k as int].0@, sv)));
            },
            None => {},
        }
        k = k + 1;
    }
    out
}

fn port_in_exec(port: &Json, nodes: &Vec<(String, Json)>) -> (r: bool)
    ensures
        r == port_in(*port, nodes@),
{
    match port {
        Json::Array(a) => {
            if a.len() == 0 {
                return false;
            }
            match &a[0] {
                Json::Str(n) => index_of_key(nodes, n.as_str()).is_some(),
                _ => false,
            }
        },
        _ => false,
    }
}

fn first_bad_port_exec<'a>(ports: &'a Vec<(String, Json)>, nodes: &Vec<(String, Json)>) -> (r:
    Option<&'a String>)
    ensures
        r matches Some(n) ==> first_bad_port(ports@, nodes@, ports@.len() as int) == Some(n@),
        r is None ==> first_bad_port(ports@, nodes@, ports@.len() as int) is None,
{
    let mut k: usize = 0;
    while k < ports.len()
        invariant
            k <= ports@.len(),
            first_bad_port(ports@, nodes@, k as int) is None,
        decreases ports.len() - k,
    {
        if !port_in_exec(&ports[k].1, nodes) {
            proof {
                lemma_first_bad_port_stays(ports@, nodes@, k + 1);
            }
            return Some(&ports[k].0);
        }
        k = k + 1;
    }
    None
}

proof fn lemma_first_bad_port_stays(ports: Seq<(String, Json)>, nodes: Seq<(String, Json)>, n: int)
    requires
        0 < n <= ports.len(),
        first_bad_port(ports, nodes, n) is Some,
    ensures
        first_bad_port(ports, nodes, ports.len() as int) == first_bad_port(ports, nodes, n),
    decreases ports.len() - n,
{
    if n < ports.len() {
        lemma_first_bad_port_stays(ports, nodes, n + 1);
    }
}

fn fail(where_: &str, tail: &str) -> (e: StudioError)
    ensures
        e is ModelContractViolation,
        e->ModelContractViolation_detail@ == "片段 "@ + where_@ + tail@,
{
    let mut d = String::from_str("片段 ");
    d.append(where_);
    d.append(tail);
    StudioError::ModelContractViolation { detail: d }
}

/// Why a fragment file's text gives no fragment, or the document it gives:
/// not JSON (with `serde_json`'s message), a number the library cannot
/// hold, or the parsed document.
pub open spec fn text_outcome(text: Seq<char>, where_: Seq<char>) -> Result<JsonView, Seq<char>> {
    match json_text_document(text) {
        None => Err("片段 "@ + where_ + " 不是合法 JSON："@ + json_text_error(text)),
        Some(d) => match json_of_raw(d) {
            Some(j) => Ok(j),
            None => Err("片段 "@ + where_ + " 里有超出可表示范围的数值"@),
        },
    }
}

impl Fragment {
    /// Reads a fragment from its file's text. `where_` names the file in
    /// error messages. Text that is not JSON is refused with `serde_json`'s
    /// message; otherwise the document is read as `parse` reads it.
    pub fn parse_text(text: &str, where_: &str) -> (r: Result<(FragmentKind, Fragment), StudioError>)
        ensures
            match text_outcome(text@, where_@) {
                Err(detail) => r matches Err(e) && e is ModelContractViolation
                    && e->ModelContractViolation_detail@ == detail,
                Ok(jv) => exists|doc: Json|
                    #![trigger doc.model()]
                    doc.model() == jv && match r {
                        Ok((k, f)) => parse_failure(doc, where_@) is None && doc_kind(doc) == Some(k)
                            && fragment_of(f, doc),
                        Err(e) => e is ModelContractViolation && parse_failure(doc, where_@) == Some(
                            e->ModelContractViolation_detail@,
                        ),
                    },
            },
    {
        match parse_json_text(text) {
            Err(m) => {
                let mut tail = String::from_str(" 不是合法 JSON：");
                tail.append(m.as_str());
                Err(fail(where_, tail.as_str()))
            },
            Ok(raw) => match Json::from_raw(&raw) {
                None => Err(fail(where_, " 里有超出可表示范围的数值")),
                Some(doc) => {
                    let ghost d = doc;
                    let r = Fragment::parse(doc, where_);
                    assert(d.model() == text_outcome(text@, where_@)->Ok_0);
                    r
                },
            },
        }
    }
}

impl Fragment {
    /// Reads a fragment from its file, already parsed as JSON. `where_`
    /// names the file in error messages.
    pub fn parse(doc: Json, where_: &str) -> (r: Result<(FragmentKind, Fragment), StudioError>)
        ensures
            match r {
                Ok((k, f)) => parse_failure(doc, where_@) is None && doc_kind(doc) == Some(k)
                    && fragment_of(f, doc),
                Err(e) => e is ModelContractViolation && parse_failure(doc, where_@) == Some(
                    e->ModelContractViolation_detail@,
                ),
            },
    {
        let ghost d = doc;
        let mut entries = match doc {
            Json::Object(e) => e,
            _ => return Err(fail(where_, " 顶层必须是对象")),
        };
        let ghost top = entries@;
        let idx = match index_of_key(&entries, "_studio") {
            Some(i) => i,
            None => return Err(fail(where_, " 缺 _studio 元数据块")),
        };
        let kind_id = match &entries[idx].1 {
            Json::Object(m) => {
                let kind = match str_at_exec(m, "kind") {
                    Some(k) => match FragmentKind::parse(k) {
                        Some(kind) => kind,
                        None => return Err(
                            fail(
                                where_,
                                " 的 _studio.kind 缺失或不认识，只接受 backbone / head / guide / input",
                            ),
                        ),
                    },
                    None => return Err(
                        fail(
                            where_,
                            " 的 _studio.kind 缺失或不认识，只接受 backbone / head / guide / input",
                        ),
                    ),
                };
                match str_at_exec(m, "id") {
                    Some(id) => (kind, String::from_str(id)),
                    None => return Err(fail(where_, " 缺 _studio.id")),
                }
            },
            _ => return Err(fail(where_, " 缺 _studio 元数据块")),
        };
        let (kind, id) = kind_id;
        let meta_pair = entries.remove(idx);
        proof {
            assert forall|j: int| 0 <= j < top.len() implies without_key(top, "_studio"@, j)
                == without_key(top.remove(idx as int), "_studio"@, if j <= idx {
                j
            } else {
                j - 1
            }) by {
                lemma_without_removed(top, idx as int, j);
            }
            lemma_without_removed(top, idx as int, top.len() as int);
        }
        let nodes = drain_without(entries, "_studio");
        assert(nodes@ == doc_nodes(d));
        let mut m = match meta_pair.1 {
            Json::Object(m) => m,
            _ => return Err(fail(where_, " 缺 _studio 元数据块")),
        };
        let ghost meta = m@;
        assert(meta == meta_entries(d));
        if nodes.len() == 0 {
            return Err(fail(where_, " 一个节点都没有"));
        }
        let verified = match bool_at_exec(&m, "bindings_verified") {
            Some(b) => b,
            None => false,
        };
        let reason = owned_opt(str_at_exec(&m, "unavailable_reason"));
        let media_input = owned_opt(str_at_exec(&m, "media_input"));
        let bindings = match index_of_key(&m, "bindings") {
            Some(i) => match &m[i].1 {
                Json::Object(b) => string_lists_exec(b),
                _ => Vec::new(),
            },
            None => Vec::new(),
        };
        assert(binding_views(bindings@) =~= string_lists(entries_of(lookup(meta, "bindings"@))));
        let frames = match index_of_key(&m, "frames") {
            Some(i) => match &m[i].1 {
                Json::Object(f) => string_entries_exec(f),
                _ => Vec::new(),
            },
            None => Vec::new(),
        };
        assert(pair_texts(frames@) =~= {
            let fe = entries_of(lookup(meta, "frames"@));
            string_entries(fe, fe.len() as int)
        });
        let must_be_filled = match index_of_key(&m, "must_be_filled") {
            Some(i) => strings_of(&m[i].1),
            None => Vec::new(),
        };
        assert(views_of(must_be_filled@) =~= match lookup(meta, "must_be_filled"@) {
            Some(v) => string_list(v),
            None => Seq::empty(),
        });
        let autogrow = match index_of_key(&m, "autogrow") {
            Some(i) => match &m[i].1 {
                Json::Object(a) => slots_exec(a),
                _ => Vec::new(),
            },
            None => Vec::new(),
        };
        assert(slot_views(autogrow@) =~= {
            let ae = entries_of(lookup(meta, "autogrow"@));
            slots_of(ae, ae.len() as int)
        });
        let outputs = into_entries(take_key(&mut m, "outputs"));
        let backbone_overrides = into_entries(take_key(&mut m, "backbone_overrides"));
        let wires_from_backbone = into_entries(take_key(&mut m, "wires_from_backbone"));
        let chain = into_entries(take_key(&mut m, "chain"));
        proof {
            reveal_strlit("outputs");
            reveal_strlit("backbone_overrides");
            reveal_strlit("wires_from_backbone");
            reveal_strlit("chain");
            assert("outputs"@.len() == 7);
            assert("backbone_overrides"@.len() == 18);
            assert("wires_from_backbone"@.len() == 19);
            assert("chain"@.len() == 5);
            assert(outputs@ == entries_of(lookup(meta, "outputs"@)));
            assert(backbone_overrides@ == entries_of(lookup(meta, "backbone_overrides"@)));
            assert(wires_from_backbone@ == entries_of(lookup(meta, "wires_from_backbone"@)));
            assert(chain@ == entries_of(lookup(meta, "chain"@)));
        }
        match first_bad_port_exec(&outputs, &nodes) {
            Some(name) => {
                let mut d = String::from_str("片段 ");
                d.append(where_);
                d.append(" 的 outputs.");
                d.append(name.as_str());
                d.append(" 指向的节点不在这份片段里");
                return Err(StudioError::ModelContractViolation { detail: d });
            },
            None => {},
        }
        match index_of_key(&chain, "positive_out") {
            Some(i) => {
                if !port_in_exec(&chain[i].1, &nodes) {
                    return Err(fail(where_, " 的 chain.positive_out 指向的节点不在这份片段里"));
                }
            },
            None => {},
        }
        let is_input = match kind {
            FragmentKind::Input => true,
            _ => false,
        };
        let (outputs, input_outputs) = if is_input {
            (Vec::new(), outputs)
        } else {
            (outputs, Vec::new())
        };
        let frag = Fragment {
            id,
            nodes,
            verified,
            unavailable_reason: reason,
            bindings,
            backbone_overrides,
            outputs,
            wires_from_backbone,
            autogrow,
            frames,
            chain,
            media_input,
            input_outputs,
            must_be_filled,
        };
        Ok((kind, frag))
    }
}

proof fn lemma_without_removed(entries: Seq<(String, Json)>, idx: int, j: int)
    requires
        0 <= idx < entries.len(),
        entries[idx].0@ == "_studio"@,
        0 <= j <= entries.len(),
    ensures
        without_key(entries, "_studio"@, j) == without_key(
            entries.remove(idx),
            "_studio"@,
            if j <= idx {
                j
            } else {
                j - 1
            },
        ),
    decreases j,
{
    if j > 0 {
        lemma_without_removed(entries, idx, j - 1);
        if j - 1 > idx {
            assert(entries.remove(idx)[j - 2] == entries[j - 1]);
        } else if j - 1 < idx {
            assert(entries.remove(idx)[j - 1] == entries[j - 1]);
        }
    }
}

// ---------------------------------------------------------------------------
// Filing fragments.

/// A keyed list after putting `frag` under its id: that key now gives the
/// fragment, and every other key gives what it gave before.
pub open spec fn filed(before: Seq<(String, Fragment)>, after: Seq<(String, Fragment)>, frag: Fragment) -> bool {
    &&& find_key(after, frag.id@) == Some(frag)
    &&& forall|k: Seq<char>| k != frag.id@ ==> #[trigger] find_key(after, k) == find_key(before, k)
}

proof fn lemma_find_key_update(entries: Seq<(String, Fragment)>, i: int, e: (String, Fragment), k: Seq<char>)
    requires
        0 <= i < entries.len(),
        entries[i].0@ == e.0@,
        forall|j: int| 0 <= j < i ==> entries[j].0@ != e.0@,
    ensures
        k == e.0@ ==> find_key(entries.update(i, e), k) == Some(e.1),
        k != e.0@ ==> find_key(entries.update(i, e), k) == find_key(entries, k),
    decreases i,
{
    assert(entries.update(i, e)[0] == if i == 0 {
        e
    } else {
        entries[0]
    });
    if i > 0 {
        assert(entries.update(i, e).drop_first() =~= entries.drop_first().update(i - 1, e));
        assert forall|j: int| 0 <= j < i - 1 implies (#[trigger] entries.drop_first()[j]).0@ != e.0@ by {
            assert(entries.drop_first()[j] == entries[j + 1]);
        }
        lemma_find_key_update(entries.drop_first(), i - 1, e, k);
    } else {
        assert(entries.update(0, e).drop_first() =~= entries.drop_first());
    }
}

proof fn lemma_find_key_push(entries: Seq<(String, Fragment)>, e: (String, Fragment), k: Seq<char>)
    requires
        find_key(entries, e.0@) is None,
    ensures
        k == e.0@ ==> find_key(entries.push(e), k) == Some(e.1),
        k != e.0@ ==> find_key(entries.push(e), k) == find_key(entries, k),
    decreases entries.len(),
{
    let p = entries.push(e);
    if entries.len() > 0 {
        assert(p.drop_first() =~= entries.drop_first().push(e));
        assert(p[0] == entries[0]);
        assert(entries[0].0@ != e.0@);
        lemma_find_key_push(entries.drop_first(), e, k);
        if k != e.0@ {
            if entries[0].0@ == k {
                assert(find_key(p, k) == Some(entries[0].1));
            } else {
                assert(find_key(p, k) == find_key(p.drop_first(), k));
                assert(find_key(entries, k) == find_key(entries.drop_first(), k));
            }
        }
    } else {
        assert(p.drop_first() =~= Seq::<(String, Fragment)>::empty());
        assert(p[0] == e);
        if k != e.0@ {
            assert(find_key(p, k) == find_key(p.drop_first(), k));
            assert(find_key(p.drop_first(), k) is None);
        }
    }
}

proof fn lemma_find_key_scan(entries: Seq<(String, Fragment)>, key: Seq<char>, i: int)
    requires
        0 <= i <= entries.len(),
        forall|j: int| 0 <= j < i ==> (#[trigger] entries[j]).0@ != key,
    ensures
        i == entries.len() ==> find_key(entries, key) is None,
    decreases i,
{
    if i > 0 && i == entries.len() {
        assert forall|j: int| 0 <= j < i - 1 implies (#[trigger] entries.drop_first()[j]).0@ != key by {
            assert(entries.drop_first()[j] == entries[j + 1]);
        }
        lemma_find_key_scan(entries.drop_first(), key, i - 1);
    }
}

/// No two entries share a key: the list is a map.
pub open spec fn keys_unique(entries: Seq<(String, Fragment)>) -> bool {
    forall|i: int, j: int|
        0 <= i < j < entries.len() ==> (#[trigger] entries[i]).0@ != (#[trigger] entries[j]).0@
}

/// Each fragment is filed under its own id.
pub open spec fn keyed_by_id(entries: Seq<(String, Fragment)>) -> bool {
    forall|i: int| 0 <= i < entries.len() ==> (#[trigger] entries[i]).0@ == entries[i].1.id@
}

/// What a lookup finds is an entry under that key.
pub proof fn lemma_find_key_witness(entries: Seq<(String, Fragment)>, key: Seq<char>)
    ensures
        find_key(entries, key) matches Some(v) ==> exists|i: int|
            0 <= i < entries.len() && (#[trigger] entries[i]).0@ == key && entries[i].1 == v,
    decreases entries.len(),
{
    if entries.len() > 0 {
        if entries[0].0@ != key {
            lemma_find_key_witness(entries.drop_first(), key);
            match find_key(entries, key) {
                Some(v) => {
                    let i = choose|i: int|
                        0 <= i < entries.drop_first().len() && (#[trigger] entries.drop_first()[i]).0@
                            == key && entries.drop_first()[i].1 == v;
                    assert(entries[i + 1] == entries.drop_first()[i]);
                },
                None => {},
            }
        }
    }
}

/// With unique keys, the lookup finds a key's entry wherever it stands.
pub proof fn lemma_unique_lookup(entries: Seq<(String, Fragment)>, i: int)
    requires
        keys_unique(entries),
        0 <= i < entries.len(),
    ensures
        find_key(entries, entries[i].0@) == Some(entries[i].1),
{
    assert forall|j: int| 0 <= j < i implies (#[trigger] entries[j]).0@ != entries[i].0@ by {}
    lemma_find_key_at(entries, entries[i].0@, i);
}

proof fn lemma_find_key_at(entries: Seq<(String, Fragment)>, key: Seq<char>, i: int)
    requires
        0 <= i < entries.len(),
        entries[i].0@ == key,
        forall|j: int| 0 <= j < i ==> (#[trigger] entries[j]).0@ != key,
    ensures
        find_key(entries, key) == Some(entries[i].1),
    decreases i,
{
    if i > 0 {
        assert forall|j: int| 0 <= j < i - 1 implies (#[trigger] entries.drop_first()[j]).0@ != key by {
            assert(entries.drop_first()[j] == entries[j + 1]);
        }
        lemma_find_key_at(entries.drop_first(), key, i - 1);
    }
}

impl FragmentSet {
    /// Each of the set's lists is a map, each fragment filed once under
    /// its own id: heads by head id, guides by guide kind, inputs by medium,
    /// overlays by the id of the head they speed up.
    pub open spec fn wf(self) -> bool {
        &&& keys_unique(self.heads@) && keyed_by_id(self.heads@)
        &&& keys_unique(self.guides@) && keyed_by_id(self.guides@)
        &&& keys_unique(self.inputs@) && keyed_by_id(self.inputs@)
        &&& keys_unique(self.overlays@) && keyed_by_id(self.overlays@)
    }
}

fn file_under_id(m: &mut Vec<(String, Fragment)>, frag: Fragment)
    requires
        keys_unique(old(m)@),
        keyed_by_id(old(m)@),
    ensures
        filed(old(m)@, final(m)@, frag),
        keys_unique(final(m)@),
        keyed_by_id(final(m)@),
{
    let ghost before = m@;
    let ghost f = frag;
    let mut i: usize = 0;
    while i < m.len() && !str_eq(m[i].0.as_str(), frag.id.as_str())
        invariant
            m@ == before,
            i <= m@.len(),
            forall|j: int| 0 <= j < i ==> (#[trigger] m@[j]).0@ != frag.id@,
        decreases m.len() - i,
    {
        i = i + 1;
    }
    let key = frag.id.clone();
    if i < m.len() {
        m.set(i, (key, frag));
        proof {
            assert(before.update(i as int, m@[i as int]) =~= m@);
            assert(forall|j: int| 0 <= j < m@.len() ==> (#[trigger] m@[j]).0@ == before[j].0@);
            assert forall|k: Seq<char>| k != f.id@ implies #[trigger] find_key(m@, k) == find_key(
                before,
                k,
            ) by {
                lemma_find_key_update(before, i as int, m@[i as int], k);
            }
            lemma_find_key_update(before, i as int, m@[i as int], f.id@);
        }
    } else {
        proof {
            lemma_find_key_scan(before, f.id@, i as int);
        }
        m.push((key, frag));
        proof {
            assert(before.push(m@[before.len() as int]) =~= m@);
            assert(forall|j: int| 0 <= j < before.len() ==> (#[trigger] m@[j]) == before[j]);
            assert forall|k: Seq<char>| k != f.id@ implies #[trigger] find_key(m@, k) == find_key(
                before,
                k,
            ) by {
                lemma_find_key_push(before, m@[before.len() as int], k);
            }
            lemma_find_key_push(before, m@[before.len() as int], f.id@);
        }
    }
}

/// The parameter names that a set of fragments binds, before sorting: the
/// backbone's, then each head's, in order, without `output_prefix`.
pub open spec fn binding_keys(b: Seq<(String, Vec<String>)>, n: int) -> Seq<Seq<char>>
    decreases n,
{
    if n <= 0 || n > b.len() {
        Seq::empty()
    } else {
        let rest = binding_keys(b, n - 1);
        if b[n - 1].0@ == "output_prefix"@ {
            rest
        } else {
            rest.push(b[n - 1].0@)
        }
    }
}

pub open spec fn heads_keys(heads: Seq<(String, Fragment)>, n: int) -> Seq<Seq<char>>
    decreases n,
{
    if n <= 0 || n > heads.len() {
        Seq::empty()
    } else {
        let b = heads[n - 1].1.bindings@;
        heads_keys(heads, n - 1) + binding_keys(b, b.len() as int)
    }
}

pub open spec fn param_keys(set: FragmentSet) -> Seq<Seq<char>> {
    (match set.backbone {
        Some(f) => binding_keys(f.bindings@, f.bindings@.len() as int),
        None => Seq::empty(),
    }) + heads_keys(set.heads@, set.heads@.len() as int)
}

fn push_binding_keys(b: &Vec<(String, Vec<String>)>, out: &mut Vec<String>)
    ensures
        views_of(final(out)@) == views_of(old(out)@) + binding_keys(b@, b@.len() as int),
{
    let ghost start = views_of(out@);
    let mut k: usize = 0;
    while k < b.len()
        invariant
            k <= b@.len(),
            views_of(out@) == start + binding_keys(b@, k as int),
        decreases b.len() - k,
    {
        let ghost prev = views_of(out@);
        if !str_eq(b[k].0.as_str(), "output_prefix") {
            out.push(b[k].0.clone());
            assert(views_of(out@) =~= prev.push(b@[k as int].0@));
        }
        k = k + 1;
        assert(views_of(out@) =~= start + binding_keys(b@, k as int));
    }
}

fn dedup_strings(v: &Vec<String>) -> (r: Vec<String>)
    ensures
        views_of(r@) == dedup(views_of(v@)),
{
    crate::cards::dedup_strings(v)
}

impl FragmentSet {
    /// Files a parsed fragment under its kind.
    pub fn insert(&mut self, kind: FragmentKind, frag: Fragment)
        requires
            old(self).wf(),
        ensures
            final(self).wf(),
            kind == FragmentKind::Backbone ==> final(self).backbone == Some(frag) && final(self).heads
                == old(self).heads && final(self).guides == old(self).guides && final(self).inputs
                == old(self).inputs && final(self).overlays == old(self).overlays,
            kind == FragmentKind::Head ==> filed(old(self).heads@, final(self).heads@, frag)
                && final(self).backbone == old(self).backbone && final(self).guides == old(self).guides
                && final(self).inputs == old(self).inputs && final(self).overlays == old(self).overlays,
            kind == FragmentKind::Guide ==> filed(old(self).guides@, final(self).guides@, frag)
                && final(self).backbone == old(self).backbone && final(self).heads == old(self).heads
                && final(self).inputs == old(self).inputs && final(self).overlays == old(self).overlays,
            kind == FragmentKind::Input ==> filed(old(self).inputs@, final(self).inputs@, frag)
                && final(self).backbone == old(self).backbone && final(self).heads == old(self).heads
                && final(self).guides == old(self).guides && final(self).overlays == old(self).overlays,
            kind == FragmentKind::Overlay ==> filed(old(self).overlays@, final(self).overlays@, frag)
                && final(self).backbone == old(self).backbone && final(self).heads == old(self).heads
                && final(self).guides == old(self).guides && final(self).inputs == old(self).inputs,
    {
        match kind {
            FragmentKind::Backbone => {
                self.backbone = Some(frag);
            },
            FragmentKind::Head => file_under_id(&mut self.heads, frag),
            FragmentKind::Guide => file_under_id(&mut self.guides, frag),
            FragmentKind::Input => file_under_id(&mut self.inputs, frag),
            FragmentKind::Overlay => file_under_id(&mut self.overlays, frag),
        }
    }

    /// The per-shot parameter names this library takes: the `bindings` keys
    /// of the backbone and the heads, sorted, without repeats and without
    /// `output_prefix` (which the control plane decides).
    pub fn shot_params(&self) -> (r: Vec<String>)
        ensures
            views_of(r@) == dedup(sorted_texts(param_keys(*self))),
    {
        let mut out: Vec<String> = Vec::new();
        match &self.backbone {
            Some(f) => push_binding_keys(&f.bindings, &mut out),
            None => {},
        }
        let ghost mid = views_of(out@);
        let mut i: usize = 0;
        while i < self.heads.len()
            invariant
                i <= self.heads@.len(),
                views_of(out@) == mid + heads_keys(self.heads@, i as int),
            decreases self.heads.len() - i,
        {
            push_binding_keys(&self.heads[i].1.bindings, &mut out);
            i = i + 1;
            assert(views_of(out@) =~= mid + heads_keys(self.heads@, i as int));
        }
        assert(views_of(out@) =~= param_keys(*self));
        let sorted = sort_strings(out);
        dedup_strings(&sorted)
    }

    /// The family can run: it has a backbone and at least one verified head.
    pub fn is_usable(&self) -> (r: bool)
        ensures
            r == (self.backbone is Some && verified_heads_of(*self).len() > 0),
    {
        let heads = self.verified_heads();
        self.backbone.is_some() && heads.len() > 0
    }
}

} // verus!
