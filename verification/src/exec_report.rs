//! The execution report: how the deterministic stages ran.
//!
//! It is a report of its own beside the session report because its readers
//! differ: the session report follows the collaboration (stages, revisions,
//! going around MCP); this one follows throughput (which shot ran on which
//! node, how long the GPU took, which post step was slow). Its data are the
//! records the control plane's execution thread writes step by step.
use vstd::prelude::*;
use crate::cards::{dedup, dedup_strings};
use crate::order::{pair_leq, pair_views, sort_pairs, sort_strings, sorted_texts};
use crate::rollout::as_set;
use crate::text::{dec_nat, join, join_seq, pad_end, pad_start, push_pad_end, push_pad_start, push_u64, str_eq, u64_to_string, views_of};

verus! {

broadcast use vstd::string::group_string_axioms;

/// One step the control plane ran.
#[derive(Debug, Clone, PartialEq)]
pub struct ExecRecord {
    pub at: String,
    pub stage: String,
    pub step: String,
    pub shot_id: Option<String>,
    pub node: Option<String>,
    pub prompt_id: Option<String>,
    pub duration_ms: u64,
    pub ok: bool,
    pub error_code: Option<String>,
    /// The step's extra details in key order, each value written as compact JSON.
    pub extra: Vec<(String, String)>,
}

/// One shot's time, split into its four steps.
#[derive(Debug, Clone, PartialEq)]
pub struct ShotRow {
    pub shot_id: String,
    pub node: Option<String>,
    pub prompt_id: Option<String>,
    /// Picking the node.
    pub pick_ms: u64,
    /// Submitting the graph.
    pub submit_ms: u64,
    /// Queueing and GPU rendering: usually the bulk of the pipeline.
    pub render_ms: u64,
    /// Downloading the product.
    pub download_ms: u64,
    pub total_ms: u64,
    pub ok: bool,
    pub error_code: Option<String>,
}

/// What one node rendered.
#[derive(Debug, Clone, PartialEq)]
pub struct NodeLoad {
    pub node: String,
    pub shots: usize,
    pub render_ms: u64,
}

/// One kind of step of one stage.
#[derive(Debug, Clone, PartialEq)]
pub struct StepRow {
    pub stage: String,
    pub step: String,
    pub calls: usize,
    pub total_ms: u64,
    pub ok: bool,
    pub detail: Option<String>,
}

/// The execution report of a bundle.
#[derive(Debug, Clone, PartialEq)]
pub struct Report {
    pub generated_at: String,
    pub bundle: String,
    pub has_data: bool,
    pub total_ms: u64,
    pub render_ms: u64,
    pub post_ms: u64,
    pub review_ms: u64,
    /// By shot id.
    pub shots: Vec<ShotRow>,
    /// The nodes that rendered, the busiest first.
    pub nodes: Vec<NodeLoad>,
    /// The slowest first.
    pub steps: Vec<StepRow>,
    pub failures: Vec<ExecRecord>,
    /// Parallelism: over how many nodes the shots were spread.
    pub nodes_used: usize,
    pub passed: bool,
}

// ---------------------------------------------------------------------------
// Plain values.

pub open spec fn opt_text(o: Option<String>) -> Option<Seq<char>> {
    match o {
        Some(s) => Some(s@),
        None => None,
    }
}

/// A record as plain values.
#[verifier::ext_equal]
pub struct ExecView {
    pub at: Seq<char>,
    pub stage: Seq<char>,
    pub step: Seq<char>,
    pub shot_id: Option<Seq<char>>,
    pub node: Option<Seq<char>>,
    pub prompt_id: Option<Seq<char>>,
    pub duration_ms: nat,
    pub ok: bool,
    pub error_code: Option<Seq<char>>,
    pub extra: Seq<(Seq<char>, Seq<char>)>,
}

impl View for ExecRecord {
    type V = ExecView;

    open spec fn view(&self) -> ExecView {
        ExecView {
            at: self.at@,
            stage: self.stage@,
            step: self.step@,
            shot_id: opt_text(self.shot_id),
            node: opt_text(self.node),
            prompt_id: opt_text(self.prompt_id),
            duration_ms: self.duration_ms as nat,
            ok: self.ok,
            error_code: opt_text(self.error_code),
            extra: pair_views(self.extra@),
        }
    }
}

pub open spec fn exec_views(v: Seq<ExecRecord>) -> Seq<ExecView> {
    v.map_values(|r: ExecRecord| r@)
}

/// A shot row as plain values.
#[verifier::ext_equal]
pub struct ShotView {
    pub shot_id: Seq<char>,
    pub node: Option<Seq<char>>,
    pub prompt_id: Option<Seq<char>>,
    pub pick_ms: int,
    pub submit_ms: int,
    pub render_ms: int,
    pub download_ms: int,
    pub total_ms: int,
    pub ok: bool,
    pub error_code: Option<Seq<char>>,
}

impl ShotRow {
    pub open spec fn view_of(self) -> ShotView {
        ShotView {
            shot_id: self.shot_id@,
            node: opt_text(self.node),
            prompt_id: opt_text(self.prompt_id),
            pick_ms: self.pick_ms as int,
            submit_ms: self.submit_ms as int,
            render_ms: self.render_ms as int,
            download_ms: self.download_ms as int,
            total_ms: self.total_ms as int,
            ok: self.ok,
            error_code: opt_text(self.error_code),
        }
    }
}

pub open spec fn shot_views(v: Seq<ShotRow>) -> Seq<ShotView> {
    v.map_values(|x: ShotRow| x.view_of())
}

/// A node load as plain values: node, shots, render time.
pub type NodeView = (Seq<char>, nat, int);

impl NodeLoad {
    pub open spec fn view_of(self) -> NodeView {
        (self.node@, self.shots as nat, self.render_ms as int)
    }
}

pub open spec fn node_views(v: Seq<NodeLoad>) -> Seq<NodeView> {
    v.map_values(|x: NodeLoad| x.view_of())
}

/// A step row as plain values.
#[verifier::ext_equal]
pub struct StepView {
    pub stage: Seq<char>,
    pub step: Seq<char>,
    pub calls: nat,
    pub total_ms: int,
    pub ok: bool,
    pub detail: Option<Seq<char>>,
}

impl StepRow {
    pub open spec fn view_of(self) -> StepView {
        StepView {
            stage: self.stage@,
            step: self.step@,
            calls: self.calls as nat,
            total_ms: self.total_ms as int,
            ok: self.ok,
            detail: opt_text(self.detail),
        }
    }
}

pub open spec fn step_views(v: Seq<StepRow>) -> Seq<StepView> {
    v.map_values(|x: StepRow| x.view_of())
}

// ---------------------------------------------------------------------------
// What the report says of the records.

/// The time of the first `n` records.
pub open spec fn dur_sum(rs: Seq<ExecView>, n: int) -> int
    decreases n,
{
    if n <= 0 || n > rs.len() {
        0
    } else {
        dur_sum(rs, n - 1) + rs[n - 1].duration_ms
    }
}

/// The time of the first `n` records of stage `s`.
pub open spec fn stage_sum(rs: Seq<ExecView>, s: Seq<char>, n: int) -> int
    decreases n,
{
    if n <= 0 || n > rs.len() {
        0
    } else {
        stage_sum(rs, s, n - 1) + (if rs[n - 1].stage == s {
            rs[n - 1].duration_ms as int
        } else {
            0
        })
    }
}

/// The shot ids the first `n` records name, in order.
pub open spec fn shot_ids(rs: Seq<ExecView>, n: int) -> Seq<Seq<char>>
    decreases n,
{
    if n <= 0 || n > rs.len() {
        Seq::empty()
    } else {
        match rs[n - 1].shot_id {
            Some(k) => shot_ids(rs, n - 1).push(k),
            None => shot_ids(rs, n - 1),
        }
    }
}

/// The nodes the first `n` records name, in order.
pub open spec fn node_ids(rs: Seq<ExecView>, n: int) -> Seq<Seq<char>>
    decreases n,
{
    if n <= 0 || n > rs.len() {
        Seq::empty()
    } else {
        match rs[n - 1].node {
            Some(k) => node_ids(rs, n - 1).push(k),
            None => node_ids(rs, n - 1),
        }
    }
}

/// `d` when the step is `name`, else nothing.
pub open spec fn if_step(r: ExecView, name: Seq<char>) -> int {
    if r.step == name {
        r.duration_ms as int
    } else {
        0
    }
}

/// The row of shot `k` after the first `n` records: each step's time added
/// up, the node and prompt last named, the error code of the last failure.
pub open spec fn shot_row(rs: Seq<ExecView>, k: Seq<char>, n: int) -> ShotView
    decreases n,
{
    if n <= 0 || n > rs.len() {
        ShotView {
            shot_id: k,
            node: None,
            prompt_id: None,
            pick_ms: 0,
            submit_ms: 0,
            render_ms: 0,
            download_ms: 0,
            total_ms: 0,
            ok: true,
            error_code: None,
        }
    } else {
        let p = shot_row(rs, k, n - 1);
        let r = rs[n - 1];
        if r.shot_id == Some(k) {
            ShotView {
                shot_id: k,
                node: if r.node is Some {
                    r.node
                } else {
                    p.node
                },
                prompt_id: if r.prompt_id is Some {
                    r.prompt_id
                } else {
                    p.prompt_id
                },
                pick_ms: p.pick_ms + if_step(r, "pick_node"@),
                submit_ms: p.submit_ms + if_step(r, "submit"@),
                render_ms: p.render_ms + if_step(r, "render"@),
                download_ms: p.download_ms + if_step(r, "download"@),
                total_ms: p.total_ms + r.duration_ms,
                ok: p.ok && r.ok,
                error_code: if !r.ok {
                    r.error_code
                } else {
                    p.error_code
                },
            }
        } else {
            p
        }
    }
}

/// Every shot's row, by shot id.
pub open spec fn shot_rows(rs: Seq<ExecView>) -> Seq<ShotView> {
    as_set(shot_ids(rs, rs.len() as int)).map_values(|k: Seq<char>| shot_row(rs, k, rs.len() as int))
}

/// What node `k` rendered among the first `n` records: its `render` steps.
pub open spec fn node_load(rs: Seq<ExecView>, k: Seq<char>, n: int) -> NodeView
    decreases n,
{
    if n <= 0 || n > rs.len() {
        (k, 0, 0)
    } else {
        let p = node_load(rs, k, n - 1);
        let r = rs[n - 1];
        if r.node == Some(k) && r.step == "render"@ {
            (k, p.1 + 1, p.2 + r.duration_ms)
        } else {
            p
        }
    }
}

/// The loads of the nodes that rendered something.
pub open spec fn busy(s: Seq<NodeView>) -> Seq<NodeView>
    decreases s.len(),
{
    if s.len() == 0 {
        s
    } else if s.last().1 > 0 {
        busy(s.drop_last()).push(s.last())
    } else {
        busy(s.drop_last())
    }
}

/// Puts `x` after every load that rendered at least as long.
pub open spec fn insert_node(s: Seq<NodeView>, x: NodeView) -> Seq<NodeView>
    decreases s.len(),
{
    if s.len() == 0 {
        seq![x]
    } else if s.last().2 >= x.2 {
        s.push(x)
    } else {
        insert_node(s.drop_last(), x).push(s.last())
    }
}

/// Sorted by descending render time; equal times keep their order.
pub open spec fn sort_nodes(s: Seq<NodeView>) -> Seq<NodeView>
    decreases s.len(),
{
    if s.len() == 0 {
        s
    } else {
        insert_node(sort_nodes(s.drop_last()), s.last())
    }
}

/// The busy nodes by descending render time, ties by node name.
pub open spec fn node_rows(rs: Seq<ExecView>) -> Seq<NodeView> {
    sort_nodes(
        busy(
            as_set(node_ids(rs, rs.len() as int)).map_values(
                |k: Seq<char>| node_load(rs, k, rs.len() as int),
            ),
        ),
    )
}

/// `k=v` of every detail, separated by spaces.
pub open spec fn extra_text(e: Seq<(Seq<char>, Seq<char>)>) -> Seq<char> {
    join_seq(e.map_values(|kv: (Seq<char>, Seq<char>)| kv.0 + "="@ + kv.1), " "@)
}

/// Drops the repeats of a sorted sequence.
pub open spec fn dedup_pairs(s: Seq<(Seq<char>, Seq<char>)>) -> Seq<(Seq<char>, Seq<char>)>
    decreases s.len(),
{
    if s.len() <= 1 {
        s
    } else {
        let r = dedup_pairs(s.drop_last());
        if s.last() == s[s.len() - 2] {
            r
        } else {
            r.push(s.last())
        }
    }
}

/// The distinct `(stage, step)` pairs, in the order of `(String, String)`.
pub open spec fn step_keys(rs: Seq<ExecView>) -> Seq<(Seq<char>, Seq<char>)> {
    dedup_pairs(
        rs.map_values(|r: ExecView| (r.stage, r.step)).sort_by(pair_leq()),
    )
}

/// The row of step `k` after the first `n` records; the detail is that of
/// the first record of the step that has details.
pub open spec fn step_row(rs: Seq<ExecView>, k: (Seq<char>, Seq<char>), n: int) -> StepView
    decreases n,
{
    if n <= 0 || n > rs.len() {
        StepView { stage: k.0, step: k.1, calls: 0, total_ms: 0, ok: true, detail: None }
    } else {
        let p = step_row(rs, k, n - 1);
        let r = rs[n - 1];
        if r.stage == k.0 && r.step == k.1 {
            StepView {
                stage: k.0,
                step: k.1,
                calls: p.calls + 1,
                total_ms: p.total_ms + r.duration_ms,
                ok: p.ok && r.ok,
                detail: if p.detail is None && r.extra.len() > 0 {
                    Some(extra_text(r.extra))
                } else {
                    p.detail
                },
            }
        } else {
            p
        }
    }
}

/// Puts `x` after every step that took at least as long.
pub open spec fn insert_step(s: Seq<StepView>, x: StepView) -> Seq<StepView>
    decreases s.len(),
{
    if s.len() == 0 {
        seq![x]
    } else if s.last().total_ms >= x.total_ms {
        s.push(x)
    } else {
        insert_step(s.drop_last(), x).push(s.last())
    }
}

/// Sorted by descending time; equal times keep their order.
pub open spec fn sort_steps(s: Seq<StepView>) -> Seq<StepView>
    decreases s.len(),
{
    if s.len() == 0 {
        s
    } else {
        insert_step(sort_steps(s.drop_last()), s.last())
    }
}

/// Every step, the slowest first, ties in `(stage, step)` order.
pub open spec fn step_rows(rs: Seq<ExecView>) -> Seq<StepView> {
    sort_steps(
        step_keys(rs).map_values(
            |k: (Seq<char>, Seq<char>)| step_row(rs, k, rs.len() as int),
        ),
    )
}

/// The failed records, in order.
pub open spec fn failures(rs: Seq<ExecView>) -> Seq<ExecView>
    decreases rs.len(),
{
    if rs.len() == 0 {
        rs
    } else if !rs.last().ok {
        failures(rs.drop_last()).push(rs.last())
    } else {
        failures(rs.drop_last())
    }
}

// ---------------------------------------------------------------------------
// Bounds.

proof fn lemma_dur_sum_mono(rs: Seq<ExecView>, m: int, n: int)
    requires
        0 <= m <= n <= rs.len(),
    ensures
        0 <= dur_sum(rs, m) <= dur_sum(rs, n),
    decreases n,
{
    if n > m {
        lemma_dur_sum_mono(rs, m, n - 1);
    } else if n > 0 {
        lemma_dur_sum_mono(rs, 0, n - 1);
    }
}

proof fn lemma_stage_sum_bound(rs: Seq<ExecView>, s: Seq<char>, n: int)
    requires
        0 <= n <= rs.len(),
    ensures
        0 <= stage_sum(rs, s, n) <= dur_sum(rs, n),
    decreases n,
{
    if n > 0 {
        lemma_stage_sum_bound(rs, s, n - 1);
    }
}

proof fn lemma_shot_row_bound(rs: Seq<ExecView>, k: Seq<char>, n: int)
    requires
        0 <= n <= rs.len(),
    ensures
        ({
            let v = shot_row(rs, k, n);
            &&& 0 <= v.pick_ms && 0 <= v.submit_ms && 0 <= v.render_ms && 0 <= v.download_ms
            &&& v.pick_ms + v.submit_ms + v.render_ms + v.download_ms <= v.total_ms
            &&& v.total_ms <= dur_sum(rs, n)
            &&& v.shot_id == k
        }),
    decreases n,
{
    if n > 0 {
        lemma_shot_row_bound(rs, k, n - 1);
        reveal_strlit("pick_node");
        reveal_strlit("submit");
        reveal_strlit("render");
        reveal_strlit("download");
        assert("pick_node"@.len() == 9 && "download"@.len() == 8);
        assert("submit"@[0] != "render"@[0]);
    }
}

proof fn lemma_node_load_bound(rs: Seq<ExecView>, k: Seq<char>, n: int)
    requires
        0 <= n <= rs.len(),
    ensures
        node_load(rs, k, n).0 == k,
        node_load(rs, k, n).1 <= n,
        0 <= node_load(rs, k, n).2 <= dur_sum(rs, n),
    decreases n,
{
    if n > 0 {
        lemma_node_load_bound(rs, k, n - 1);
    }
}

proof fn lemma_step_row_bound(rs: Seq<ExecView>, k: (Seq<char>, Seq<char>), n: int)
    requires
        0 <= n <= rs.len(),
    ensures
        step_row(rs, k, n).calls <= n,
        0 <= step_row(rs, k, n).total_ms <= dur_sum(rs, n),
        step_row(rs, k, n).stage == k.0,
        step_row(rs, k, n).step == k.1,
    decreases n,
{
    if n > 0 {
        lemma_step_row_bound(rs, k, n - 1);
    }
}

// ---------------------------------------------------------------------------
// Small executable pieces.

fn copy_opt(o: &Option<String>) -> (r: Option<String>)
    ensures
        opt_text(r) == opt_text(*o),
{
    match o {
        Some(s) => Some(s.clone()),
        None => None,
    }
}

fn copy_pairs(v: &Vec<(String, String)>) -> (r: Vec<(String, String)>)
    ensures
        pair_views(r@) == pair_views(v@),
{
    let mut out: Vec<(String, String)> = Vec::new();
    let mut i: usize = 0;
    while i < v.len()
        invariant
            i <= v@.len(),
            pair_views(out@) == pair_views(v@).subrange(0, i as int),
        decreases v.len() - i,
    {
        let ghost before = pair_views(out@);
        let a = v[i].0.clone();
        let b = v[i].1.clone();
        out.push((a, b));
        assert(pair_views(out@) =~= before.push(pair_views(v@)[i as int]));
        i = i + 1;
        assert(pair_views(out@) =~= pair_views(v@).subrange(0, i as int));
    }
    assert(pair_views(v@).subrange(0, v@.len() as int) =~= pair_views(v@));
    out
}

fn copy_record(r: &ExecRecord) -> (c: ExecRecord)
    ensures
        c@ == r@,
{
    ExecRecord {
        at: r.at.clone(),
        stage: r.stage.clone(),
        step: r.step.clone(),
        shot_id: copy_opt(&r.shot_id),
        node: copy_opt(&r.node),
        prompt_id: copy_opt(&r.prompt_id),
        duration_ms: r.duration_ms,
        ok: r.ok,
        error_code: copy_opt(&r.error_code),
        extra: copy_pairs(&r.extra),
    }
}

fn opt_is(o: &Option<String>, k: &str) -> (r: bool)
    ensures
        r == (opt_text(*o) == Some(k@)),
{
    match o {
        Some(s) => str_eq(s.as_str(), k),
        None => false,
    }
}

/// `k=v` of every detail, separated by spaces.
fn extra_line(e: &Vec<(String, String)>) -> (r: String)
    ensures
        r@ == extra_text(pair_views(e@)),
{
    let mut parts: Vec<String> = Vec::new();
    let mut i: usize = 0;
    while i < e.len()
        invariant
            i <= e@.len(),
            views_of(parts@) == pair_views(e@).subrange(0, i as int).map_values(
                |kv: (Seq<char>, Seq<char>)| kv.0 + "="@ + kv.1,
            ),
        decreases e.len() - i,
    {
        let mut p = e[i].0.clone();
        p.append("=");
        p.append(e[i].1.as_str());
        let ghost before = views_of(parts@);
        let ghost kv = pair_views(e@)[i as int];
        assert(p@ == kv.0 + "="@ + kv.1);
        parts.push(p);
        assert(views_of(parts@) =~= before.push(kv.0 + "="@ + kv.1));
        i = i + 1;
        assert(views_of(parts@) =~= pair_views(e@).subrange(0, i as int).map_values(
            |kv: (Seq<char>, Seq<char>)| kv.0 + "="@ + kv.1,
        ));
    }
    assert(pair_views(e@).subrange(0, e@.len() as int) =~= pair_views(e@));
    join(&parts, " ")
}

// ---------------------------------------------------------------------------
// The rows.

fn shot_row_exec(rs: &Vec<ExecRecord>, k: &String) -> (r: ShotRow)
    requires
        dur_sum(exec_views(rs@), rs@.len() as int) <= u64::MAX,
    ensures
        r.view_of() == shot_row(exec_views(rs@), k@, rs@.len() as int),
{
    let ghost vs = exec_views(rs@);
    let mut row = ShotRow {
        shot_id: k.clone(),
        node: None,
        prompt_id: None,
        pick_ms: 0,
        submit_ms: 0,
        render_ms: 0,
        download_ms: 0,
        total_ms: 0,
        ok: true,
        error_code: None,
    };
    let mut i: usize = 0;
    while i < rs.len()
        invariant
            vs == exec_views(rs@),
            dur_sum(vs, vs.len() as int) <= u64::MAX,
            i <= rs@.len(),
            row.view_of() == shot_row(vs, k@, i as int),
            row.shot_id@ == k@,
        decreases rs.len() - i,
    {
        let r = &rs[i];
        assert(vs[i as int] == r@);
        proof {
            lemma_shot_row_bound(vs, k@, i + 1);
            lemma_dur_sum_mono(vs, i + 1, vs.len() as int);
        }
        if opt_is(&r.shot_id, k.as_str()) {
            if str_eq(r.step.as_str(), "pick_node") {
                row.pick_ms = row.pick_ms + r.duration_ms;
            }
            if str_eq(r.step.as_str(), "submit") {
                row.submit_ms = row.submit_ms + r.duration_ms;
            }
            if str_eq(r.step.as_str(), "render") {
                row.render_ms = row.render_ms + r.duration_ms;
            }
            if str_eq(r.step.as_str(), "download") {
                row.download_ms = row.download_ms + r.duration_ms;
            }
            row.total_ms = row.total_ms + r.duration_ms;
            if r.node.is_some() {
                row.node = copy_opt(&r.node);
            }
            if r.prompt_id.is_some() {
                row.prompt_id = copy_opt(&r.prompt_id);
            }
            if !r.ok {
                row.ok = false;
                row.error_code = copy_opt(&r.error_code);
            }
        }
        i = i + 1;
        assert(row.view_of() =~= shot_row(vs, k@, i as int));
    }
    row
}

fn node_load_exec(rs: &Vec<ExecRecord>, k: &String) -> (r: NodeLoad)
    requires
        dur_sum(exec_views(rs@), rs@.len() as int) <= u64::MAX,
    ensures
        r.view_of() == node_load(exec_views(rs@), k@, rs@.len() as int),
{
    let ghost vs = exec_views(rs@);
    let mut load = NodeLoad { node: k.clone(), shots: 0, render_ms: 0 };
    let mut i: usize = 0;
    while i < rs.len()
        invariant
            vs == exec_views(rs@),
            dur_sum(vs, vs.len() as int) <= u64::MAX,
            i <= rs@.len(),
            load.view_of() == node_load(vs, k@, i as int),
            load.node@ == k@,
        decreases rs.len() - i,
    {
        let r = &rs[i];
        assert(vs[i as int] == r@);
        proof {
            lemma_node_load_bound(vs, k@, i + 1);
            lemma_dur_sum_mono(vs, i + 1, vs.len() as int);
            reveal_strlit("render");
        }
        let on_node = opt_is(&r.node, k.as_str());
        let rendering = str_eq(r.step.as_str(), "render");
        if on_node && rendering {
            load.shots = load.shots + 1;
            load.render_ms = load.render_ms + r.duration_ms;
        }
        assert(load.view_of() =~= node_load(vs, k@, i + 1));
        i = i + 1;
    }
    load
}

fn step_row_exec(rs: &Vec<ExecRecord>, k: &(String, String)) -> (r: StepRow)
    requires
        dur_sum(exec_views(rs@), rs@.len() as int) <= u64::MAX,
    ensures
        r.view_of() == step_row(exec_views(rs@), (k.0@, k.1@), rs@.len() as int),
{
    let ghost vs = exec_views(rs@);
    let ghost kv = (k.0@, k.1@);
    let mut row = StepRow {
        stage: k.0.clone(),
        step: k.1.clone(),
        calls: 0,
        total_ms: 0,
        ok: true,
        detail: None,
    };
    let mut i: usize = 0;
    while i < rs.len()
        invariant
            vs == exec_views(rs@),
            kv == (k.0@, k.1@),
            dur_sum(vs, vs.len() as int) <= u64::MAX,
            i <= rs@.len(),
            row.view_of() == step_row(vs, kv, i as int),
            row.stage@ == k.0@,
            row.step@ == k.1@,
        decreases rs.len() - i,
    {
        let r = &rs[i];
        assert(vs[i as int] == r@);
        proof {
            lemma_step_row_bound(vs, kv, i + 1);
            lemma_dur_sum_mono(vs, i + 1, vs.len() as int);
        }
        if str_eq(r.stage.as_str(), k.0.as_str()) && str_eq(r.step.as_str(), k.1.as_str()) {
            row.calls = row.calls + 1;
            row.total_ms = row.total_ms + r.duration_ms;
            row.ok = row.ok && r.ok;
            if row.detail.is_none() && r.extra.len() > 0 {
                row.detail = Some(extra_line(&r.extra));
            }
        }
        i = i + 1;
        assert(row.view_of() =~= step_row(vs, kv, i as int));
    }
    row
}

// ---------------------------------------------------------------------------
// The orders.

proof fn lemma_insert_node_at(s: Seq<NodeView>, x: NodeView, j: int)
    requires
        0 <= j <= s.len(),
        forall|k: int| j <= k < s.len() ==> (#[trigger] s[k]).2 < x.2,
        j > 0 ==> s[j - 1].2 >= x.2,
    ensures
        insert_node(s, x) == s.insert(j, x),
    decreases s.len(),
{
    if s.len() == 0 {
        assert(s.insert(0, x) =~= seq![x]);
    } else if j == s.len() {
        assert(s.insert(j, x) =~= s.push(x));
    } else {
        lemma_insert_node_at(s.drop_last(), x, j);
        assert(s.insert(j, x) =~= s.drop_last().insert(j, x).push(s.last()));
    }
}

fn insert_load(out: &mut Vec<NodeLoad>, x: NodeLoad)
    ensures
        node_views(final(out)@) == insert_node(node_views(old(out)@), x.view_of()),
{
    let ghost sv = node_views(out@);
    let mut j: usize = out.len();
    while j > 0 && out[j - 1].render_ms < x.render_ms
        invariant
            sv == node_views(out@),
            j <= out@.len(),
            forall|k: int| j <= k < sv.len() ==> (#[trigger] sv[k]).2 < x.render_ms,
        decreases j,
    {
        j = j - 1;
    }
    proof {
        lemma_insert_node_at(sv, x.view_of(), j as int);
    }
    out.insert(j, x);
    assert(node_views(out@) =~= sv.insert(j as int, x.view_of()));
}

proof fn lemma_insert_step_at(s: Seq<StepView>, x: StepView, j: int)
    requires
        0 <= j <= s.len(),
        forall|k: int| j <= k < s.len() ==> (#[trigger] s[k]).total_ms < x.total_ms,
        j > 0 ==> s[j - 1].total_ms >= x.total_ms,
    ensures
        insert_step(s, x) == s.insert(j, x),
    decreases s.len(),
{
    if s.len() == 0 {
        assert(s.insert(0, x) =~= seq![x]);
    } else if j == s.len() {
        assert(s.insert(j, x) =~= s.push(x));
    } else {
        lemma_insert_step_at(s.drop_last(), x, j);
        assert(s.insert(j, x) =~= s.drop_last().insert(j, x).push(s.last()));
    }
}

fn insert_row(out: &mut Vec<StepRow>, x: StepRow)
    ensures
        step_views(final(out)@) == insert_step(step_views(old(out)@), x.view_of()),
{
    let ghost sv = step_views(out@);
    let mut j: usize = out.len();
    while j > 0 && out[j - 1].total_ms < x.total_ms
        invariant
            sv == step_views(out@),
            j <= out@.len(),
            forall|k: int| j <= k < sv.len() ==> (#[trigger] sv[k]).total_ms < x.total_ms,
        decreases j,
    {
        j = j - 1;
    }
    proof {
        lemma_insert_step_at(sv, x.view_of(), j as int);
    }
    out.insert(j, x);
    assert(step_views(out@) =~= sv.insert(j as int, x.view_of()));
}

proof fn lemma_dedup_pairs_last(s: Seq<(Seq<char>, Seq<char>)>)
    requires
        s.len() > 0,
    ensures
        dedup_pairs(s).len() > 0,
        dedup_pairs(s).last() == s.last(),
    decreases s.len(),
{
    if s.len() > 1 {
        lemma_dedup_pairs_last(s.drop_last());
    }
}

fn dedup_sorted_pairs(v: &Vec<(String, String)>) -> (r: Vec<(String, String)>)
    ensures
        pair_views(r@) == dedup_pairs(pair_views(v@)),
{
    let ghost vs = pair_views(v@);
    let mut out: Vec<(String, String)> = Vec::new();
    let mut k: usize = 0;
    while k < v.len()
        invariant
            k <= v@.len(),
            vs == pair_views(v@),
            pair_views(out@) == dedup_pairs(vs.subrange(0, k as int)),
        decreases v.len() - k,
    {
        let ghost sub = vs.subrange(0, k + 1);
        assert(sub.drop_last() =~= vs.subrange(0, k as int));
        proof {
            if k > 0 {
                lemma_dedup_pairs_last(vs.subrange(0, k as int));
            }
        }
        if k == 0 || !(str_eq(v[k].0.as_str(), v[k - 1].0.as_str()) && str_eq(
            v[k].1.as_str(),
            v[k - 1].1.as_str(),
        )) {
            out.push((v[k].0.clone(), v[k].1.clone()));
        }
        k = k + 1;
        assert(pair_views(out@) =~= dedup_pairs(vs.subrange(0, k as int)));
    }
    assert(vs.subrange(0, v@.len() as int) =~= vs);
    out
}

// ---------------------------------------------------------------------------
// The report.

fn sums(rs: &Vec<ExecRecord>) -> (r: (u64, u64, u64, u64))
    requires
        dur_sum(exec_views(rs@), rs@.len() as int) <= u64::MAX,
    ensures
        r.0 == dur_sum(exec_views(rs@), rs@.len() as int),
        r.1 == stage_sum(exec_views(rs@), "render"@, rs@.len() as int),
        r.2 == stage_sum(exec_views(rs@), "post"@, rs@.len() as int),
        r.3 == stage_sum(exec_views(rs@), "review"@, rs@.len() as int),
{
    let ghost vs = exec_views(rs@);
    let (mut total, mut render, mut post, mut review): (u64, u64, u64, u64) = (0, 0, 0, 0);
    let mut i: usize = 0;
    while i < rs.len()
        invariant
            vs == exec_views(rs@),
            dur_sum(vs, vs.len() as int) <= u64::MAX,
            i <= rs@.len(),
            total == dur_sum(vs, i as int),
            render == stage_sum(vs, "render"@, i as int),
            post == stage_sum(vs, "post"@, i as int),
            review == stage_sum(vs, "review"@, i as int),
        decreases rs.len() - i,
    {
        let r = &rs[i];
        assert(vs[i as int] == r@);
        proof {
            lemma_dur_sum_mono(vs, i + 1, vs.len() as int);
            lemma_stage_sum_bound(vs, "render"@, i + 1);
            lemma_stage_sum_bound(vs, "post"@, i + 1);
            lemma_stage_sum_bound(vs, "review"@, i + 1);
            reveal_strlit("render");
            reveal_strlit("post");
            reveal_strlit("review");
        }
        total = total + r.duration_ms;
        if str_eq(r.stage.as_str(), "render") {
            render = render + r.duration_ms;
        }
        if str_eq(r.stage.as_str(), "post") {
            post = post + r.duration_ms;
        }
        if str_eq(r.stage.as_str(), "review") {
            review = review + r.duration_ms;
        }
        i = i + 1;
    }
    (total, render, post, review)
}

fn shot_rows_exec(rs: &Vec<ExecRecord>) -> (r: Vec<ShotRow>)
    requires
        dur_sum(exec_views(rs@), rs@.len() as int) <= u64::MAX,
    ensures
        shot_views(r@) == shot_rows(exec_views(rs@)),
{
    let ghost vs = exec_views(rs@);
    let mut ids: Vec<String> = Vec::new();
    let mut i: usize = 0;
    while i < rs.len()
        invariant
            vs == exec_views(rs@),
            i <= rs@.len(),
            views_of(ids@) == shot_ids(vs, i as int),
        decreases rs.len() - i,
    {
        assert(vs[i as int] == rs@[i as int]@);
        match &rs[i].shot_id {
            Some(k) => {
                let ghost before = views_of(ids@);
                ids.push(k.clone());
                assert(views_of(ids@) =~= before.push(k@));
            },
            None => {},
        }
        i = i + 1;
    }
    let keys = dedup_strings(&sort_strings(ids));
    let ghost ks = views_of(keys@);
    let mut out: Vec<ShotRow> = Vec::new();
    let mut k: usize = 0;
    while k < keys.len()
        invariant
            vs == exec_views(rs@),
            dur_sum(vs, vs.len() as int) <= u64::MAX,
            ks == views_of(keys@),
            ks == as_set(shot_ids(vs, vs.len() as int)),
            k <= keys@.len(),
            shot_views(out@) == ks.subrange(0, k as int).map_values(
                |x: Seq<char>| shot_row(vs, x, vs.len() as int),
            ),
        decreases keys.len() - k,
    {
        let row = shot_row_exec(rs, &keys[k]);
        let ghost before = shot_views(out@);
        assert(ks[k as int] == keys@[k as int]@);
        assert(row.view_of() == shot_row(vs, ks[k as int], vs.len() as int));
        out.push(row);
        assert(shot_views(out@) =~= before.push(row.view_of()));
        assert(ks.subrange(0, k + 1).map_values(|x: Seq<char>| shot_row(vs, x, vs.len() as int))
            =~= ks.subrange(0, k as int).map_values(|x: Seq<char>| shot_row(vs, x, vs.len() as int)).push(
            shot_row(vs, ks[k as int], vs.len() as int),
        ));
        k = k + 1;
        assert(shot_views(out@) =~= ks.subrange(0, k as int).map_values(
            |x: Seq<char>| shot_row(vs, x, vs.len() as int),
        ));
    }
    assert(ks.subrange(0, keys@.len() as int) =~= ks);
    out
}

fn node_rows_exec(rs: &Vec<ExecRecord>) -> (r: Vec<NodeLoad>)
    requires
        dur_sum(exec_views(rs@), rs@.len() as int) <= u64::MAX,
    ensures
        node_views(r@) == node_rows(exec_views(rs@)),
{
    let ghost vs = exec_views(rs@);
    let mut ids: Vec<String> = Vec::new();
    let mut i: usize = 0;
    while i < rs.len()
        invariant
            vs == exec_views(rs@),
            i <= rs@.len(),
            views_of(ids@) == node_ids(vs, i as int),
        decreases rs.len() - i,
    {
        assert(vs[i as int] == rs@[i as int]@);
        match &rs[i].node {
            Some(k) => {
                let ghost before = views_of(ids@);
                ids.push(k.clone());
                assert(views_of(ids@) =~= before.push(k@));
            },
            None => {},
        }
        i = i + 1;
    }
    let keys = dedup_strings(&sort_strings(ids));
    let ghost ks = views_of(keys@);
    let ghost loads = ks.map_values(|x: Seq<char>| node_load(vs, x, vs.len() as int));
    let mut out: Vec<NodeLoad> = Vec::new();
    let mut k: usize = 0;
    while k < keys.len()
        invariant
            vs == exec_views(rs@),
            dur_sum(vs, vs.len() as int) <= u64::MAX,
            ks == views_of(keys@),
            ks == as_set(node_ids(vs, vs.len() as int)),
            loads == ks.map_values(|x: Seq<char>| node_load(vs, x, vs.len() as int)),
            k <= keys@.len(),
            node_views(out@) == sort_nodes(busy(loads.subrange(0, k as int))),
        decreases keys.len() - k,
    {
        let load = node_load_exec(rs, &keys[k]);
        assert(ks[k as int] == keys@[k as int]@);
        assert(load.view_of() == loads[k as int]);
        let ghost sub0 = loads.subrange(0, k as int);
        let ghost sub1 = loads.subrange(0, k + 1);
        assert(sub1.drop_last() =~= sub0);
        assert(sub1.last() == loads[k as int]);
        if load.shots > 0 {
            assert(busy(sub1) == busy(sub0).push(loads[k as int]));
            assert(busy(sub1).drop_last() =~= busy(sub0));
            insert_load(&mut out, load);
        } else {
            assert(busy(sub1) == busy(sub0));
        }
        k = k + 1;
    }
    assert(loads.subrange(0, keys@.len() as int) =~= loads);
    out
}

fn step_rows_exec(rs: &Vec<ExecRecord>) -> (r: Vec<StepRow>)
    requires
        dur_sum(exec_views(rs@), rs@.len() as int) <= u64::MAX,
    ensures
        step_views(r@) == step_rows(exec_views(rs@)),
{
    let ghost vs = exec_views(rs@);
    let ghost all = vs.map_values(|x: ExecView| (x.stage, x.step));
    let mut pairs: Vec<(String, String)> = Vec::new();
    let mut i: usize = 0;
    while i < rs.len()
        invariant
            vs == exec_views(rs@),
            all == vs.map_values(|x: ExecView| (x.stage, x.step)),
            i <= rs@.len(),
            pair_views(pairs@) == all.subrange(0, i as int),
        decreases rs.len() - i,
    {
        assert(vs[i as int] == rs@[i as int]@);
        let ghost before = pair_views(pairs@);
        let a = rs[i].stage.clone();
        let b = rs[i].step.clone();
        pairs.push((a, b));
        assert(pair_views(pairs@) =~= before.push(all[i as int]));
        i = i + 1;
        assert(pair_views(pairs@) =~= all.subrange(0, i as int));
    }
    assert(all.subrange(0, rs@.len() as int) =~= all);
    let keys = dedup_sorted_pairs(&sort_pairs(pairs));
    let ghost ks = pair_views(keys@);
    let ghost rows = ks.map_values(|x: (Seq<char>, Seq<char>)| step_row(vs, x, vs.len() as int));
    let mut out: Vec<StepRow> = Vec::new();
    let mut k: usize = 0;
    while k < keys.len()
        invariant
            vs == exec_views(rs@),
            dur_sum(vs, vs.len() as int) <= u64::MAX,
            ks == pair_views(keys@),
            ks == step_keys(vs),
            rows == ks.map_values(|x: (Seq<char>, Seq<char>)| step_row(vs, x, vs.len() as int)),
            k <= keys@.len(),
            step_views(out@) == sort_steps(rows.subrange(0, k as int)),
        decreases keys.len() - k,
    {
        let row = step_row_exec(rs, &keys[k]);
        assert(ks[k as int] == (keys@[k as int].0@, keys@[k as int].1@));
        assert(row.view_of() == rows[k as int]);
        assert(rows.subrange(0, k + 1).drop_last() =~= rows.subrange(0, k as int));
        assert(rows.subrange(0, k + 1).last() == rows[k as int]);
        insert_row(&mut out, row);
        k = k + 1;
    }
    assert(rows.subrange(0, keys@.len() as int) =~= rows);
    out
}

fn failures_exec(rs: &Vec<ExecRecord>) -> (r: Vec<ExecRecord>)
    ensures
        exec_views(r@) == failures(exec_views(rs@)),
{
    let ghost vs = exec_views(rs@);
    let mut out: Vec<ExecRecord> = Vec::new();
    let mut i: usize = 0;
    while i < rs.len()
        invariant
            vs == exec_views(rs@),
            i <= rs@.len(),
            exec_views(out@) == failures(vs.subrange(0, i as int)),
        decreases rs.len() - i,
    {
        assert(vs.subrange(0, i + 1).drop_last() =~= vs.subrange(0, i as int));
        assert(vs[i as int] == rs@[i as int]@);
        if !rs[i].ok {
            let c = copy_record(&rs[i]);
            let ghost before = exec_views(out@);
            out.push(c);
            assert(exec_views(out@) =~= before.push(c@));
        }
        i = i + 1;
    }
    assert(vs.subrange(0, rs@.len() as int) =~= vs);
    out
}

/// Whether the records' total time fits in `u64` milliseconds, which
/// [`build`] asks of its caller.
pub fn dur_sum_fits(records: &Vec<ExecRecord>) -> (r: bool)
    ensures
        r == (dur_sum(exec_views(records@), records@.len() as int) <= u64::MAX),
{
    let ghost vs = exec_views(records@);
    let mut total: u64 = 0;
    let mut i: usize = 0;
    while i < records.len()
        invariant
            vs == exec_views(records@),
            i <= records@.len(),
            total == dur_sum(vs, i as int),
        decreases records.len() - i,
    {
        assert(vs[i as int] == records@[i as int]@);
        match total.checked_add(records[i].duration_ms) {
            Some(t) => total = t,
            None => {
                proof {
                    lemma_dur_sum_mono(vs, i + 1, vs.len() as int);
                }
                return false;
            },
        }
        i = i + 1;
    }
    true
}

/// Sums the execution up from its records.
///
/// Steps are grouped by `(stage, step)` and shots by id; the nodes that
/// rendered come busiest first and the steps slowest first, ties in key
/// order. The run passed when there is data and nothing failed.
pub fn build(bundle: String, generated_at: String, records: &Vec<ExecRecord>) -> (r: Report)
    requires
        dur_sum(exec_views(records@), records@.len() as int) <= u64::MAX,
    ensures
        ({
            let rs = exec_views(records@);
            &&& r.bundle == bundle
            &&& r.generated_at == generated_at
            &&& r.has_data == (records@.len() > 0)
            &&& r.total_ms == dur_sum(rs, rs.len() as int)
            &&& r.render_ms == stage_sum(rs, "render"@, rs.len() as int)
            &&& r.post_ms == stage_sum(rs, "post"@, rs.len() as int)
            &&& r.review_ms == stage_sum(rs, "review"@, rs.len() as int)
            &&& shot_views(r.shots@) == shot_rows(rs)
            &&& node_views(r.nodes@) == node_rows(rs)
            &&& step_views(r.steps@) == step_rows(rs)
            &&& exec_views(r.failures@) == failures(rs)
            &&& r.nodes_used == r.nodes@.len()
            &&& r.passed == (records@.len() > 0 && failures(rs).len() == 0)
        }),
{
    let (total_ms, render_ms, post_ms, review_ms) = sums(records);
    let shots = shot_rows_exec(records);
    let nodes = node_rows_exec(records);
    let steps = step_rows_exec(records);
    let failures = failures_exec(records);
    let has_data = records.len() > 0;
    let nodes_used = nodes.len();
    let passed = has_data && failures.len() == 0;
    Report {
        generated_at,
        bundle,
        has_data,
        total_ms,
        render_ms,
        post_ms,
        review_ms,
        shots,
        nodes,
        steps,
        failures,
        nodes_used,
        passed,
    }
}

// ---------------------------------------------------------------------------
// The report as text. Durations are shown the way the caller formats them:
// `durations` lists them in the order the text uses them, and `render` takes
// their shown texts in the same order.

/// The durations of the shots' rows, four to a shot, for the first `n` shots.
pub open spec fn shot_durations(shots: Seq<ShotRow>, n: int) -> Seq<u64>
    decreases n,
{
    if n <= 0 || n > shots.len() {
        Seq::empty()
    } else {
        let x = shots[n - 1];
        shot_durations(shots, n - 1) + seq![x.pick_ms, x.submit_ms, x.render_ms, x.download_ms]
    }
}

pub open spec fn node_durations(nodes: Seq<NodeLoad>, n: int) -> Seq<u64>
    decreases n,
{
    if n <= 0 || n > nodes.len() {
        Seq::empty()
    } else {
        node_durations(nodes, n - 1).push(nodes[n - 1].render_ms)
    }
}

pub open spec fn step_durations(steps: Seq<StepRow>, n: int) -> Seq<u64>
    decreases n,
{
    if n <= 0 || n > steps.len() {
        Seq::empty()
    } else {
        step_durations(steps, n - 1).push(steps[n - 1].total_ms)
    }
}

/// Every duration the text shows, in text order: the totals (all, render,
/// post, review), each shot's pick, submit, render and download, each node's
/// render time, each step's total.
pub open spec fn durations_of(r: Report) -> Seq<u64> {
    seq![r.total_ms, r.render_ms, r.post_ms, r.review_ms]
        + shot_durations(r.shots@, r.shots@.len() as int)
        + node_durations(r.nodes@, r.nodes@.len() as int)
        + step_durations(r.steps@, r.steps@.len() as int)
}

proof fn lemma_duration_lens(r: Report)
    ensures
        durations_of(r).len() == 4 + 4 * r.shots@.len() + r.nodes@.len() + r.steps@.len(),
{
    lemma_shot_durations_len(r.shots@, r.shots@.len() as int);
    lemma_node_durations_len(r.nodes@, r.nodes@.len() as int);
    lemma_step_durations_len(r.steps@, r.steps@.len() as int);
}

proof fn lemma_shot_durations_len(shots: Seq<ShotRow>, n: int)
    requires
        0 <= n <= shots.len(),
    ensures
        shot_durations(shots, n).len() == 4 * n,
    decreases n,
{
    if n > 0 {
        lemma_shot_durations_len(shots, n - 1);
    }
}

proof fn lemma_node_durations_len(nodes: Seq<NodeLoad>, n: int)
    requires
        0 <= n <= nodes.len(),
    ensures
        node_durations(nodes, n).len() == n,
    decreases n,
{
    if n > 0 {
        lemma_node_durations_len(nodes, n - 1);
    }
}

proof fn lemma_step_durations_len(steps: Seq<StepRow>, n: int)
    requires
        0 <= n <= steps.len(),
    ensures
        step_durations(steps, n).len() == n,
    decreases n,
{
    if n > 0 {
        lemma_step_durations_len(steps, n - 1);
    }
}

/// The durations the report's text shows, in text order.
pub fn durations(r: &Report) -> (d: Vec<u64>)
    ensures
        d@ == durations_of(*r),
        d@.len() == 4 + 4 * r.shots@.len() + r.nodes@.len() + r.steps@.len(),
{
    let mut d: Vec<u64> = vec![r.total_ms, r.render_ms, r.post_ms, r.review_ms];
    let ghost head = d@;
    assert(head =~= seq![r.total_ms, r.render_ms, r.post_ms, r.review_ms]);
    let mut i: usize = 0;
    while i < r.shots.len()
        invariant
            i <= r.shots@.len(),
            d@ == head + shot_durations(r.shots@, i as int),
        decreases r.shots.len() - i,
    {
        let x = &r.shots[i];
        d.push(x.pick_ms);
        d.push(x.submit_ms);
        d.push(x.render_ms);
        d.push(x.download_ms);
        i = i + 1;
        assert(d@ =~= head + shot_durations(r.shots@, i as int));
    }
    let ghost h2 = d@;
    let mut j: usize = 0;
    while j < r.nodes.len()
        invariant
            j <= r.nodes@.len(),
            d@ == h2 + node_durations(r.nodes@, j as int),
        decreases r.nodes.len() - j,
    {
        d.push(r.nodes[j].render_ms);
        j = j + 1;
        assert(d@ =~= h2 + node_durations(r.nodes@, j as int));
    }
    let ghost h3 = d@;
    let mut k: usize = 0;
    while k < r.steps.len()
        invariant
            k <= r.steps@.len(),
            d@ == h3 + step_durations(r.steps@, k as int),
        decreases r.steps.len() - k,
    {
        d.push(r.steps[k].total_ms);
        k = k + 1;
        assert(d@ =~= h3 + step_durations(r.steps@, k as int));
    }
    proof {
        lemma_duration_lens(*r);
    }
    d
}

pub open spec fn or_text(o: Option<String>, d: Seq<char>) -> Seq<char> {
    match o {
        Some(s) => s@,
        None => d,
    }
}

/// One row of the shot table; `sh[at..at + 4]` are its shown durations.
pub open spec fn shot_line(x: ShotRow, sh: Seq<Seq<char>>, at: int) -> Seq<char> {
    "    "@ + pad_end(x.shot_id@, 8) + shot_cells(sh, at) + "  "@
        + or_text(x.node, "-"@) + (if x.ok {
        Seq::empty()
    } else {
        "  ← "@ + or_text(x.error_code, "失败"@)
    }) + "\n"@
}

pub open spec fn shot_lines(shots: Seq<ShotRow>, sh: Seq<Seq<char>>, at: int, n: int) -> Seq<char>
    decreases n,
{
    if n <= 0 || n > shots.len() {
        Seq::empty()
    } else {
        shot_lines(shots, sh, at, n - 1) + shot_line(shots[n - 1], sh, at + 4 * (n - 1))
    }
}

pub open spec fn node_line(x: NodeLoad, shown: Seq<char>) -> Seq<char> {
    "    "@ + pad_end(x.node@, 28) + " "@ + dec_nat(x.shots as nat) + " 个镜头 · "@ + shown + "\n"@
}

pub open spec fn node_lines(nodes: Seq<NodeLoad>, sh: Seq<Seq<char>>, at: int, n: int) -> Seq<char>
    decreases n,
{
    if n <= 0 || n > nodes.len() {
        Seq::empty()
    } else {
        node_lines(nodes, sh, at, n - 1) + node_line(nodes[n - 1], sh[at + n - 1])
    }
}

pub open spec fn step_line(x: StepRow, shown: Seq<char>) -> Seq<char> {
    "    "@ + pad_end(x.stage@, 8) + " "@ + pad_end(x.step@, 14) + " "@ + pad_start(
        dec_nat(x.calls as nat),
        3,
    ) + " 次 "@ + pad_start(shown, 10) + (match x.detail {
        Some(d) => "  "@ + d@,
        None => Seq::empty(),
    }) + "\n"@
}

pub open spec fn step_lines(steps: Seq<StepRow>, sh: Seq<Seq<char>>, at: int, n: int) -> Seq<char>
    decreases n,
{
    if n <= 0 || n > steps.len() {
        Seq::empty()
    } else {
        step_lines(steps, sh, at, n - 1) + step_line(steps[n - 1], sh[at + n - 1])
    }
}

pub open spec fn failure_line(f: ExecRecord) -> Seq<char> {
    "    "@ + f.at@ + " "@ + f.stage@ + "/"@ + f.step@ + " "@ + or_text(f.shot_id, "-"@) + " → "@
        + or_text(f.error_code, "未知"@) + "\n"@
}

pub open spec fn failure_lines(fs: Seq<ExecRecord>, n: int) -> Seq<char>
    decreases n,
{
    if n <= 0 || n > fs.len() {
        Seq::empty()
    } else {
        failure_lines(fs, n - 1) + failure_line(fs[n - 1])
    }
}

pub open spec fn totals_text(r: Report, sh: Seq<Seq<char>>) -> Seq<char> {
    "  作品      "@ + r.bundle@ + "\n"@ + "  执行耗时  "@ + sh[0] + "（渲染 "@ + sh[1] + " · 后期 "@ + sh[2]
        + " · 验收 "@ + sh[3] + "）\n"@ + "  节点      用了 "@ + dec_nat(r.nodes_used as nat) + " 个\n\n"@
}

pub open spec fn shots_section(r: Report, sh: Seq<Seq<char>>) -> Seq<char> {
    if r.shots@.len() > 0 {
        "  逐镜头\n"@ + "    镜头     选节点    提交      渲染        下载      节点\n"@ + shot_lines(
            r.shots@,
            sh,
            4,
            r.shots@.len() as int,
        ) + "\n"@
    } else {
        Seq::empty()
    }
}

pub open spec fn nodes_section(r: Report, sh: Seq<Seq<char>>) -> Seq<char> {
    if r.nodes@.len() > 0 {
        "  节点负载\n"@ + node_lines(r.nodes@, sh, 4 + 4 * r.shots@.len() as int, r.nodes@.len() as int)
            + "\n"@
    } else {
        Seq::empty()
    }
}

pub open spec fn steps_section(r: Report, sh: Seq<Seq<char>>) -> Seq<char> {
    "  各步骤耗时\n"@ + step_lines(
        r.steps@,
        sh,
        4 + 4 * r.shots@.len() as int + r.nodes@.len() as int,
        r.steps@.len() as int,
    ) + "\n"@
}

pub open spec fn failures_section(r: Report) -> Seq<char> {
    if r.failures@.len() > 0 {
        "  失败\n"@ + failure_lines(r.failures@, r.failures@.len() as int) + "\n"@
    } else {
        Seq::empty()
    }
}

pub open spec fn conclusion_text(passed: bool) -> Seq<char> {
    if passed {
        "结论：执行链路全部成功。\n"@
    } else {
        "结论：有失败，见上面「失败」。\n"@
    }
}

/// The report as text; `sh` are the shown durations, in the order of
/// `durations_of`.
pub open spec fn report_text(r: Report, sh: Seq<Seq<char>>) -> Seq<char> {
    if !r.has_data {
        "执行侧报告 · "@ + r.generated_at@ + "\n\n  作品 "@ + r.bundle@
            + "\n\n  这部作品还没跑过确定性阶段（渲染 / 后期 / 验收）。\n  提示词包确认之后控制面会自动开始，跑完再来看这份报告。\n  Agent 那一侧的报告用 `studiod e2e report`。\n"@
    } else {
        "执行侧报告 · "@ + r.generated_at@ + "\n\n"@ + totals_text(r, sh) + shots_section(r, sh)
            + nodes_section(r, sh) + steps_section(r, sh) + failures_section(r) + conclusion_text(
            r.passed,
        )
    }
}

fn push_opt(out: &mut String, o: &Option<String>, d: &str)
    ensures
        final(out)@ == old(out)@ + or_text(*o, d@),
{
    match o {
        Some(s) => out.append(s.as_str()),
        None => out.append(d),
    }
}

/// The four duration cells of a shot row.
pub open spec fn shot_cells(sh: Seq<Seq<char>>, at: int) -> Seq<char> {
    " "@ + pad_start(sh[at], 8) + " "@ + pad_start(sh[at + 1], 8) + " "@ + pad_start(sh[at + 2], 10)
        + " "@ + pad_start(sh[at + 3], 9)
}

fn push_shot_cells(out: &mut String, shown: &Vec<String>, at: usize)
    requires
        at + 4 <= shown@.len(),
    ensures
        final(out)@ == old(out)@ + shot_cells(views_of(shown@), at as int),
{
    let total = shown.len();
    assert(at + 4 <= total);
    let ghost sh = views_of(shown@);
    let ghost o = out@;
    out.append(" ");
    push_pad_start(out, shown[at].as_str(), 8);
    out.append(" ");
    push_pad_start(out, shown[at + 1].as_str(), 8);
    let ghost m = out@;
    assert(m =~= o + " "@ + pad_start(sh[at as int], 8) + " "@ + pad_start(sh[at + 1], 8));
    out.append(" ");
    push_pad_start(out, shown[at + 2].as_str(), 10);
    out.append(" ");
    push_pad_start(out, shown[at + 3].as_str(), 9);
    assert(out@ =~= o + shot_cells(sh, at as int));
}

fn push_shot_line(out: &mut String, x: &ShotRow, shown: &Vec<String>, at: usize)
    requires
        at + 4 <= shown@.len(),
    ensures
        final(out)@ == old(out)@ + shot_line(*x, views_of(shown@), at as int),
{
    let ghost o = out@;
    out.append("    ");
    push_pad_end(out, x.shot_id.as_str(), 8);
    push_shot_cells(out, shown, at);
    out.append("  ");
    push_opt(out, &x.node, "-");
    let ghost m = out@;
    if !x.ok {
        out.append("  ← ");
        push_opt(out, &x.error_code, "失败");
    }
    out.append("\n");
    assert(out@ =~= o + shot_line(*x, views_of(shown@), at as int));
}

fn push_shot_lines(out: &mut String, r: &Report, shown: &Vec<String>)
    requires
        shown@.len() == 4 + 4 * r.shots@.len() + r.nodes@.len() + r.steps@.len(),
    ensures
        final(out)@ == old(out)@ + shot_lines(r.shots@, views_of(shown@), 4, r.shots@.len() as int),
{
    let ghost sh = views_of(shown@);
    let total = shown.len();
    let mut i: usize = 0;
    while i < r.shots.len()
        invariant
            total == shown@.len(),
            sh == views_of(shown@),
            shown@.len() == 4 + 4 * r.shots@.len() + r.nodes@.len() + r.steps@.len(),
            i <= r.shots@.len(),
            out@ == old(out)@ + shot_lines(r.shots@, sh, 4, i as int),
        decreases r.shots.len() - i,
    {
        let at = 4 + 4 * i;
        push_shot_line(out, &r.shots[i], shown, at);
        i = i + 1;
    }
}

fn push_node_line(out: &mut String, x: &NodeLoad, shown: &str)
    ensures
        final(out)@ == old(out)@ + node_line(*x, shown@),
{
    let ghost o = out@;
    out.append("    ");
    push_pad_end(out, x.node.as_str(), 28);
    out.append(" ");
    push_u64(out, x.shots as u64);
    out.append(" 个镜头 · ");
    out.append(shown);
    out.append("\n");
    assert(out@ =~= o + node_line(*x, shown@));
}

fn push_step_line(out: &mut String, x: &StepRow, shown: &str)
    ensures
        final(out)@ == old(out)@ + step_line(*x, shown@),
{
    let ghost o = out@;
    out.append("    ");
    push_pad_end(out, x.stage.as_str(), 8);
    out.append(" ");
    push_pad_end(out, x.step.as_str(), 14);
    out.append(" ");
    let calls = u64_to_string(x.calls as u64);
    push_pad_start(out, calls.as_str(), 3);
    out.append(" 次 ");
    push_pad_start(out, shown, 10);
    let ghost m = out@;
    match &x.detail {
        Some(d) => {
            out.append("  ");
            out.append(d.as_str());
        },
        None => {},
    }
    out.append("\n");
    assert(out@ =~= o + step_line(*x, shown@));
}

fn push_node_lines(out: &mut String, r: &Report, shown: &Vec<String>)
    requires
        shown@.len() == 4 + 4 * r.shots@.len() + r.nodes@.len() + r.steps@.len(),
    ensures
        final(out)@ == old(out)@ + node_lines(
            r.nodes@,
            views_of(shown@),
            4 + 4 * r.shots@.len() as int,
            r.nodes@.len() as int,
        ),
{
    let ghost sh = views_of(shown@);
    let total = shown.len();
    let base = total - r.steps.len() - r.nodes.len();
    let mut i: usize = 0;
    while i < r.nodes.len()
        invariant
            total == shown@.len(),
            base + r.nodes@.len() + r.steps@.len() == shown@.len(),
            sh == views_of(shown@),
            shown@.len() == 4 + 4 * r.shots@.len() + r.nodes@.len() + r.steps@.len(),
            base == 4 + 4 * r.shots@.len(),
            i <= r.nodes@.len(),
            out@ == old(out)@ + node_lines(r.nodes@, sh, base as int, i as int),
        decreases r.nodes.len() - i,
    {
        push_node_line(out, &r.nodes[i], shown[base + i].as_str());
        i = i + 1;
    }
}

fn push_step_lines(out: &mut String, r: &Report, shown: &Vec<String>)
    requires
        shown@.len() == 4 + 4 * r.shots@.len() + r.nodes@.len() + r.steps@.len(),
    ensures
        final(out)@ == old(out)@ + step_lines(
            r.steps@,
            views_of(shown@),
            4 + 4 * r.shots@.len() as int + r.nodes@.len() as int,
            r.steps@.len() as int,
        ),
{
    let ghost sh = views_of(shown@);
    let total = shown.len();
    let base = total - r.steps.len();
    let mut i: usize = 0;
    while i < r.steps.len()
        invariant
            total == shown@.len(),
            base + r.steps@.len() == shown@.len(),
            sh == views_of(shown@),
            shown@.len() == 4 + 4 * r.shots@.len() + r.nodes@.len() + r.steps@.len(),
            base == 4 + 4 * r.shots@.len() + r.nodes@.len(),
            i <= r.steps@.len(),
            out@ == old(out)@ + step_lines(r.steps@, sh, base as int, i as int),
        decreases r.steps.len() - i,
    {
        push_step_line(out, &r.steps[i], shown[base + i].as_str());
        i = i + 1;
    }
}

fn push_failure_lines(out: &mut String, fs: &Vec<ExecRecord>)
    ensures
        final(out)@ == old(out)@ + failure_lines(fs@, fs@.len() as int),
{
    let mut i: usize = 0;
    while i < fs.len()
        invariant
            i <= fs@.len(),
            out@ == old(out)@ + failure_lines(fs@, i as int),
        decreases fs.len() - i,
    {
        let f = &fs[i];
        let ghost before = out@;
        out.append("    ");
        out.append(f.at.as_str());
        out.append(" ");
        out.append(f.stage.as_str());
        out.append("/");
        out.append(f.step.as_str());
        out.append(" ");
        push_opt(out, &f.shot_id, "-");
        out.append(" → ");
        push_opt(out, &f.error_code, "未知");
        out.append("\n");
        assert(out@ =~= before + failure_line(fs@[i as int]));
        i = i + 1;
    }
}

fn push_totals(out: &mut String, r: &Report, shown: &Vec<String>)
    requires
        shown@.len() >= 4,
    ensures
        final(out)@ == old(out)@ + totals_text(*r, views_of(shown@)),
{
    out.append("  作品      ");
    out.append(r.bundle.as_str());
    out.append("\n");
    out.append("  执行耗时  ");
    out.append(shown[0].as_str());
    out.append("（渲染 ");
    out.append(shown[1].as_str());
    out.append(" · 后期 ");
    out.append(shown[2].as_str());
    out.append(" · 验收 ");
    out.append(shown[3].as_str());
    out.append("）\n");
    out.append("  节点      用了 ");
    push_u64(out, r.nodes_used as u64);
    out.append(" 个\n\n");
}

fn push_sections(out: &mut String, r: &Report, shown: &Vec<String>)
    requires
        shown@.len() == 4 + 4 * r.shots@.len() + r.nodes@.len() + r.steps@.len(),
    ensures
        final(out)@ == old(out)@ + shots_section(*r, views_of(shown@)) + nodes_section(
            *r,
            views_of(shown@),
        ) + steps_section(*r, views_of(shown@)),
{
    let ghost a = out@;
    if r.shots.len() > 0 {
        out.append("  逐镜头\n");
        out.append("    镜头     选节点    提交      渲染        下载      节点\n");
        push_shot_lines(out, r, shown);
        out.append("\n");
    }
    let ghost b = out@;
    assert(b =~= a + shots_section(*r, views_of(shown@)));
    if r.nodes.len() > 0 {
        out.append("  节点负载\n");
        push_node_lines(out, r, shown);
        out.append("\n");
    }
    let ghost c = out@;
    assert(c =~= b + nodes_section(*r, views_of(shown@)));
    out.append("  各步骤耗时\n");
    push_step_lines(out, r, shown);
    out.append("\n");
}

/// The report as text for a terminal. `shown` are the texts of
/// `durations(r)`, in the same order.
pub fn render(r: &Report, shown: &Vec<String>) -> (s: String)
    requires
        shown@.len() == durations_of(*r).len(),
    ensures
        s@ == report_text(*r, views_of(shown@)),
{
    proof {
        lemma_duration_lens(*r);
    }
    let mut s = String::from_str("执行侧报告 · ");
    s.append(r.generated_at.as_str());
    if !r.has_data {
        s.append("\n\n  作品 ");
        s.append(r.bundle.as_str());
        s.append(
            "\n\n  这部作品还没跑过确定性阶段（渲染 / 后期 / 验收）。\n  提示词包确认之后控制面会自动开始，跑完再来看这份报告。\n  Agent 那一侧的报告用 `studiod e2e report`。\n",
        );
        return s;
    }
    s.append("\n\n");
    push_totals(&mut s, r, shown);
    push_sections(&mut s, r, shown);
    let ghost d = s@;
    if r.failures.len() > 0 {
        s.append("  失败\n");
        push_failure_lines(&mut s, &r.failures);
        s.append("\n");
    }
    assert(s@ =~= d + failures_section(*r));
    if r.passed {
        s.append("结论：执行链路全部成功。\n");
    } else {
        s.append("结论：有失败，见上面「失败」。\n");
    }
    s
}

} // verus!
