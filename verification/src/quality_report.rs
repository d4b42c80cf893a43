//! The quality report of a whole bundle: the quality gate run over every
//! stage that has outputs, after the fact.
//!
//! The rules are the ones the submission gate runs (`quality`); this module
//! only gathers the stages' outputs into one report and lays it out. The
//! submission gate only runs at the moment of submission and only stops on
//! blocking findings; outputs already stored are not looked at again. CI and
//! acceptance want the whole bundle checked from end to end.
use vstd::prelude::*;
use crate::error::Violation;
use crate::json::Outputs;
use crate::quality::{
    across_findings, check_across_stages, check_stage, finding_views, metric_views, metrics,
    stage_findings, stage_metrics, Finding, FindingView, Metric, MetricView, Severity,
};
use crate::stage::StageId;
use crate::state::StageState;
use crate::text::{dec_nat, push_u64, views_of};

verus! {

broadcast use vstd::string::group_string_axioms;

/// The report of one stage.
#[derive(Debug, Clone, PartialEq)]
pub struct StageReport {
    pub stage: String,
    pub state: String,
    pub findings: Vec<Finding>,
    pub metrics: Vec<Metric>,
}

/// The report of a bundle.
#[derive(Debug, Clone, PartialEq)]
pub struct Report {
    pub title: String,
    pub bundle: String,
    /// Whether any stage has outputs. An empty bundle is no failure, only no data.
    pub has_data: bool,
    pub passed: bool,
    pub blocking: usize,
    pub advisory: usize,
    pub stages: Vec<StageReport>,
    /// The conclusions across stages (identity lock consistency).
    pub cross_stage: Vec<Finding>,
    pub problem: Option<String>,
}

/// How a stage's state reads in the report.
pub open spec fn state_label(s: StageState) -> Seq<char> {
    match s {
        StageState::Draft => "草稿"@,
        StageState::AwaitingConfirmation => "等确认"@,
        StageState::Approved => "已通过"@,
    }
}

pub fn state_name(s: StageState) -> (r: &'static str)
    ensures
        r@ == state_label(s),
{
    match s {
        StageState::Draft => "草稿",
        StageState::AwaitingConfirmation => "等确认",
        StageState::Approved => "已通过",
    }
}

/// How many findings have severity `s`.
pub open spec fn severity_count(f: Seq<FindingView>, s: Severity) -> nat
    decreases f.len(),
{
    if f.len() == 0 {
        0
    } else {
        severity_count(f.drop_last(), s) + (if f.last().4 == s {
            1nat
        } else {
            0nat
        })
    }
}

fn count_severity(f: &Vec<Finding>, s: Severity) -> (r: usize)
    ensures
        r == severity_count(finding_views(f@), s),
        r <= f@.len(),
{
    let ghost fv = finding_views(f@);
    let mut n: usize = 0;
    let mut i: usize = 0;
    while i < f.len()
        invariant
            fv == finding_views(f@),
            i <= f@.len(),
            n <= i,
            n == severity_count(fv.subrange(0, i as int), s),
        decreases f.len() - i,
    {
        assert(fv.subrange(0, i + 1).drop_last() =~= fv.subrange(0, i as int));
        if f[i].severity == s {
            n = n + 1;
        }
        i = i + 1;
    }
    assert(fv.subrange(0, f@.len() as int) =~= fv);
    n
}

/// A stage as loaded from a bundle: which stage, its state, its outputs.
pub type Loaded = (StageId, StageState, Outputs);

/// Whether a loaded stage is reported on.
pub open spec fn is_reported(stage: StageId, only: Option<StageId>) -> bool {
    match only {
        Some(o) => o == stage,
        None => true,
    }
}

/// The stages reported on, among the first `n` loaded, in order: stage name,
/// state, findings, metrics.
pub open spec fn reported(loaded: Seq<Loaded>, only: Option<StageId>, n: int) -> Seq<
    (Seq<char>, Seq<char>, Seq<FindingView>, Seq<MetricView>),
>
    decreases n,
{
    if n <= 0 || n > loaded.len() {
        Seq::empty()
    } else {
        let rest = reported(loaded, only, n - 1);
        let l = loaded[n - 1];
        if is_reported(l.0, only) {
            rest.push((l.0.name(), state_label(l.1), stage_findings(l.0, l.2), stage_metrics(l.0, l.2)))
        } else {
            rest
        }
    }
}

/// The findings of severity `s` over the first `n` stages reported on.
pub open spec fn reported_count(loaded: Seq<Loaded>, only: Option<StageId>, s: Severity, n: int) -> nat
    decreases n,
{
    if n <= 0 || n > loaded.len() {
        0
    } else {
        reported_count(loaded, only, s, n - 1) + (if is_reported(loaded[n - 1].0, only) {
            severity_count(stage_findings(loaded[n - 1].0, loaded[n - 1].2), s)
        } else {
            0nat
        })
    }
}

proof fn lemma_reported_count_mono(loaded: Seq<Loaded>, only: Option<StageId>, s: Severity, k: int, n: int)
    requires
        0 <= k <= n <= loaded.len(),
    ensures
        reported_count(loaded, only, s, k) <= reported_count(loaded, only, s, n),
    decreases n - k,
{
    if n > k {
        lemma_reported_count_mono(loaded, only, s, k, n - 1);
    }
}

pub open spec fn outputs_of(loaded: Seq<Loaded>) -> Seq<(StageId, Outputs)> {
    loaded.map_values(|l: Loaded| (l.0, l.2))
}

impl StageReport {
    pub open spec fn view_of(self) -> (Seq<char>, Seq<char>, Seq<FindingView>, Seq<MetricView>) {
        (self.stage@, self.state@, finding_views(self.findings@), metric_views(self.metrics@))
    }
}

pub open spec fn stage_views(v: Seq<StageReport>) -> Seq<(Seq<char>, Seq<char>, Seq<FindingView>, Seq<MetricView>)> {
    v.map_values(|s: StageReport| s.view_of())
}

impl Report {
    /// A report on a bundle whose state could not be opened: not passed,
    /// with the reason.
    pub fn unopened(title: String, bundle: String, reason: &str) -> (r: Report)
        ensures
            r.title == title,
            r.bundle == bundle,
            !r.has_data,
            !r.passed,
            r.blocking == 0 && r.advisory == 0,
            r.stages@.len() == 0 && r.cross_stage@.len() == 0,
            r.problem matches Some(p) && p@ == "打不开作品状态库："@ + reason@,
    {
        let mut p = String::from_str("打不开作品状态库：");
        p.append(reason);
        Report {
            title,
            bundle,
            has_data: false,
            passed: false,
            blocking: 0,
            advisory: 0,
            stages: Vec::new(),
            cross_stage: Vec::new(),
            problem: Some(p),
        }
    }

    /// Runs the quality check over the stages that have outputs, in stage order.
    /// With `only`, just that stage is reported on; the check across stages
    /// still looks at all of them, or it could never see a drift.
    pub fn build(title: String, bundle: String, loaded: Vec<Loaded>, only: Option<StageId>) -> (r: Report)
        requires
            reported_count(loaded@, only, Severity::Blocking, loaded@.len() as int) + severity_count(
                across_findings(outputs_of(loaded@)),
                Severity::Blocking,
            ) <= usize::MAX,
            reported_count(loaded@, only, Severity::Advisory, loaded@.len() as int) <= usize::MAX,
        ensures
            r.title == title,
            r.bundle == bundle,
            r.has_data == (loaded@.len() > 0),
            stage_views(r.stages@) == reported(loaded@, only, loaded@.len() as int),
            finding_views(r.cross_stage@) == across_findings(outputs_of(loaded@)),
            r.blocking == reported_count(loaded@, only, Severity::Blocking, loaded@.len() as int)
                + severity_count(across_findings(outputs_of(loaded@)), Severity::Blocking),
            r.advisory == reported_count(loaded@, only, Severity::Advisory, loaded@.len() as int),
            r.passed == (r.blocking == 0),
            r.problem is None,
    {
        let ghost lv = loaded@;
        let n = loaded.len();
        let mut all: Vec<(StageId, Outputs)> = Vec::new();
        let mut stages: Vec<StageReport> = Vec::new();
        let mut blocking: usize = 0;
        let mut advisory: usize = 0;
        let mut rest = loaded;
        let mut i: usize = 0;
        assert(rest@.subrange(0, 0) =~= Seq::<Loaded>::empty());
        while i < n
            invariant
                n == lv.len(),
                i <= n,
                reported_count(lv, only, Severity::Blocking, n as int) <= usize::MAX,
                reported_count(lv, only, Severity::Advisory, n as int) <= usize::MAX,
                rest@ == lv.subrange(i as int, n as int),
                all@ == outputs_of(lv.subrange(0, i as int)),
                stage_views(stages@) == reported(lv, only, i as int),
                blocking == reported_count(lv, only, Severity::Blocking, i as int),
                advisory == reported_count(lv, only, Severity::Advisory, i as int),
            decreases n - i,
        {
            let (stage, state, outputs) = rest.remove(0);
            assert(lv[i as int] == (stage, state, outputs));
            if match only {
                Some(o) => o == stage,
                None => true,
            } {
                let findings = check_stage(stage, &outputs);
                let b = count_severity(&findings, Severity::Blocking);
                let a = count_severity(&findings, Severity::Advisory);
                let m = metrics(stage, &outputs);
                proof {
                    lemma_reported_count_mono(lv, only, Severity::Blocking, i + 1, n as int);
                    lemma_reported_count_mono(lv, only, Severity::Advisory, i + 1, n as int);
                }
                blocking = blocking + b;
                advisory = advisory + a;
                let ghost before = stage_views(stages@);
                stages.push(
                    StageReport {
                        stage: String::from_str(stage.as_str()),
                        state: String::from_str(state_name(state)),
                        findings,
                        metrics: m,
                    },
                );
                assert(stage_views(stages@) =~= before.push(stages@.last().view_of()));
            }
            let ghost before_all = all@;
            all.push((stage, outputs));
            assert(all@ =~= outputs_of(lv.subrange(0, i + 1)));
            i = i + 1;
            assert(rest@ =~= lv.subrange(i as int, n as int));
        }
        assert(lv.subrange(0, n as int) =~= lv);
        let cross = check_across_stages(all.as_slice());
        let cb = count_severity(&cross, Severity::Blocking);
        let total = blocking + cb;
        Report {
            title,
            bundle,
            has_data: n > 0,
            passed: total == 0,
            blocking: total,
            advisory,
            stages,
            cross_stage: cross,
            problem: None,
        }
    }
}

// ---------------------------------------------------------------------------
// Laying the report out.

/// The columns a character takes on a terminal: CJK ideographs, full-width
/// punctuation and kana take two, everything else one. Good enough to line
/// up a table whose names mix Chinese and ASCII.
pub open spec fn char_cols(c: char) -> nat {
    let u = c as u32;
    if (0x1100 <= u <= 0x115F) || (0x2E80 <= u <= 0xA4CF) || (0xAC00 <= u <= 0xD7A3) || (0xF900
        <= u <= 0xFAFF) || (0xFE30 <= u <= 0xFE6F) || (0xFF00 <= u <= 0xFF60) || (0xFFE0 <= u
        <= 0xFFE6) || (0x20000 <= u <= 0x3FFFD) {
        2
    } else {
        1
    }
}

pub fn char_width(c: char) -> (r: usize)
    ensures
        r == char_cols(c),
{
    let u = c as u32;
    if (0x1100 <= u && u <= 0x115F) || (0x2E80 <= u && u <= 0xA4CF) || (0xAC00 <= u && u <= 0xD7A3)
        || (0xF900 <= u && u <= 0xFAFF) || (0xFE30 <= u && u <= 0xFE6F) || (0xFF00 <= u && u
        <= 0xFF60) || (0xFFE0 <= u && u <= 0xFFE6) || (0x20000 <= u && u <= 0x3FFFD) {
        2
    } else {
        1
    }
}

/// The columns a text takes.
pub open spec fn text_cols(s: Seq<char>) -> nat
    decreases s.len(),
{
    if s.len() == 0 {
        0
    } else {
        text_cols(s.drop_last()) + char_cols(s.last())
    }
}

pub open spec fn spaces(n: nat) -> Seq<char> {
    Seq::new(n, |i: int| ' ')
}

/// The text followed by spaces up to `width` columns (none when it is
/// already that wide). Padding by characters would misalign Chinese.
pub open spec fn padded(s: Seq<char>, width: nat) -> Seq<char> {
    s + spaces(if text_cols(s) < width {
        (width - text_cols(s)) as nat
    } else {
        0
    })
}

pub fn pad(s: &str, width: usize) -> (r: String)
    ensures
        r@ == padded(s@, width as nat),
{
    let n = s.unicode_len();
    let mut w: u128 = 0;
    let mut i: usize = 0;
    while i < n
        invariant
            n == s@.len(),
            i <= n,
            w == text_cols(s@.subrange(0, i as int)),
            w <= 2 * i,
        decreases n - i,
    {
        assert(s@.subrange(0, i + 1).drop_last() =~= s@.subrange(0, i as int));
        w = w + char_width(s.get_char(i)) as u128;
        i = i + 1;
    }
    assert(s@.subrange(0, n as int) =~= s@);
    let mut out = String::from_str(s);
    let fill: usize = if w < width as u128 {
        (width as u128 - w) as usize
    } else {
        0
    };
    let ghost base = out@;
    let mut k: usize = 0;
    proof {
        reveal_strlit(" ");
    }
    while k < fill
        invariant
            k <= fill,
            base == s@,
            " "@ == seq![' '],
            out@ == base + spaces(k as nat),
        decreases fill - k,
    {
        out.append(" ");
        k = k + 1;
        assert(out@ =~= base + spaces(k as nat));
    }
    out
}

pub open spec fn severity_label(s: Severity) -> Seq<char> {
    match s {
        Severity::Blocking => "挡提交"@,
        Severity::Advisory => "提醒  "@,
    }
}

pub fn severity_mark(s: Severity) -> (r: &'static str)
    ensures
        r@ == severity_label(s),
{
    match s {
        Severity::Blocking => "挡提交",
        Severity::Advisory => "提醒  ",
    }
}

pub open spec fn met_label(m: Option<bool>) -> Seq<char> {
    match m {
        Some(true) => "达标"@,
        Some(false) => "未达标"@,
        None => "    "@,
    }
}

pub open spec fn metric_line(m: MetricView) -> Seq<char> {
    "    "@ + met_label(m.3) + "  "@ + padded(m.0, 28) + " "@ + m.1 + (match m.2 {
        Some(t) => "  目标 "@ + t,
        None => Seq::empty(),
    }) + "\n"@
}

pub open spec fn finding_line(f: FindingView) -> Seq<char> {
    "    "@ + severity_label(f.4) + "  "@ + f.2 + "\n            "@ + f.3 + "\n"@
}

pub open spec fn metric_lines(ms: Seq<MetricView>) -> Seq<char>
    decreases ms.len(),
{
    if ms.len() == 0 {
        Seq::empty()
    } else {
        metric_lines(ms.drop_last()) + metric_line(ms.last())
    }
}

pub open spec fn finding_lines(fs: Seq<FindingView>) -> Seq<char>
    decreases fs.len(),
{
    if fs.len() == 0 {
        Seq::empty()
    } else {
        finding_lines(fs.drop_last()) + finding_line(fs.last())
    }
}

pub open spec fn stage_block(s: (Seq<char>, Seq<char>, Seq<FindingView>, Seq<MetricView>)) -> Seq<char> {
    s.0 + "  ("@ + s.1 + ")\n"@ + metric_lines(s.3) + finding_lines(s.2) + "\n"@
}

pub open spec fn stage_blocks(v: Seq<(Seq<char>, Seq<char>, Seq<FindingView>, Seq<MetricView>)>) -> Seq<char>
    decreases v.len(),
{
    if v.len() == 0 {
        Seq::empty()
    } else {
        stage_blocks(v.drop_last()) + stage_block(v.last())
    }
}

/// The report as text.
pub open spec fn report_text(r: Report) -> Seq<char> {
    let head = "质量报告  "@ + r.title@ + "\n"@ + "作品      "@ + r.bundle@ + "\n\n"@;
    match r.problem {
        Some(p) => head + "  "@ + p@ + "\n"@,
        None => if !r.has_data {
            head + "  还没有任何阶段产物，没什么可查的。\n"@
        } else {
            let cross = finding_views(r.cross_stage@);
            head + stage_blocks(stage_views(r.stages@)) + (if cross.len() > 0 {
                "跨阶段\n"@ + finding_lines(cross) + "\n"@
            } else {
                Seq::empty()
            }) + "共 "@ + dec_nat(r.blocking as nat) + " 条挡提交、"@ + dec_nat(r.advisory as nat)
                + " 条提醒。"@ + (if r.passed {
                "质量闸通过。"@
            } else {
                "没通过——挡提交的那些改完再来。"@
            }) + "\n"@ + (if !r.passed {
                "\n每条方括号里是规则名，对应的写法说明在作品的\n"@
                    + "  .agents/doctrine/quality/checklist.md\n"@
            } else {
                Seq::empty()
            })
        },
    }
}

fn push_finding_lines(out: &mut String, fs: &Vec<Finding>)
    ensures
        final(out)@ == old(out)@ + finding_lines(finding_views(fs@)),
{
    let ghost fv = finding_views(fs@);
    let mut i: usize = 0;
    while i < fs.len()
        invariant
            fv == finding_views(fs@),
            i <= fs@.len(),
            out@ == old(out)@ + finding_lines(fv.subrange(0, i as int)),
        decreases fs.len() - i,
    {
        assert(fv.subrange(0, i + 1).drop_last() =~= fv.subrange(0, i as int));
        let f = &fs[i];
        out.append("    ");
        out.append(severity_mark(f.severity));
        out.append("  ");
        out.append(f.path.as_str());
        out.append("\n            ");
        out.append(f.message.as_str());
        out.append("\n");
        i = i + 1;
        assert(out@ =~= old(out)@ + finding_lines(fv.subrange(0, i as int)));
    }
    assert(fv.subrange(0, fs@.len() as int) =~= fv);
}

fn push_metric_line(out: &mut String, m: &Metric)
    ensures
        final(out)@ == old(out)@ + metric_line(m@),
{
    out.append("    ");
    let mark = match m.met {
        Some(true) => "达标",
        Some(false) => "未达标",
        None => "    ",
    };
    out.append(mark);
    out.append("  ");
    out.append(pad(m.name.as_str(), 28).as_str());
    out.append(" ");
    out.append(m.value.as_str());
    match &m.target {
        Some(t) => {
            out.append("  目标 ");
            out.append(t.as_str());
        },
        None => {},
    }
    out.append("\n");
    assert(final(out)@ =~= old(out)@ + metric_line(m@));
}

fn push_metric_lines(out: &mut String, ms: &Vec<Metric>)
    ensures
        final(out)@ == old(out)@ + metric_lines(metric_views(ms@)),
{
    let ghost mv = metric_views(ms@);
    let mut i: usize = 0;
    while i < ms.len()
        invariant
            mv == metric_views(ms@),
            i <= ms@.len(),
            out@ == old(out)@ + metric_lines(mv.subrange(0, i as int)),
        decreases ms.len() - i,
    {
        assert(mv.subrange(0, i + 1).drop_last() =~= mv.subrange(0, i as int));
        assert(mv[i as int] == ms@[i as int]@);
        push_metric_line(out, &ms[i]);
        i = i + 1;
        assert(out@ =~= old(out)@ + metric_lines(mv.subrange(0, i as int)));
    }
    assert(mv.subrange(0, ms@.len() as int) =~= mv);
}

/// The report as text for a terminal.
pub fn render(r: &Report) -> (s: String)
    ensures
        s@ == report_text(*r),
{
    let mut out = String::from_str("质量报告  ");
    out.append(r.title.as_str());
    out.append("\n");
    out.append("作品      ");
    out.append(r.bundle.as_str());
    out.append("\n\n");
    match &r.problem {
        Some(p) => {
            out.append("  ");
            out.append(p.as_str());
            out.append("\n");
            return out;
        },
        None => {},
    }
    if !r.has_data {
        out.append("  还没有任何阶段产物，没什么可查的。\n");
        return out;
    }
    let ghost head = out@;
    let ghost sv = stage_views(r.stages@);
    let mut i: usize = 0;
    while i < r.stages.len()
        invariant
            sv == stage_views(r.stages@),
            i <= r.stages@.len(),
            out@ == head + stage_blocks(sv.subrange(0, i as int)),
        decreases r.stages.len() - i,
    {
        assert(sv.subrange(0, i + 1).drop_last() =~= sv.subrange(0, i as int));
        let st = &r.stages[i];
        let ghost b0 = out@;
        out.append(st.stage.as_str());
        out.append("  (");
        out.append(st.state.as_str());
        out.append(")\n");
        push_metric_lines(&mut out, &st.metrics);
        push_finding_lines(&mut out, &st.findings);
        out.append("\n");
        assert(out@ =~= b0 + stage_block(st.view_of()));
        i = i + 1;
        assert(out@ =~= head + stage_blocks(sv.subrange(0, i as int)));
    }
    assert(sv.subrange(0, r.stages@.len() as int) =~= sv);
    let ghost mid = out@;
    if r.cross_stage.len() > 0 {
        out.append("跨阶段\n");
        push_finding_lines(&mut out, &r.cross_stage);
        out.append("\n");
    }
    out.append("共 ");
    push_u64(&mut out, r.blocking as u64);
    out.append(" 条挡提交、");
    push_u64(&mut out, r.advisory as u64);
    out.append(" 条提醒。");
    out.append(if r.passed {
        "质量闸通过。"
    } else {
        "没通过——挡提交的那些改完再来。"
    });
    out.append("\n");
    if !r.passed {
        out.append("\n每条方括号里是规则名，对应的写法说明在作品的\n");
        out.append("  .agents/doctrine/quality/checklist.md\n");
    }
    assert(out@ =~= report_text(*r));
    out
}

} // verus!
