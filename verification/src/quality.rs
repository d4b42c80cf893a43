//! The quality gate.
//!
//! The schema checks the *shape* of a stage's outputs; this module checks
//! that the content is hard enough to shoot. Every rule is mechanical
//! (string equality, word-list hits, counts) and reads one stage's outputs
//! only, so the same outputs give the same findings wherever they are
//! checked. Blocking findings stop a submission; advisory ones are only
//! reported.
use vstd::prelude::*;
use crate::error::{violation_views, StudioError, Violation};
use crate::json::{Json, Outputs};
use crate::lexicon::{
    banned_tier1_hits, hits_in, lowercase, BANNED_TIER1, CAMERA_MOTIONS, MINIMAX_CAMERA_COMMANDS,
};
use crate::prose::prose_of;
use crate::order::pair_views;
use crate::stage::StageId;
pub use crate::prose::prose;
use crate::text::{
    dec_nat, join_seq, join_strs, push_u128, push_u64, seq_contains, seq_starts_with, str_contains, str_eq,
    str_starts_with, str_views_of,
};

verus! {

broadcast use vstd::string::group_string_axioms;

/// How much a finding weighs.
#[derive(Debug, Clone, Copy, PartialEq, Eq, Structural)]
pub enum Severity {
    /// Stops the submission.
    Blocking,
    /// Only reported.
    Advisory,
}

impl Severity {
    pub open spec fn name(self) -> Seq<char> {
        match self {
            Severity::Blocking => "blocking"@,
            Severity::Advisory => "advisory"@,
        }
    }

    pub fn as_str(self) -> (r: &'static str)
        ensures
            r@ == self.name(),
    {
        match self {
            Severity::Blocking => "blocking",
            Severity::Advisory => "advisory",
        }
    }
}

/// One quality problem.
#[derive(Debug, Clone, PartialEq)]
pub struct Finding {
    pub stage: StageId,
    /// The rule's stable identifier; reports group by it.
    pub rule: String,
    /// The path inside the outputs, written as schema violations write it.
    pub path: String,
    pub message: String,
    pub severity: Severity,
}

/// A finding as plain values: stage, rule, path, message, severity.
pub type FindingView = (StageId, Seq<char>, Seq<char>, Seq<char>, Severity);

impl View for Finding {
    type V = FindingView;

    open spec fn view(&self) -> FindingView {
        (self.stage, self.rule@, self.path@, self.message@, self.severity)
    }
}

pub open spec fn finding_views(v: Seq<Finding>) -> Seq<FindingView> {
    v.map_values(|f: Finding| f@)
}

impl Finding {
    fn blocking(stage: StageId, rule: &str, path: String, message: String) -> (r: Finding)
        ensures
            r@ == (stage, rule@, path@, message@, Severity::Blocking),
    {
        Finding {
            stage,
            rule: String::from_str(rule),
            path,
            message,
            severity: Severity::Blocking,
        }
    }

    fn advisory(stage: StageId, rule: &str, path: String, message: String) -> (r: Finding)
        ensures
            r@ == (stage, rule@, path@, message@, Severity::Advisory),
    {
        Finding {
            stage,
            rule: String::from_str(rule),
            path,
            message,
            severity: Severity::Advisory,
        }
    }
}

/// The rule list: name, severity and what the rule is for.
pub const RULES: [(&'static str, Severity, &'static str); 7] = [
    (
        "banned_word",
        Severity::Blocking,
        "面向模型的文本里出现 Tier 1 禁用词（cinematic / 电影感 / 唯美这类）。这些词对模型是噪声，对人是废话，占着字数不给信息",
    ),
    (
        "banned_word_upstream",
        Severity::Advisory,
        "创意/剧本阶段的文本里出现禁用词。这一层还没面向模型，不挡提交，但它会一路抄进分镜",
    ),
    (
        "thin_fact",
        Severity::Blocking,
        "物理事实太短，写不下一个可拍的动作。少于 6 个字的多半是形容词",
    ),
    (
        "identity_lock_missing",
        Severity::Blocking,
        "镜头提示词里没有逐字带上身份锁。一致性靠同一个字符串被复制，不靠每次重新描述",
    ),
    (
        "identity_lock_drift",
        Severity::Blocking,
        "身份锁在各阶段之间不是同一个字符串。近义改写等于换了一个人",
    ),
    (
        "thin_prompt",
        Severity::Advisory,
        "镜头提示词过短。低于 40 字通常意味着分镜里写好的东西没编译进来",
    ),
    (
        "no_camera_command",
        Severity::Advisory,
        "提示词里没有出现该系列的运镜指令，分镜定的运镜没有传达给模型",
    ),
];

// ---------------------------------------------------------------------------
// The model of the outputs that the rules read.

/// `outputs[key].shots` as an array, or nothing.
pub open spec fn shots_in(o: Outputs, key: Seq<char>) -> Seq<Json> {
    match o.field(key) {
        Some(v) => match v.field("shots"@) {
            Some(s) => match s.items() {
                Some(a) => a,
                None => Seq::empty(),
            },
            None => Seq::empty(),
        },
        None => Seq::empty(),
    }
}

/// The string under `key`, or the empty string.
pub open spec fn text_field(v: Json, key: Seq<char>) -> Seq<char> {
    match v.field(key) {
        Some(x) => match x.str_of() {
            Some(s) => s,
            None => Seq::empty(),
        },
        None => Seq::empty(),
    }
}

/// The string at `outputs[k1][k2][k3]`, if there is one.
pub open spec fn lock_in(o: Outputs, k1: Seq<char>, k2: Seq<char>, k3: Seq<char>) -> Option<
    Seq<char>,
> {
    match o.field(k1) {
        Some(a) => match a.field(k2) {
            Some(b) => match b.field(k3) {
                Some(c) => c.str_of(),
                None => None,
            },
            None => None,
        },
        None => None,
    }
}

/// The identity lock that the prompt pack declares.
pub open spec fn identity_lock_of(o: Outputs) -> Option<Seq<char>> {
    lock_in(o, "prompt_pack"@, "identity_lock"@, "character"@)
}

// ---------------------------------------------------------------------------
// Banned words.

/// Stages whose text goes to a model block on a banned word; upstream ones only warn.
pub open spec fn model_facing(stage: StageId) -> bool {
    stage == StageId::Storyboard || stage == StageId::VisualAssets || stage == StageId::PromptPack
}

pub open spec fn banned_rule(stage: StageId) -> Seq<char> {
    if model_facing(stage) {
        "banned_word"@
    } else {
        "banned_word_upstream"@
    }
}

pub open spec fn banned_severity(stage: StageId) -> Severity {
    if model_facing(stage) {
        Severity::Blocking
    } else {
        Severity::Advisory
    }
}

pub open spec fn tier1_hits(text: Seq<char>) -> Seq<&'static str> {
    hits_in(lowercase(text), BANNED_TIER1@)
}

pub open spec fn banned_message(hits: Seq<&'static str>) -> Seq<char> {
    "出现禁用词 "@ + join_seq(str_views_of(hits), "、"@)
        + "。换成拍得出来的具体描述：光是从哪儿来的、人在做什么动作、画面里有什么东西"@
}

/// One finding per prose item (of the first `n`) with a Tier 1 hit.
pub open spec fn banned_findings(stage: StageId, items: Seq<(Seq<char>, Seq<char>)>, n: int) -> Seq<
    FindingView,
>
    decreases n,
{
    if n <= 0 || n > items.len() {
        Seq::empty()
    } else {
        let rest = banned_findings(stage, items, n - 1);
        let hits = tier1_hits(items[n - 1].1);
        if hits.len() == 0 {
            rest
        } else {
            rest.push(
                (
                    stage,
                    banned_rule(stage),
                    items[n - 1].0,
                    banned_message(hits),
                    banned_severity(stage),
                ),
            )
        }
    }
}

// ---------------------------------------------------------------------------
// Storyboard: physical facts long enough to shoot.

pub open spec fn thin_fact_path(i: int, j: int) -> Seq<char> {
    "storyboard.shots["@ + dec_nat(i as nat) + "].three_facts["@ + dec_nat(j as nat) + "]"@
}

pub open spec fn thin_fact_message(s: Seq<char>) -> Seq<char> {
    "「"@ + s + "」太短，说不出一个可拍的事实。物理事实要么是一个动作，要么是一个能看见/听见的东西"@
}

/// Findings for the first `n` facts of shot `i`.
pub open spec fn fact_findings(i: int, facts: Seq<Json>, n: int) -> Seq<FindingView>
    decreases n,
{
    if n <= 0 || n > facts.len() {
        Seq::empty()
    } else {
        let rest = fact_findings(i, facts, n - 1);
        match facts[n - 1].str_of() {
            Some(s) => if s.len() < 6 {
                rest.push(
                    (
                        StageId::Storyboard,
                        "thin_fact"@,
                        thin_fact_path(i, n - 1),
                        thin_fact_message(s),
                        Severity::Blocking,
                    ),
                )
            } else {
                rest
            },
            None => rest,
        }
    }
}

/// The facts of a shot, when it has an array of them.
pub open spec fn facts_of(shot: Json) -> Seq<Json> {
    match shot.field("three_facts"@) {
        Some(f) => match f.items() {
            Some(a) => a,
            None => Seq::empty(),
        },
        None => Seq::empty(),
    }
}

/// Findings for the first `n` storyboard shots.
pub open spec fn storyboard_findings(shots: Seq<Json>, n: int) -> Seq<FindingView>
    decreases n,
{
    if n <= 0 || n > shots.len() {
        Seq::empty()
    } else {
        let facts = facts_of(shots[n - 1]);
        storyboard_findings(shots, n - 1) + fact_findings(n - 1, facts, facts.len() as int)
    }
}

// ---------------------------------------------------------------------------
// Prompt pack: the lock carried verbatim, prompts long enough, camera commands.

pub open spec fn positive_path(i: int) -> Seq<char> {
    "prompt_pack.shots["@ + dec_nat(i as nat) + "].positive"@
}

pub open spec fn missing_lock_message(lock: Seq<char>) -> Seq<char> {
    "没有逐字带上身份锁「"@ + lock
        + "」。把 prompt_pack.identity_lock.character 复制过来，不要复述"@
}

pub open spec fn thin_prompt_message(n: nat) -> Seq<char> {
    "只有 "@ + dec_nat(n) + " 个字。分镜里的三条物理事实、光源、景别、前中后景是不是没编译进来？"@
}

pub open spec fn no_camera_message() -> Seq<char> {
    "这个系列吃方括号运镜指令（例如 [Push in]），提示词里一条都没有——分镜定的运镜等于没传达"@
}

/// Whether a prompt carries one of the MiniMax bracket camera commands.
pub open spec fn has_camera_command(p: Seq<char>) -> bool {
    exists|k: int|
        0 <= k < MINIMAX_CAMERA_COMMANDS@.len() && seq_contains(
            p,
            (#[trigger] MINIMAX_CAMERA_COMMANDS@[k]).1@,
        )
}

pub open spec fn lock_findings(lock: Option<Seq<char>>, i: int, positive: Seq<char>) -> Seq<
    FindingView,
> {
    match lock {
        Some(l) => if l.len() > 0 && !seq_contains(positive, l) {
            seq![
                (
                    StageId::PromptPack,
                    "identity_lock_missing"@,
                    positive_path(i),
                    missing_lock_message(l),
                    Severity::Blocking,
                ),
            ]
        } else {
            Seq::empty()
        },
        None => Seq::empty(),
    }
}

pub open spec fn thin_prompt_findings(i: int, positive: Seq<char>) -> Seq<FindingView> {
    if positive.len() < 40 {
        seq![
            (
                StageId::PromptPack,
                "thin_prompt"@,
                positive_path(i),
                thin_prompt_message(positive.len()),
                Severity::Advisory,
            ),
        ]
    } else {
        Seq::empty()
    }
}

pub open spec fn camera_findings(i: int, positive: Seq<char>, workflow: Seq<char>) -> Seq<
    FindingView,
> {
    if seq_starts_with(workflow, "minimax_h3/"@) && !has_camera_command(positive) {
        seq![
            (
                StageId::PromptPack,
                "no_camera_command"@,
                positive_path(i),
                no_camera_message(),
                Severity::Advisory,
            ),
        ]
    } else {
        Seq::empty()
    }
}

/// The findings for shot `i` of the prompt pack.
pub open spec fn shot_findings(lock: Option<Seq<char>>, i: int, shot: Json) -> Seq<FindingView> {
    let positive = text_field(shot, "positive"@);
    lock_findings(lock, i, positive) + thin_prompt_findings(i, positive) + camera_findings(
        i,
        positive,
        text_field(shot, "workflow"@),
    )
}

/// Findings for the first `n` prompt-pack shots.
pub open spec fn prompt_pack_findings(lock: Option<Seq<char>>, shots: Seq<Json>, n: int) -> Seq<
    FindingView,
>
    decreases n,
{
    if n <= 0 || n > shots.len() {
        Seq::empty()
    } else {
        prompt_pack_findings(lock, shots, n - 1) + shot_findings(lock, n - 1, shots[n - 1])
    }
}

/// Everything the rules find in one stage's outputs, in report order.
pub open spec fn stage_findings(stage: StageId, o: Outputs) -> Seq<FindingView> {
    let p = prose_of(o);
    banned_findings(stage, p, p.len() as int) + match stage {
        StageId::Storyboard => {
            let s = shots_in(o, "storyboard"@);
            storyboard_findings(s, s.len() as int)
        },
        StageId::PromptPack => {
            let s = shots_in(o, "prompt_pack"@);
            prompt_pack_findings(identity_lock_of(o), s, s.len() as int)
        },
        _ => Seq::empty(),
    }
}

/// The blocking findings as violations: the path, and `[rule] message`.
pub open spec fn blocking_of(f: Seq<FindingView>) -> Seq<(Seq<char>, Seq<char>)>
    decreases f.len(),
{
    if f.len() == 0 {
        Seq::empty()
    } else {
        let rest = blocking_of(f.drop_last());
        let x = f.last();
        if x.4 == Severity::Blocking {
            rest.push((x.2, "["@ + x.1 + "] "@ + x.3))
        } else {
            rest
        }
    }
}


// ---------------------------------------------------------------------------
// Executable rules.

fn shots_of<'a>(outputs: &'a Outputs, key: &str) -> (r: Option<&'a Vec<Json>>)
    ensures
        r matches Some(v) ==> v@ == shots_in(*outputs, key@),
        r is None ==> shots_in(*outputs, key@).len() == 0,
{
    match outputs.get(key) {
        Some(v) => match v.get("shots") {
            Some(s) => s.as_array(),
            None => None,
        },
        None => None,
    }
}

fn text_field_exec<'a>(v: &'a Json, key: &str) -> (r: &'a str)
    ensures
        r@ == text_field(*v, key@),
{
    proof {
        reveal_strlit("");
    }
    match v.get(key) {
        Some(x) => match x.as_str() {
            Some(s) => s,
            None => "",
        },
        None => "",
    }
}

fn lock_at<'a>(o: &'a Outputs, k1: &str, k2: &str, k3: &str) -> (r: Option<&'a str>)
    ensures
        r matches Some(s) ==> lock_in(*o, k1@, k2@, k3@) == Some(s@),
        r is None ==> lock_in(*o, k1@, k2@, k3@) is None,
{
    match o.get(k1) {
        Some(a) => match a.get(k2) {
            Some(b) => match b.get(k3) {
                Some(c) => c.as_str(),
                None => None,
            },
            None => None,
        },
        None => None,
    }
}

fn identity_lock(outputs: &Outputs) -> (r: Option<&str>)
    ensures
        r matches Some(s) ==> identity_lock_of(*outputs) == Some(s@),
        r is None ==> identity_lock_of(*outputs) is None,
{
    lock_at(outputs, "prompt_pack", "identity_lock", "character")
}

fn banned_words(stage: StageId, outputs: &Outputs, out: &mut Vec<Finding>)
    ensures
        finding_views(final(out)@) == finding_views(old(out)@) + banned_findings(
            stage,
            prose_of(*outputs),
            prose_of(*outputs).len() as int,
        ),
{
    let items = prose(outputs);
    let ghost p = prose_of(*outputs);
    let blocks = matches!(stage, StageId::Storyboard | StageId::VisualAssets | StageId::PromptPack);
    let mut i: usize = 0;
    while i < items.len()
        invariant
            pair_views(items@) == p,
            p == prose_of(*outputs),
            blocks == model_facing(stage),
            i <= items@.len(),
            finding_views(out@) == finding_views(old(out)@) + banned_findings(stage, p, i as int),
        decreases items.len() - i,
    {
        let hits = banned_tier1_hits(items[i].1.as_str());
        assert(p[i as int] == (items@[i as int].0@, items@[i as int].1@));
        assert(hits@ == tier1_hits(p[i as int].1));
        let ghost prev = finding_views(out@);
        if hits.len() > 0 {
            let mut msg = String::from_str("出现禁用词 ");
            let joined = join_strs(&hits, "、");
            msg.append(joined.as_str());
            msg.append("。换成拍得出来的具体描述：光是从哪儿来的、人在做什么动作、画面里有什么东西");
            let f = if blocks {
                Finding::blocking(stage, "banned_word", items[i].0.clone(), msg)
            } else {
                Finding::advisory(stage, "banned_word_upstream", items[i].0.clone(), msg)
            };
            assert(f@ == (stage, banned_rule(stage), p[i as int].0, banned_message(hits@), banned_severity(stage)));
            out.push(f);
            assert(finding_views(out@) =~= prev.push((stage, banned_rule(stage), p[i as int].0, banned_message(hits@), banned_severity(stage))));
        }
        assert(0 < i + 1 <= p.len());
        assert(banned_findings(stage, p, i + 1) == if hits@.len() == 0 { banned_findings(stage, p, i as int) } else {
            banned_findings(stage, p, i as int).push((stage, banned_rule(stage), p[i as int].0, banned_message(hits@), banned_severity(stage))) });
        i = i + 1;
        assert(finding_views(out@) =~= finding_views(old(out)@) + banned_findings(
            stage,
            p,
            i as int,
        ));
    }
}

fn thin_fact_path_exec(i: usize, j: usize) -> (r: String)
    ensures
        r@ == thin_fact_path(i as int, j as int),
{
    let mut s = String::from_str("storyboard.shots[");
    push_u64(&mut s, i as u64);
    s.append("].three_facts[");
    push_u64(&mut s, j as u64);
    s.append("]");
    s
}

fn facts_exec(shot: &Json) -> (r: Option<&Vec<Json>>)
    ensures
        r matches Some(v) ==> v@ == facts_of(*shot),
        r is None ==> facts_of(*shot).len() == 0,
{
    match shot.get("three_facts") {
        Some(f) => f.as_array(),
        None => None,
    }
}

fn storyboard(outputs: &Outputs, out: &mut Vec<Finding>)
    ensures
        finding_views(final(out)@) == finding_views(old(out)@) + storyboard_findings(
            shots_in(*outputs, "storyboard"@),
            shots_in(*outputs, "storyboard"@).len() as int,
        ),
{
    let ghost shots_v = shots_in(*outputs, "storyboard"@);
    let shots = match shots_of(outputs, "storyboard") {
        Some(s) => s,
        None => {
            assert(finding_views(out@) =~= finding_views(old(out)@) + storyboard_findings(
                shots_v,
                shots_v.len() as int,
            ));
            return ;
        },
    };
    let mut i: usize = 0;
    while i < shots.len()
        invariant
            shots@ == shots_v,
            i <= shots@.len(),
            finding_views(out@) == finding_views(old(out)@) + storyboard_findings(
                shots_v,
                i as int,
            ),
        decreases shots.len() - i,
    {
        let ghost before = finding_views(out@);
        let ghost facts_v = facts_of(shots@[i as int]);
        match facts_exec(&shots[i]) {
            Some(facts) => {
                let mut j: usize = 0;
                while j < facts.len()
                    invariant
                        facts@ == facts_v,
                        j <= facts@.len(),
                        finding_views(out@) == before + fact_findings(i as int, facts_v, j as int),
                    decreases facts.len() - j,
                {
                    assert(facts_v[j as int] == facts@[j as int]);
                    let ghost prev = finding_views(out@);
                    match facts[j].as_str() {
                        Some(s) => {
                            if s.unicode_len() < 6 {
                                let mut msg = String::from_str("「");
                                msg.append(s);
                                msg.append(
                                    "」太短，说不出一个可拍的事实。物理事实要么是一个动作，要么是一个能看见/听见的东西",
                                );
                                let f = Finding::blocking(
                                    StageId::Storyboard,
                                    "thin_fact",
                                    thin_fact_path_exec(i, j),
                                    msg,
                                );
                                assert(f@ == (
                                    StageId::Storyboard,
                                    "thin_fact"@,
                                    thin_fact_path(i as int, j as int),
                                    thin_fact_message(s@),
                                    Severity::Blocking,
                                ));
                                out.push(f);
                                assert(finding_views(out@) =~= prev.push(f@));
                            }
                        },
                        None => {},
                    }
                    j = j + 1;
                    assert(finding_views(out@) =~= before + fact_findings(
                        i as int,
                        facts_v,
                        j as int,
                    ));
                }
            },
            None => {
                assert(fact_findings(i as int, facts_v, facts_v.len() as int) =~= Seq::empty());
            },
        }
        i = i + 1;
        assert(finding_views(out@) =~= finding_views(old(out)@) + storyboard_findings(
            shots_v,
            i as int,
        ));
    }
}

fn positive_path_exec(i: usize) -> (r: String)
    ensures
        r@ == positive_path(i as int),
{
    let mut s = String::from_str("prompt_pack.shots[");
    push_u64(&mut s, i as u64);
    s.append("].positive");
    s
}

fn has_camera_command_exec(p: &str) -> (r: bool)
    ensures
        r == has_camera_command(p@),
{
    let mut k: usize = 0;
    while k < MINIMAX_CAMERA_COMMANDS.len()
        invariant
            k <= MINIMAX_CAMERA_COMMANDS@.len(),
            forall|m: int|
                0 <= m < k ==> !seq_contains(p@, (#[trigger] MINIMAX_CAMERA_COMMANDS@[m]).1@),
        decreases MINIMAX_CAMERA_COMMANDS.len() - k,
    {
        if str_contains(p, MINIMAX_CAMERA_COMMANDS[k].1) {
            return true;
        }
        k = k + 1;
    }
    false
}

fn shot_rules(lock: Option<&str>, i: usize, shot: &Json, out: &mut Vec<Finding>)
    ensures
        finding_views(final(out)@) == finding_views(old(out)@) + shot_findings(
            match lock {
                Some(l) => Some(l@),
                None => None,
            },
            i as int,
            *shot,
        ),
{
    let ghost lock_v: Option<Seq<char>> = match lock {
        Some(l) => Some(l@),
        None => None,
    };
    let positive = text_field_exec(shot, "positive");
    let ghost start = finding_views(out@);
    match lock {
        Some(l) => {
            if l.unicode_len() > 0 && !str_contains(positive, l) {
                let mut msg = String::from_str("没有逐字带上身份锁「");
                msg.append(l);
                msg.append("」。把 prompt_pack.identity_lock.character 复制过来，不要复述");
                out.push(
                    Finding::blocking(
                        StageId::PromptPack,
                        "identity_lock_missing",
                        positive_path_exec(i),
                        msg,
                    ),
                );
            }
        },
        None => {},
    }
    assert(finding_views(out@) =~= start + lock_findings(lock_v, i as int, positive@));
    let ghost mid = finding_views(out@);
    let n = positive.unicode_len();
    if n < 40 {
        let mut msg = String::from_str("只有 ");
        push_u64(&mut msg, n as u64);
        msg.append(" 个字。分镜里的三条物理事实、光源、景别、前中后景是不是没编译进来？");
        out.push(Finding::advisory(StageId::PromptPack, "thin_prompt", positive_path_exec(i), msg));
    }
    assert(finding_views(out@) =~= mid + thin_prompt_findings(i as int, positive@));
    let ghost mid2 = finding_views(out@);
    let workflow = text_field_exec(shot, "workflow");
    if str_starts_with(workflow, "minimax_h3/") && !has_camera_command_exec(positive) {
        out.push(
            Finding::advisory(
                StageId::PromptPack,
                "no_camera_command",
                positive_path_exec(i),
                String::from_str(
                    "这个系列吃方括号运镜指令（例如 [Push in]），提示词里一条都没有——分镜定的运镜等于没传达",
                ),
            ),
        );
    }
    assert(finding_views(out@) =~= mid2 + camera_findings(i as int, positive@, workflow@));
    assert(finding_views(out@) =~= start + shot_findings(lock_v, i as int, *shot));
}

fn prompt_pack(outputs: &Outputs, out: &mut Vec<Finding>)
    ensures
        finding_views(final(out)@) == finding_views(old(out)@) + prompt_pack_findings(
            identity_lock_of(*outputs),
            shots_in(*outputs, "prompt_pack"@),
            shots_in(*outputs, "prompt_pack"@).len() as int,
        ),
{
    let lock = identity_lock(outputs);
    let ghost lock_v = identity_lock_of(*outputs);
    let ghost shots_v = shots_in(*outputs, "prompt_pack"@);
    let shots = match shots_of(outputs, "prompt_pack") {
        Some(s) => s,
        None => {
            assert(finding_views(out@) =~= finding_views(old(out)@) + prompt_pack_findings(
                lock_v,
                shots_v,
                shots_v.len() as int,
            ));
            return ;
        },
    };
    let mut i: usize = 0;
    while i < shots.len()
        invariant
            shots@ == shots_v,
            lock_v == match lock {
                Some(l) => Some(l@),
                None => None::<Seq<char>>,
            },
            i <= shots@.len(),
            finding_views(out@) == finding_views(old(out)@) + prompt_pack_findings(
                lock_v,
                shots_v,
                i as int,
            ),
        decreases shots.len() - i,
    {
        shot_rules(lock, i, &shots[i], out);
        i = i + 1;
        assert(finding_views(out@) =~= finding_views(old(out)@) + prompt_pack_findings(
            lock_v,
            shots_v,
            i as int,
        ));
    }
}

/// Checks one stage's outputs.
pub fn check_stage(stage: StageId, outputs: &Outputs) -> (r: Vec<Finding>)
    ensures
        finding_views(r@) == stage_findings(stage, *outputs),
{
    let mut out: Vec<Finding> = Vec::new();
    banned_words(stage, outputs, &mut out);
    match stage {
        StageId::Storyboard => storyboard(outputs, &mut out),
        StageId::PromptPack => prompt_pack(outputs, &mut out),
        _ => {},
    }
    assert(finding_views(out@) =~= stage_findings(stage, *outputs));
    out
}

/// Whether the outputs may be submitted: only blocking findings stop them.
pub fn gate(stage: StageId, outputs: &Outputs) -> (r: Result<(), StudioError>)
    ensures
        r is Ok <==> blocking_of(stage_findings(stage, *outputs)).len() == 0,
        r matches Err(e) ==> (e matches StudioError::QualityViolation { stage: s, findings }
            && s == stage && violation_views(findings@) == blocking_of(
            stage_findings(stage, *outputs),
        )),
{
    let findings = check_stage(stage, outputs);
    let ghost fv = finding_views(findings@);
    let mut blocking: Vec<Violation> = Vec::new();
    let mut i: usize = 0;
    while i < findings.len()
        invariant
            fv == finding_views(findings@),
            i <= findings@.len(),
            violation_views(blocking@) == blocking_of(fv.subrange(0, i as int)),
        decreases findings.len() - i,
    {
        assert(fv.subrange(0, i + 1).drop_last() =~= fv.subrange(0, i as int));
        if findings[i].severity == Severity::Blocking {
            let mut msg = String::from_str("[");
            msg.append(findings[i].rule.as_str());
            msg.append("] ");
            msg.append(findings[i].message.as_str());
            blocking.push(Violation::new(findings[i].path.clone(), msg));
        }
        i = i + 1;
        assert(violation_views(blocking@) =~= blocking_of(fv.subrange(0, i as int)));
    }
    assert(fv.subrange(0, findings@.len() as int) =~= fv);
    if blocking.len() == 0 {
        return Ok(());
    }
    Err(StudioError::QualityViolation { stage, findings: blocking })
}


// ---------------------------------------------------------------------------
// Across stages: one identity lock, copied byte for byte.

/// The outputs of the first approved entry of `stage`.
pub open spec fn find_approved(a: Seq<(StageId, Outputs)>, stage: StageId) -> Option<Outputs>
    decreases a.len(),
{
    if a.len() == 0 {
        None
    } else if a[0].0 == stage {
        Some(a[0].1)
    } else {
        find_approved(a.drop_first(), stage)
    }
}

/// Where each of the three stages writes its identity lock.
pub open spec fn lock_path(stage: StageId) -> Seq<char> {
    match stage {
        StageId::Storyboard => "storyboard.character_lock.identity_lock"@,
        StageId::VisualAssets => "asset_plan.consistency_lock.character"@,
        _ => "prompt_pack.identity_lock.character"@,
    }
}

/// The identity lock that the approved outputs of `stage` carry, if any.
pub open spec fn approved_lock(a: Seq<(StageId, Outputs)>, stage: StageId) -> Option<Seq<char>> {
    match find_approved(a, stage) {
        Some(o) => match stage {
            StageId::Storyboard => lock_in(o, "storyboard"@, "character_lock"@, "identity_lock"@),
            StageId::VisualAssets => lock_in(
                o,
                "asset_plan"@,
                "consistency_lock"@,
                "character"@,
            ),
            _ => lock_in(o, "prompt_pack"@, "identity_lock"@, "character"@),
        },
        None => None,
    }
}

pub open spec fn lock_entry(a: Seq<(StageId, Outputs)>, stage: StageId) -> Seq<
    (StageId, Seq<char>, Seq<char>),
> {
    match approved_lock(a, stage) {
        Some(l) => seq![(stage, l, lock_path(stage))],
        None => Seq::empty(),
    }
}

/// The locks present, in stage order: the stage, the lock, where it is written.
pub open spec fn present_locks(a: Seq<(StageId, Outputs)>) -> Seq<(StageId, Seq<char>, Seq<char>)> {
    lock_entry(a, StageId::Storyboard) + lock_entry(a, StageId::VisualAssets) + lock_entry(
        a,
        StageId::PromptPack,
    )
}

pub open spec fn drift_message(first_path: Seq<char>, lock: Seq<char>, first: Seq<char>) -> Seq<
    char,
> {
    "身份锁与 "@ + first_path + " 不是同一个字符串。这里写的是「"@ + lock + "」，那边写的是「"@
        + first + "」。一致性靠逐字复制，不靠近义改写"@
}

/// One finding for each of the locks `1..n` that differs from the first.
pub open spec fn drift_findings(locks: Seq<(StageId, Seq<char>, Seq<char>)>, n: int) -> Seq<
    FindingView,
>
    decreases n,
{
    if n <= 1 || n > locks.len() {
        Seq::empty()
    } else {
        let rest = drift_findings(locks, n - 1);
        let x = locks[n - 1];
        if x.1 != locks[0].1 {
            rest.push(
                (
                    x.0,
                    "identity_lock_drift"@,
                    x.2,
                    drift_message(locks[0].2, x.1, locks[0].1),
                    Severity::Blocking,
                ),
            )
        } else {
            rest
        }
    }
}

pub open spec fn across_findings(a: Seq<(StageId, Outputs)>) -> Seq<FindingView> {
    let locks = present_locks(a);
    drift_findings(locks, locks.len() as int)
}

fn find_approved_exec(approved: &[(StageId, Outputs)], stage: StageId) -> (r: Option<&Outputs>)
    ensures
        r matches Some(o) ==> find_approved(approved@, stage) == Some(*o),
        r is None ==> find_approved(approved@, stage) is None,
{
    let mut i: usize = 0;
    assert(approved@.skip(0) =~= approved@);
    while i < approved.len()
        invariant
            i <= approved@.len(),
            find_approved(approved@, stage) == find_approved(approved@.skip(i as int), stage),
        decreases approved.len() - i,
    {
        assert(approved@.skip(i as int)[0] == approved@[i as int]);
        assert(approved@.skip(i as int).drop_first() =~= approved@.skip(i + 1));
        if approved[i].0 == stage {
            return Some(&approved[i].1);
        }
        i = i + 1;
    }
    None
}

fn push_lock<'a>(
    approved: &'a [(StageId, Outputs)],
    stage: StageId,
    k1: &str,
    k2: &str,
    k3: &str,
    path: &'static str,
    locks: &mut Vec<(StageId, &'a str, &'static str)>,
)
    requires
        path@ == lock_path(stage),
        approved_lock(approved@, stage) == match find_approved(approved@, stage) {
            Some(o) => lock_in(o, k1@, k2@, k3@),
            None => None,
        },
    ensures
        lock_views(final(locks)@) == lock_views(old(locks)@) + lock_entry(approved@, stage),
{
    let lock = match find_approved_exec(approved, stage) {
        Some(o) => lock_at(o, k1, k2, k3),
        None => None,
    };
    match lock {
        Some(l) => {
            locks.push((stage, l, path));
            assert(lock_views(locks@) =~= lock_views(old(locks)@) + lock_entry(approved@, stage));
        },
        None => {
            assert(lock_views(locks@) =~= lock_views(old(locks)@) + lock_entry(approved@, stage));
        },
    }
}

pub open spec fn lock_views(v: Seq<(StageId, &str, &'static str)>) -> Seq<
    (StageId, Seq<char>, Seq<char>),
> {
    v.map_values(|x: (StageId, &str, &'static str)| (x.0, x.1@, x.2@))
}

/// Checks across stages that the storyboard, the visual assets and the prompt
/// pack carry the same identity lock, byte for byte.
pub fn check_across_stages(approved: &[(StageId, Outputs)]) -> (r: Vec<Finding>)
    ensures
        finding_views(r@) == across_findings(approved@),
{
    let mut locks: Vec<(StageId, &str, &'static str)> = Vec::new();
    push_lock(
        approved,
        StageId::Storyboard,
        "storyboard",
        "character_lock",
        "identity_lock",
        "storyboard.character_lock.identity_lock",
        &mut locks,
    );
    push_lock(
        approved,
        StageId::VisualAssets,
        "asset_plan",
        "consistency_lock",
        "character",
        "asset_plan.consistency_lock.character",
        &mut locks,
    );
    push_lock(
        approved,
        StageId::PromptPack,
        "prompt_pack",
        "identity_lock",
        "character",
        "prompt_pack.identity_lock.character",
        &mut locks,
    );
    let ghost lv = lock_views(locks@);
    assert(lv =~= present_locks(approved@));
    let mut out: Vec<Finding> = Vec::new();
    if locks.len() == 0 {
        return out;
    }
    let first = locks[0].1;
    let first_path = locks[0].2;
    let mut i: usize = 1;
    while i < locks.len()
        invariant
            lv == lock_views(locks@),
            lv.len() > 0,
            first@ == lv[0].1,
            first_path@ == lv[0].2,
            1 <= i <= lv.len(),
            finding_views(out@) == drift_findings(lv, i as int),
        decreases locks.len() - i,
    {
        let (stage, lock, path) = locks[i];
        let ghost prev = finding_views(out@);
        if !str_eq(lock, first) {
            let mut msg = String::from_str("身份锁与 ");
            msg.append(first_path);
            msg.append(" 不是同一个字符串。这里写的是「");
            msg.append(lock);
            msg.append("」，那边写的是「");
            msg.append(first);
            msg.append("」。一致性靠逐字复制，不靠近义改写");
            let f = Finding::blocking(stage, "identity_lock_drift", String::from_str(path), msg);
            assert(f@ == (
                lv[i as int].0,
                "identity_lock_drift"@,
                lv[i as int].2,
                drift_message(lv[0].2, lv[i as int].1, lv[0].1),
                Severity::Blocking,
            ));
            out.push(f);
            assert(finding_views(out@) =~= prev.push(f@));
        }
        i = i + 1;
    }
    out
}

// ---------------------------------------------------------------------------
// Metrics: reported, never blocking.

/// A measurable indicator.
#[derive(Debug, Clone, PartialEq)]
pub struct Metric {
    pub name: String,
    pub value: String,
    /// The target; `None` where there is no hard target.
    pub target: Option<String>,
    pub met: Option<bool>,
}

/// A metric as plain values: name, value, target, whether it is met.
pub type MetricView = (Seq<char>, Seq<char>, Option<Seq<char>>, Option<bool>);

impl View for Metric {
    type V = MetricView;

    open spec fn view(&self) -> MetricView {
        (
            self.name@,
            self.value@,
            match self.target {
                Some(t) => Some(t@),
                None => None,
            },
            self.met,
        )
    }
}

pub open spec fn metric_views(v: Seq<Metric>) -> Seq<MetricView> {
    v.map_values(|m: Metric| m@)
}

/// `hit/total` against a target of all; a dash when there is nothing to count.
pub open spec fn ratio_view(name: Seq<char>, hit: nat, total: nat, target: Seq<char>) -> MetricView {
    (
        name,
        if total == 0 {
            "—"@
        } else {
            dec_nat(hit) + "/"@ + dec_nat(total)
        },
        Some(target),
        Some(total > 0 && hit == total),
    )
}

/// The fewest facts over the first `n` shots (zero when there are none).
pub open spec fn min_facts(shots: Seq<Json>, n: int) -> nat
    decreases n,
{
    if n <= 0 || n > shots.len() {
        0
    } else if n == 1 {
        facts_of(shots[0]).len()
    } else {
        let m = min_facts(shots, n - 1);
        let c = facts_of(shots[n - 1]).len();
        if c < m {
            c
        } else {
            m
        }
    }
}

/// Whether a shot's camera motion is a word of the controlled vocabulary.
pub open spec fn motion_in_vocabulary(shot: Json) -> bool {
    match shot.field("camera_motion"@) {
        Some(x) => match x.str_of() {
            Some(m) => exists|k: int|
                0 <= k < CAMERA_MOTIONS@.len() && (#[trigger] CAMERA_MOTIONS@[k])@ == m,
            None => false,
        },
        None => false,
    }
}

/// Whether a shot has a sound anchor that is not null.
pub open spec fn has_audio(shot: Json) -> bool {
    match shot.field("audio"@) {
        Some(a) => !(a is Null),
        None => false,
    }
}

/// Whether a shot's prompt carries the lock verbatim.
pub open spec fn carries(shot: Json, lock: Seq<char>) -> bool {
    match shot.field("positive"@) {
        Some(x) => match x.str_of() {
            Some(p) => seq_contains(p, lock),
            None => false,
        },
        None => false,
    }
}

/// How many of the first `n` shots satisfy `p`.
pub open spec fn count_shots(shots: Seq<Json>, n: int, p: spec_fn(Json) -> bool) -> nat
    decreases n,
{
    if n <= 0 || n > shots.len() {
        0
    } else {
        count_shots(shots, n - 1, p) + if p(shots[n - 1]) {
            1nat
        } else {
            0nat
        }
    }
}

/// The total prompt length, in characters, over the first `n` shots.
pub open spec fn prompt_chars(shots: Seq<Json>, n: int) -> nat
    decreases n,
{
    if n <= 0 || n > shots.len() {
        0
    } else {
        prompt_chars(shots, n - 1) + text_field(shots[n - 1], "positive"@).len()
    }
}

/// The Tier 1 hits over the first `n` prose items.
pub open spec fn prose_hits(items: Seq<(Seq<char>, Seq<char>)>, n: int) -> nat
    decreases n,
{
    if n <= 0 || n > items.len() {
        0
    } else {
        prose_hits(items, n - 1) + tier1_hits(items[n - 1].1).len()
    }
}

pub open spec fn storyboard_metrics(o: Outputs) -> Seq<MetricView> {
    let shots = shots_in(o, "storyboard"@);
    let n = shots.len() as int;
    let min = min_facts(shots, n);
    seq![
        ("每镜物理事实条数（最少）"@, dec_nat(min), Some("≥ 3"@), Some(min >= 3)),
        ratio_view(
            "运镜落在受控词表内"@,
            count_shots(shots, n, |s: Json| motion_in_vocabulary(s)),
            shots.len(),
            "100%"@,
        ),
        ratio_view(
            "每镜有声音锚点"@,
            count_shots(shots, n, |s: Json| has_audio(s)),
            shots.len(),
            "100%"@,
        ),
    ]
}

pub open spec fn prompt_metrics(o: Outputs) -> Seq<MetricView> {
    let shots = shots_in(o, "prompt_pack"@);
    let n = shots.len() as int;
    let carried = match identity_lock_of(o) {
        Some(lock) => seq![
            ratio_view(
                "身份锁逐字出现"@,
                count_shots(shots, n, |s: Json| carries(s, lock)),
                shots.len(),
                "100%"@,
            ),
        ],
        None => Seq::empty(),
    };
    let avg: nat = if n == 0 {
        0
    } else {
        prompt_chars(shots, n) / shots.len()
    };
    carried.push(("提示词平均字数"@, dec_nat(avg), None, None))
}

/// The metrics of one stage: its own, then the Tier 1 hit count.
pub open spec fn stage_metrics(stage: StageId, o: Outputs) -> Seq<MetricView> {
    let p = prose_of(o);
    let hits = prose_hits(p, p.len() as int);
    match stage {
        StageId::Storyboard => storyboard_metrics(o),
        StageId::PromptPack => prompt_metrics(o),
        _ => Seq::empty(),
    }.push(("禁用词命中数（Tier 1）"@, dec_nat(hits), Some("0"@), Some(hits == 0)))
}

fn ratio(name: &str, hit: usize, total: usize, target: &str) -> (r: Metric)
    ensures
        r@ == ratio_view(name@, hit as nat, total as nat, target@),
{
    let value = if total == 0 {
        String::from_str("—")
    } else {
        let mut v = String::new();
        push_u64(&mut v, hit as u64);
        v.append("/");
        push_u64(&mut v, total as u64);
        v
    };
    proof {
        if total != 0 {
            assert(value@ =~= dec_nat(hit as nat) + "/"@ + dec_nat(total as nat));
        }
    }
    Metric {
        name: String::from_str(name),
        value,
        target: Some(String::from_str(target)),
        met: Some(total > 0 && hit == total),
    }
}

fn motion_in_vocabulary_exec(shot: &Json) -> (r: bool)
    ensures
        r == motion_in_vocabulary(*shot),
{
    let m = match shot.get("camera_motion") {
        Some(x) => match x.as_str() {
            Some(m) => m,
            None => return false,
        },
        None => return false,
    };
    let mut k: usize = 0;
    while k < CAMERA_MOTIONS.len()
        invariant
            k <= CAMERA_MOTIONS@.len(),
            forall|j: int| 0 <= j < k ==> (#[trigger] CAMERA_MOTIONS@[j])@ != m@,
            match shot.field("camera_motion"@) {
                Some(x) => x.str_of() == Some(m@),
                None => false,
            },
        decreases CAMERA_MOTIONS.len() - k,
    {
        if str_eq(CAMERA_MOTIONS[k], m) {
            assert((CAMERA_MOTIONS@[k as int])@ == m@);
            return true;
        }
        k = k + 1;
    }
    false
}

fn has_audio_exec(shot: &Json) -> (r: bool)
    ensures
        r == has_audio(*shot),
{
    match shot.get("audio") {
        Some(a) => !a.is_null(),
        None => false,
    }
}

fn carries_exec(shot: &Json, lock: &str) -> (r: bool)
    ensures
        r == carries(*shot, lock@),
{
    match shot.get("positive") {
        Some(x) => match x.as_str() {
            Some(p) => str_contains(p, lock),
            None => false,
        },
        None => false,
    }
}

fn storyboard_metrics_exec(outputs: &Outputs, out: &mut Vec<Metric>)
    ensures
        metric_views(final(out)@) == metric_views(old(out)@) + storyboard_metrics(*outputs),
{
    let ghost shots_v = shots_in(*outputs, "storyboard"@);
    let empty: Vec<Json> = Vec::new();
    let shots: &Vec<Json> = match shots_of(outputs, "storyboard") {
        Some(s) => s,
        None => &empty,
    };
    assert(shots@ =~= shots_v);
    let mut min: usize = 0;
    let mut in_vocab: usize = 0;
    let mut with_audio: usize = 0;
    let mut i: usize = 0;
    while i < shots.len()
        invariant
            shots@ == shots_v,
            i <= shots@.len(),
            min == min_facts(shots_v, i as int),
            in_vocab == count_shots(shots_v, i as int, |s: Json| motion_in_vocabulary(s)),
            with_audio == count_shots(shots_v, i as int, |s: Json| has_audio(s)),
            in_vocab <= i,
            with_audio <= i,
        decreases shots.len() - i,
    {
        let c: usize = match facts_exec(&shots[i]) {
            Some(f) => f.len(),
            None => 0,
        };
        if i == 0 || c < min {
            min = c;
        }
        if motion_in_vocabulary_exec(&shots[i]) {
            in_vocab = in_vocab + 1;
        }
        if has_audio_exec(&shots[i]) {
            with_audio = with_audio + 1;
        }
        i = i + 1;
    }
    let mut v = String::new();
    push_u64(&mut v, min as u64);
    out.push(
        Metric {
            name: String::from_str("每镜物理事实条数（最少）"),
            value: v,
            target: Some(String::from_str("≥ 3")),
            met: Some(min >= 3),
        },
    );
    out.push(ratio("运镜落在受控词表内", in_vocab, shots.len(), "100%"));
    out.push(ratio("每镜有声音锚点", with_audio, shots.len(), "100%"));
    assert(metric_views(out@) =~= metric_views(old(out)@) + storyboard_metrics(*outputs));
}

fn prompt_metrics_exec(outputs: &Outputs, out: &mut Vec<Metric>)
    ensures
        metric_views(final(out)@) == metric_views(old(out)@) + prompt_metrics(*outputs),
{
    let ghost shots_v = shots_in(*outputs, "prompt_pack"@);
    let empty: Vec<Json> = Vec::new();
    let shots: &Vec<Json> = match shots_of(outputs, "prompt_pack") {
        Some(s) => s,
        None => &empty,
    };
    assert(shots@ =~= shots_v);
    let lock = identity_lock(outputs);
    match lock {
        Some(l) => {
            let mut carried: usize = 0;
            let mut i: usize = 0;
            while i < shots.len()
                invariant
                    shots@ == shots_v,
                    i <= shots@.len(),
                    carried == count_shots(shots_v, i as int, |s: Json| carries(s, l@)),
                    carried <= i,
                decreases shots.len() - i,
            {
                if carries_exec(&shots[i], l) {
                    carried = carried + 1;
                }
                i = i + 1;
            }
            out.push(ratio("身份锁逐字出现", carried, shots.len(), "100%"));
        },
        None => {},
    }
    let ghost mid = metric_views(out@);
    let mut total: u128 = 0;
    let mut i: usize = 0;
    while i < shots.len()
        invariant
            shots@ == shots_v,
            i <= shots@.len(),
            total == prompt_chars(shots_v, i as int),
            total <= i * 0x1_0000_0000_0000_0000,
        decreases shots.len() - i,
    {
        let p = text_field_exec(&shots[i], "positive");
        let n = p.unicode_len();
        total = total + n as u128;
        i = i + 1;
    }
    let avg: u128 = if shots.len() == 0 {
        0
    } else {
        total / (shots.len() as u128)
    };
    let mut v = String::new();
    push_u128(&mut v, avg);
    out.push(
        Metric {
            name: String::from_str("提示词平均字数"),
            value: v,
            target: None,
            met: None,
        },
    );
    assert(metric_views(out@) =~= metric_views(old(out)@) + prompt_metrics(*outputs));
}

/// The measurable indicators of one stage; for reports, never for the quality check.
pub fn metrics(stage: StageId, outputs: &Outputs) -> (r: Vec<Metric>)
    ensures
        metric_views(r@) == stage_metrics(stage, *outputs),
{
    let mut out: Vec<Metric> = Vec::new();
    match stage {
        StageId::Storyboard => storyboard_metrics_exec(outputs, &mut out),
        StageId::PromptPack => prompt_metrics_exec(outputs, &mut out),
        _ => {},
    }
    let ghost before = metric_views(out@);
    let items = prose(outputs);
    let ghost p = prose_of(*outputs);
    let mut hits: u128 = 0;
    let mut i: usize = 0;
    while i < items.len()
        invariant
            pair_views(items@) == p,
            i <= items@.len(),
            hits == prose_hits(p, i as int),
            hits <= i * 0x1_0000_0000_0000_0000,
        decreases items.len() - i,
    {
        let h = banned_tier1_hits(items[i].1.as_str());
        assert(p[i as int].1 == items@[i as int].1@);
        hits = hits + h.len() as u128;
        i = i + 1;
    }
    let mut v = String::new();
    push_u128(&mut v, hits);
    out.push(
        Metric {
            name: String::from_str("禁用词命中数（Tier 1）"),
            value: v,
            target: Some(String::from_str("0")),
            met: Some(hits == 0),
        },
    );
    assert(metric_views(out@) =~= stage_metrics(stage, *outputs));
    out
}

// ---------------------------------------------------------------------------
// Laws.

/// Whether a finding names a listed rule with the listed severity.
pub open spec fn listed(f: FindingView) -> bool {
    exists|r: int| 0 <= r < RULES@.len() && (#[trigger] RULES@[r]).0@ == f.1 && RULES@[r].1 == f.4
}

proof fn lemma_blocking_of_empty(f: Seq<FindingView>)
    ensures
        (blocking_of(f).len() == 0) <==> (forall|k: int|
            0 <= k < f.len() ==> (#[trigger] f[k]).4 != Severity::Blocking),
    decreases f.len(),
{
    if f.len() > 0 {
        lemma_blocking_of_empty(f.drop_last());
        assert forall|k: int| 0 <= k < f.len() - 1 implies f.drop_last()[k] == #[trigger] f[k] by {}
        if blocking_of(f).len() == 0 {
            assert(f.last() == f[f.len() - 1]);
        }
    }
}

proof fn lemma_banned_findings_severity(stage: StageId, items: Seq<(Seq<char>, Seq<char>)>, n: int)
    ensures
        forall|k: int|
            0 <= k < banned_findings(stage, items, n).len() ==> {
                let f = #[trigger] banned_findings(stage, items, n)[k];
                f.4 == banned_severity(stage) && f.1 == banned_rule(stage) && f.0 == stage
            },
    decreases n,
{
    if n > 0 && n <= items.len() {
        lemma_banned_findings_severity(stage, items, n - 1);
    }
}

proof fn lemma_fact_findings_listed(i: int, facts: Seq<Json>, n: int)
    ensures
        forall|k: int|
            0 <= k < fact_findings(i, facts, n).len() ==> {
                let f = #[trigger] fact_findings(i, facts, n)[k];
                f.1 == "thin_fact"@ && f.4 == Severity::Blocking && f.0 == StageId::Storyboard
            },
    decreases n,
{
    if n > 0 && n <= facts.len() {
        lemma_fact_findings_listed(i, facts, n - 1);
    }
}

proof fn lemma_storyboard_findings_listed(shots: Seq<Json>, n: int)
    ensures
        forall|k: int|
            0 <= k < storyboard_findings(shots, n).len() ==> {
                let f = #[trigger] storyboard_findings(shots, n)[k];
                f.1 == "thin_fact"@ && f.4 == Severity::Blocking && f.0 == StageId::Storyboard
            },
    decreases n,
{
    if n > 0 && n <= shots.len() {
        lemma_storyboard_findings_listed(shots, n - 1);
        let facts = facts_of(shots[n - 1]);
        lemma_fact_findings_listed(n - 1, facts, facts.len() as int);
        let a = storyboard_findings(shots, n - 1);
        let b = fact_findings(n - 1, facts, facts.len() as int);
        assert forall|k: int| 0 <= k < (a + b).len() implies #[trigger] (a + b)[k] == if k < a.len() {
            a[k]
        } else {
            b[k - a.len()]
        } by {}
    }
}

proof fn lemma_prompt_pack_findings_listed(lock: Option<Seq<char>>, shots: Seq<Json>, n: int)
    ensures
        forall|k: int|
            0 <= k < prompt_pack_findings(lock, shots, n).len() ==> {
                let f = #[trigger] prompt_pack_findings(lock, shots, n)[k];
                &&& f.0 == StageId::PromptPack
                &&& (f.1 == "identity_lock_missing"@ && f.4 == Severity::Blocking) || (f.1
                    == "thin_prompt"@ && f.4 == Severity::Advisory) || (f.1 == "no_camera_command"@
                    && f.4 == Severity::Advisory)
            },
    decreases n,
{
    if n > 0 && n <= shots.len() {
        lemma_prompt_pack_findings_listed(lock, shots, n - 1);
        let a = prompt_pack_findings(lock, shots, n - 1);
        let b = shot_findings(lock, n - 1, shots[n - 1]);
        assert forall|k: int| 0 <= k < (a + b).len() implies #[trigger] (a + b)[k] == if k < a.len() {
            a[k]
        } else {
            b[k - a.len()]
        } by {}
    }
}

/// Upstream stages never block: before the storyboard, and from the preview
/// on, every quality finding is advisory, so the quality check lets the outputs through.
pub proof fn lemma_upstream_never_blocks(stage: StageId, o: Outputs)
    requires
        !model_facing(stage),
    ensures
        blocking_of(stage_findings(stage, o)).len() == 0,
{
    let p = prose_of(o);
    let f = stage_findings(stage, o);
    lemma_banned_findings_severity(stage, p, p.len() as int);
    assert(f =~= banned_findings(stage, p, p.len() as int));
    lemma_blocking_of_empty(f);
}

proof fn lemma_prompt_pack_findings_keep(lock: Option<Seq<char>>, shots: Seq<Json>, i: int, n: int, x: FindingView)
    requires
        0 <= i < n <= shots.len(),
        shot_findings(lock, i, shots[i]).contains(x),
    ensures
        prompt_pack_findings(lock, shots, n).contains(x),
    decreases n,
{
    let rest = prompt_pack_findings(lock, shots, n - 1);
    let last = shot_findings(lock, n - 1, shots[n - 1]);
    if i < n - 1 {
        lemma_prompt_pack_findings_keep(lock, shots, i, n - 1, x);
        let k = choose|k: int| 0 <= k < rest.len() && rest[k] == x;
        assert((rest + last)[k] == x);
    } else {
        let k = choose|k: int| 0 <= k < last.len() && last[k] == x;
        assert((rest + last)[rest.len() + k] == x);
    }
}

/// Every shot of a prompt pack carries the identity lock word for word:
/// whichever shot `i` leaves a non-empty lock out of its positive prompt is
/// reported at `prompt_pack.shots[i].positive` as a blocking
/// `identity_lock_missing`, so the stage's quality check fails.
pub proof fn lemma_every_shot_carries_the_lock(o: Outputs, i: int)
    requires
        0 <= i < shots_in(o, "prompt_pack"@).len(),
        identity_lock_of(o) matches Some(l) && l.len() > 0 && !seq_contains(
            text_field(shots_in(o, "prompt_pack"@)[i], "positive"@),
            l,
        ),
    ensures
        stage_findings(StageId::PromptPack, o).contains(
            (
                StageId::PromptPack,
                "identity_lock_missing"@,
                positive_path(i),
                missing_lock_message(identity_lock_of(o)->0),
                Severity::Blocking,
            ),
        ),
        blocking_of(stage_findings(StageId::PromptPack, o)).len() > 0,
{
    let l = identity_lock_of(o)->0;
    let shots = shots_in(o, "prompt_pack"@);
    let x = (StageId::PromptPack, "identity_lock_missing"@, positive_path(i), missing_lock_message(l), Severity::Blocking);
    let sf = shot_findings(identity_lock_of(o), i, shots[i]);
    assert(sf[0] == x);
    lemma_prompt_pack_findings_keep(identity_lock_of(o), shots, i, shots.len() as int, x);
    let p = prose_of(o);
    let b = banned_findings(StageId::PromptPack, p, p.len() as int);
    let pp = prompt_pack_findings(identity_lock_of(o), shots, shots.len() as int);
    let k = choose|k: int| 0 <= k < pp.len() && pp[k] == x;
    assert(stage_findings(StageId::PromptPack, o) == b + pp);
    assert((b + pp)[b.len() + k] == x);
    lemma_gate_passes_iff_nothing_blocks(StageId::PromptPack, o);
    assert(stage_findings(StageId::PromptPack, o)[b.len() + k].4 == Severity::Blocking);
}

/// Shot `i` of `shots` leaves a non-empty identity lock out of its positive prompt.
pub open spec fn leaves_lock_out(lock: Option<Seq<char>>, shots: Seq<Json>, i: int) -> bool {
    0 <= i < shots.len() && (lock matches Some(l) && l.len() > 0 && !seq_contains(
        text_field(shots[i], "positive"@),
        l,
    ))
}

proof fn lemma_lock_findings_only_where_missing(lock: Option<Seq<char>>, shots: Seq<Json>, n: int)
    ensures
        forall|k: int|
            0 <= k < prompt_pack_findings(lock, shots, n).len() && (#[trigger] prompt_pack_findings(
                lock,
                shots,
                n,
            )[k]).1 == "identity_lock_missing"@ ==> exists|i: int|
                leaves_lock_out(lock, shots, i) && prompt_pack_findings(lock, shots, n)[k].2
                    == #[trigger] positive_path(i),
    decreases n,
{
    if n > 0 && n <= shots.len() {
        lemma_lock_findings_only_where_missing(lock, shots, n - 1);
        reveal_strlit("identity_lock_missing");
        reveal_strlit("thin_prompt");
        reveal_strlit("no_camera_command");
        let rest = prompt_pack_findings(lock, shots, n - 1);
        let shot = shots[n - 1];
        let positive = text_field(shot, "positive"@);
        let lf = lock_findings(lock, n - 1, positive);
        let tf = thin_prompt_findings(n - 1, positive);
        let cf = camera_findings(n - 1, positive, text_field(shot, "workflow"@));
        let all = prompt_pack_findings(lock, shots, n);
        assert(all =~= rest + (lf + tf + cf));
        assert forall|k: int|
            0 <= k < all.len() && (#[trigger] all[k]).1 == "identity_lock_missing"@ implies exists|i: int|
                leaves_lock_out(lock, shots, i) && all[k].2 == #[trigger] positive_path(i) by {
            if k < rest.len() {
                assert(all[k] == rest[k]);
                let i = choose|i: int| leaves_lock_out(lock, shots, i) && rest[k].2 == #[trigger] positive_path(i);
                assert(leaves_lock_out(lock, shots, i) && all[k].2 == positive_path(i));
            } else {
                let q = k - rest.len();
                if q < lf.len() {
                    assert(all[k] == lf[q]);
                    assert(leaves_lock_out(lock, shots, n - 1));
                    assert(all[k].2 == positive_path(n - 1));
                } else if q < lf.len() + tf.len() {
                    assert(all[k] == tf[q - lf.len()]);
                    assert(all[k].1.len() == "thin_prompt"@.len());
                } else {
                    assert(all[k] == cf[q - lf.len() - tf.len()]);
                    assert(all[k].1.len() == "no_camera_command"@.len());
                }
            }
        }
    }
}

/// Conversely, only a shot that leaves a non-empty lock out is reported as
/// missing it: every `identity_lock_missing` finding of the prompt pack is at
/// `prompt_pack.shots[i].positive` for a shot `i` whose positive prompt does
/// not carry the lock word for word.
pub proof fn lemma_lock_reported_only_where_missing(o: Outputs)
    ensures
        forall|k: int|
            0 <= k < stage_findings(StageId::PromptPack, o).len() && (#[trigger] stage_findings(
                StageId::PromptPack,
                o,
            )[k]).1 == "identity_lock_missing"@ ==> exists|i: int|
                leaves_lock_out(identity_lock_of(o), shots_in(o, "prompt_pack"@), i)
                    && stage_findings(StageId::PromptPack, o)[k].2 == #[trigger] positive_path(i),
{
    let lock = identity_lock_of(o);
    let shots = shots_in(o, "prompt_pack"@);
    let p = prose_of(o);
    let b = banned_findings(StageId::PromptPack, p, p.len() as int);
    let pp = prompt_pack_findings(lock, shots, shots.len() as int);
    let f = stage_findings(StageId::PromptPack, o);
    assert(f == b + pp);
    lemma_banned_findings_severity(StageId::PromptPack, p, p.len() as int);
    lemma_lock_findings_only_where_missing(lock, shots, shots.len() as int);
    reveal_strlit("identity_lock_missing");
    reveal_strlit("banned_word");
    reveal_strlit("banned_word_upstream");
    assert forall|k: int|
        0 <= k < f.len() && (#[trigger] f[k]).1 == "identity_lock_missing"@ implies exists|i: int|
            leaves_lock_out(lock, shots, i) && f[k].2 == #[trigger] positive_path(i) by {
        if k < b.len() {
            assert(f[k] == b[k]);
            assert(f[k].1 == banned_rule(StageId::PromptPack));
            assert(f[k].1.len() != "identity_lock_missing"@.len());
        } else {
            assert(f[k] == pp[k - b.len()]);
            let i = choose|i: int| leaves_lock_out(lock, shots, i) && pp[k - b.len()].2 == #[trigger] positive_path(i);
            assert(leaves_lock_out(lock, shots, i) && f[k].2 == positive_path(i));
        }
    }
}

/// The quality check looks at blocking findings only: it passes exactly when no
/// finding of the stage is blocking.
pub proof fn lemma_gate_passes_iff_nothing_blocks(stage: StageId, o: Outputs)
    ensures
        (blocking_of(stage_findings(stage, o)).len() == 0) <==> (forall|k: int|
            0 <= k < stage_findings(stage, o).len() ==> (#[trigger] stage_findings(stage, o)[k]).4
                != Severity::Blocking),
{
    lemma_blocking_of_empty(stage_findings(stage, o));
}

/// Every finding of a stage is about that stage, and names a rule of
/// [`RULES`] with the severity listed there.
pub proof fn lemma_findings_are_listed(stage: StageId, o: Outputs)
    ensures
        forall|k: int|
            0 <= k < stage_findings(stage, o).len() ==> {
                let f = #[trigger] stage_findings(stage, o)[k];
                f.0 == stage && listed(f)
            },
{
    let p = prose_of(o);
    let a = banned_findings(stage, p, p.len() as int);
    lemma_banned_findings_severity(stage, p, p.len() as int);
    let sb = shots_in(o, "storyboard"@);
    let pp = shots_in(o, "prompt_pack"@);
    lemma_storyboard_findings_listed(sb, sb.len() as int);
    lemma_prompt_pack_findings_listed(identity_lock_of(o), pp, pp.len() as int);
    let f = stage_findings(stage, o);
    assert forall|k: int| 0 <= k < f.len() implies (#[trigger] f[k]).0 == stage && listed(f[k]) by {
        let x = f[k];
        if k < a.len() {
            assert(x == a[k]);
            if model_facing(stage) {
                assert(RULES@[0].0@ == x.1 && RULES@[0].1 == x.4);
            } else {
                assert(RULES@[1].0@ == x.1 && RULES@[1].1 == x.4);
            }
        } else if stage == StageId::Storyboard {
            let b = storyboard_findings(sb, sb.len() as int);
            assert(f == a + b);
            assert(x == b[k - a.len()]);
            assert(RULES@[2].0@ == x.1 && RULES@[2].1 == x.4);
        } else {
            let b = prompt_pack_findings(identity_lock_of(o), pp, pp.len() as int);
            assert(stage == StageId::PromptPack);
            assert(f == a + b);
            assert(x == b[k - a.len()]);
            reveal_strlit("identity_lock_missing");
            reveal_strlit("thin_prompt");
            reveal_strlit("no_camera_command");
            if x.1 == "identity_lock_missing"@ {
                assert("identity_lock_missing"@.len() == 21);
                assert("thin_prompt"@.len() == 11);
                assert("no_camera_command"@.len() == 17);
                assert(x.4 == Severity::Blocking);
                assert(RULES@[3].0@ == "identity_lock_missing"@);
                assert(RULES@[3].0@ == x.1 && RULES@[3].1 == x.4);
            } else if x.1 == "thin_prompt"@ {
                assert(RULES@[5].0@ == x.1 && RULES@[5].1 == x.4);
            } else {
                assert(RULES@[6].0@ == x.1 && RULES@[6].1 == x.4);
            }
        }
    }
}

proof fn lemma_drift_findings_empty(locks: Seq<(StageId, Seq<char>, Seq<char>)>, n: int)
    requires
        1 <= n <= locks.len(),
    ensures
        (drift_findings(locks, n).len() == 0) <==> (forall|k: int|
            0 <= k < n ==> (#[trigger] locks[k]).1 == locks[0].1),
    decreases n,
{
    if n > 1 {
        lemma_drift_findings_empty(locks, n - 1);
    }
}

/// The identity lock is compared byte for byte across stages: there is no
/// drift finding exactly when every lock present equals the first one.
pub proof fn lemma_no_drift_iff_one_lock(a: Seq<(StageId, Outputs)>)
    ensures
        (across_findings(a).len() == 0) <==> (forall|k: int|
            0 <= k < present_locks(a).len() ==> (#[trigger] present_locks(a)[k]).1
                == present_locks(a)[0].1),
{
    let locks = present_locks(a);
    if locks.len() > 0 {
        lemma_drift_findings_empty(locks, locks.len() as int);
    }
}

} // verus!
