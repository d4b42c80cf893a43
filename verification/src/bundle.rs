//! The files a new bundle is given: AGENTS.md, the runtime contract the
//! agent reads first, the skills, the method documents and model cards, and
//! the configuration files. The parts that name stages, gates, tools and
//! error codes are projections of the code, so no document can name what
//! does not exist.
use vstd::prelude::*;
use crate::assets::{codex_config, codex_config_text, env_example, env_example_text, project_toml, project_toml_text};
use crate::capability::INJECTABLE_PARAMS;
use crate::lexicon::{
    find_value, first_value, vocabulary, vocabulary_of, BANNED_TIER1, BANNED_TIER2, CAMERA_MOTIONS,
    CAMERA_MOTION_LABELS, MINIMAX_CAMERA_COMMANDS,
};
use crate::error::{error_code_rows, error_codes};
use crate::skills::{checklist, checklist_items, push_wrapped, skill_docs, skill_md, skill_md_text, skill_views, wrapped};
use crate::stage::{stage_at, StageId, StageKind, STAGE_COUNT};
use crate::text::{char_is_white_space, dec_nat, is_white_space, join, join_seq, push_u64, str_eq, str_views_of, trim_end_seq, trim_end_str, views_of};

verus! {

broadcast use vstd::string::group_string_axioms;

// ---------------------------------------------------------------------------
// The stage table.

pub open spec fn kind_label(k: StageKind) -> Seq<char> {
    match k {
        StageKind::Creative => "creative（你产出全部内容）"@,
        StageKind::Hybrid => "hybrid（你定内容，控制面执行）"@,
        StageKind::Deterministic => "deterministic（控制面执行，你只观察）"@,
    }
}

pub open spec fn gate_cell(g: Option<Seq<char>>) -> Seq<char> {
    match g {
        Some(x) => "`"@ + x + "`"@,
        None => "—"@,
    }
}

/// The row of the stage at position `k`.
pub open spec fn stage_row(k: int, s: StageId) -> Seq<char> {
    "| "@ + dec_nat((k + 1) as nat) + " | `"@ + s.name() + "` | `"@ + s.capability_of().name() + "` | "@
        + kind_label(s.kind_of()) + " | "@ + gate_cell(s.gate_name()) + " |\n"@
}

/// The rows of the first `n` stages of the graph.
pub open spec fn stage_rows(n: int) -> Seq<char>
    decreases n,
{
    if n <= 0 {
        Seq::empty()
    } else {
        stage_rows(n - 1) + match stage_at(n - 1) {
            Some(s) => stage_row(n - 1, s),
            None => Seq::empty(),
        }
    }
}

pub open spec fn stage_table_text() -> Seq<char> {
    "| # | 阶段 | 能力 | 类型 | 确认门 |\n|---|---|---|---|---|\n"@ + stage_rows(STAGE_COUNT as int)
}

fn push_kind_gate(out: &mut String, st: StageId)
    ensures
        final(out)@ == old(out)@ + kind_label(st.kind_of()) + " | "@ + gate_cell(st.gate_name()),
{
    let ghost o = out@;
    match st.kind() {
        StageKind::Creative => out.append("creative（你产出全部内容）"),
        StageKind::Hybrid => out.append("hybrid（你定内容，控制面执行）"),
        StageKind::Deterministic => out.append("deterministic（控制面执行，你只观察）"),
    }
    let ghost m = out@;
    assert(m =~= o + kind_label(st.kind_of()));
    out.append(" | ");
    match st.gate() {
        Some(g) => {
            out.append("`");
            out.append(g);
            out.append("`");
        },
        None => out.append("—"),
    }
    assert(out@ =~= m + " | "@ + gate_cell(st.gate_name()));
}

fn push_stage_row(out: &mut String, k: usize, st: StageId)
    requires
        k < STAGE_COUNT,
    ensures
        final(out)@ == old(out)@ + stage_row(k as int, st),
{
    let ghost o = out@;
    out.append("| ");
    push_u64(out, (k + 1) as u64);
    out.append(" | `");
    out.append(st.as_str());
    out.append("` | `");
    out.append(st.capability().as_str());
    out.append("` | ");
    let ghost m = out@;
    push_kind_gate(out, st);
    out.append(" |\n");
    assert(out@ =~= o + stage_row(k as int, st));
}

/// The stage graph as a table: position, stage, capability, kind, gate.
pub fn stage_table() -> (s: String)
    ensures
        s@ == stage_table_text(),
{
    let all = StageId::all();
    let mut s = String::from_str("| # | 阶段 | 能力 | 类型 | 确认门 |\n|---|---|---|---|---|\n");
    let ghost h = s@;
    let mut i: usize = 0;
    while i < all.len()
        invariant
            all@.len() == STAGE_COUNT,
            forall|k: int| 0 <= k < STAGE_COUNT ==> Some(#[trigger] all@[k]) == stage_at(k),
            i <= STAGE_COUNT,
            s@ == h + stage_rows(i as int),
        decreases all.len() - i,
    {
        assert(Some(all@[i as int]) == stage_at(i as int));
        push_stage_row(&mut s, i, all[i]);
        i = i + 1;
    }
    s
}

// ---------------------------------------------------------------------------
// The tool and error tables.

/// `split_whitespace().join(" ")` on a prefix, with whether a run of white
/// space is waiting to become one space before the next word.
pub open spec fn squeeze_state(s: Seq<char>) -> (Seq<char>, bool)
    decreases s.len(),
{
    if s.len() == 0 {
        (Seq::empty(), false)
    } else {
        let (o, pending) = squeeze_state(s.drop_last());
        let c = s.last();
        if is_white_space(c) {
            (o, o.len() > 0)
        } else {
            ((if pending { o.push(' ') } else { o }).push(c), false)
        }
    }
}

/// The words of a text joined by single spaces (line breaks included).
pub open spec fn squeezed(s: Seq<char>) -> Seq<char> {
    squeeze_state(s).0
}

/// A description on one line: its words joined by single spaces.
pub fn squeeze_ws(s: &str) -> (r: String)
    ensures
        r@ == squeezed(s@),
{
    let n = s.unicode_len();
    let mut out = String::new();
    let mut pending = false;
    let mut i: usize = 0;
    proof {
        reveal_strlit(" ");
    }
    while i < n
        invariant
            n == s@.len(),
            i <= n,
            " "@ == seq![' '],
            (out@, pending) == squeeze_state(s@.subrange(0, i as int)),
        decreases n - i,
    {
        let c = s.get_char(i);
        assert(s@.subrange(0, i + 1).drop_last() =~= s@.subrange(0, i as int));
        assert(s@.subrange(0, i + 1).last() == c);
        if char_is_white_space(c) {
            pending = out.unicode_len() > 0;
        } else {
            if pending {
                out.append(" ");
            }
            let ghost before = out@;
            let one = s.substring_char(i, i + 1);
            assert(one@ =~= seq![c]);
            out.append(one);
            assert(out@ =~= before.push(c));
            pending = false;
        }
        i = i + 1;
    }
    assert(s@.subrange(0, n as int) =~= s@);
    out
}

pub open spec fn tool_rows(tools: Seq<(&str, &str)>, n: int) -> Seq<char>
    decreases n,
{
    if n <= 0 || n > tools.len() {
        Seq::empty()
    } else {
        tool_rows(tools, n - 1) + "| `"@ + tools[n - 1].0@ + "` | "@ + squeezed(tools[n - 1].1@) + " |\n"@
    }
}

/// `tools` are the MCP tools, name and description, in the order the server lists them.
pub open spec fn tool_table_text(tools: Seq<(&str, &str)>) -> Seq<char> {
    "| 工具 | 作用 |\n|---|---|\n"@ + tool_rows(tools, tools.len() as int)
}

/// The MCP tools as a table, each description on one line.
pub fn tool_table(tools: &Vec<(&str, &str)>) -> (s: String)
    ensures
        s@ == tool_table_text(tools@),
{
    let mut s = String::from_str("| 工具 | 作用 |\n|---|---|\n");
    let ghost h = s@;
    let mut i: usize = 0;
    while i < tools.len()
        invariant
            i <= tools@.len(),
            s@ == h + tool_rows(tools@, i as int),
        decreases tools.len() - i,
    {
        let ghost b = s@;
        s.append("| `");
        s.append(tools[i].0);
        s.append("` | ");
        let d = squeeze_ws(tools[i].1);
        s.append(d.as_str());
        s.append(" |\n");
        i = i + 1;
        assert(s@ =~= h + tool_rows(tools@, i as int));
    }
    s
}

pub open spec fn error_rows(rows: Seq<(Seq<char>, Seq<char>)>, n: int) -> Seq<char>
    decreases n,
{
    if n <= 0 || n > rows.len() {
        Seq::empty()
    } else {
        error_rows(rows, n - 1) + "| `"@ + rows[n - 1].0 + "` | "@ + rows[n - 1].1 + " |\n"@
    }
}

pub open spec fn error_table_text() -> Seq<char> {
    "| 错误码 | 含义 |\n|---|---|\n"@ + error_rows(error_code_rows(), 18)
}

/// Every error code and what it means.
pub fn error_table() -> (s: String)
    ensures
        s@ == error_table_text(),
{
    let rows = error_codes();
    let mut s = String::from_str("| 错误码 | 含义 |\n|---|---|\n");
    let ghost h = s@;
    let mut i: usize = 0;
    while i < 18
        invariant
            forall|k: int| 0 <= k < 18 ==> ((#[trigger] rows[k]).0@, rows[k].1@) == error_code_rows()[k],
            i <= 18,
            s@ == h + error_rows(error_code_rows(), i as int),
        decreases 18 - i,
    {
        assert((rows[i as int].0@, rows[i as int].1@) == error_code_rows()[i as int]);
        s.append("| `");
        s.append(rows[i].0);
        s.append("` | ");
        s.append(rows[i].1);
        s.append(" |\n");
        i = i + 1;
        assert(s@ =~= h + error_rows(error_code_rows(), i as int));
    }
    s
}

// ---------------------------------------------------------------------------
// AGENTS.md.

/// The bundle's AGENTS.md; `tools` are the MCP tools, name and description.
pub open spec fn agents_md_text(tools: Seq<(&str, &str)>) -> Seq<char> {
    "<!-- 本文件由代码生成，请勿手改。 -->\n\n# 这部作品\n\n你现在打开的这个文件夹**就是一部作品**。像一份 .docx：新建、继续、修订，\n只有这三个动作。没有项目列表，没有 run id，工具也都不收项目参数。\n\n- 想看另一部作品：退出，`cd` 到那个文件夹再打开。\n- 想另存一版：`cp -r 这个目录 另一个名字.studio`。\n- 想归档、打包或发给别人：这些超出你的能力范围，提醒用户自己在终端处理，\n  不要代劳。\n\n## 你只能通过 Studio MCP 改变状态\n\n创作判断由你来做，状态由控制面持有。**不要**用 shell 去读写这个目录里的\n状态。你能看到的只有这份 MCP 工具面——没有能推进阶段的命令行，因为\n状态变更只有 MCP 一个入口。\n\n`.studio/` 是控制面私有的，里面是状态库、日志和锁。不要读，不要改。\n它有完整性校验，外部改动会在下一次调用时以 `state_drift` 暴露出来。\n\n## 三条工作习惯\n\n1. **不确定就先调 `studio.status`。** 信封里的 `next_action` 说了下一步交什么，\n   `pending_question` 说了在等用户答什么，`blocked_by` 说了被什么挡住。\n2. **提交前先调 `studio.schema`，不要猜字段。** 也不要参考别处的产物——\n   这个目录里没有别的作品，schema 才是唯一事实源。\n3. **被挡住时照 `blocked_by.remedy` 做。** 每一条阻塞都带着可执行的下一步。\n   如果 remedy 说不通，那是控制面的缺陷，报告出来，不要绕过去。\n\n## 方法手册\n\n上面三条讲的是**怎么交**。**怎么写得好**是另一回事，写在\n`.agents/doctrine/` 里：镜头语法、光与色、调度、结构与钩子、声音设计、\n一致性、失败模式、禁用词，还有一部完整作品的黄金样例。\n每个 Skill 会指出自己该读哪几份，索引在 `.agents/doctrine/README.md`。\n\n各个模型系列吃的参数**不一样**——写了某条系列没有绑定的参数会被静默丢弃，\n不报错也不生效。写提示词之前先看 `.agents/models/` 里对应系列那一份。\n\n这些文件用你的文件读取工具直接读，**按需读，不要一次全读**。\n唯一的禁区还是 `.studio/`。\n\n## 阶段与确认门\n\n"@ + stage_table_text() + "\n\n门在阶段**产出之后**暂停。`prompt_pack` 那道门是花 GPU 时间之前的最后一关。\n\n确认门的选项要自己声明 `outcome`：`approve` 通过并进入下一阶段，\n`revise` 把本阶段打回草稿。不要靠选项 id 的字面意思去暗示，控制面只认 `outcome`。\n\n## 修订\n\n用户提出修改意见时调 `studio.revise(stage, message)`。它**不会失败**，\n也不需要先解除任何占用——提交、修订、再提交是一条顺畅的路径。\n\n修订会让作品的进度整体退回到那个阶段：**它之后的阶段一律变回未执行**。\n分镜是照旧剧本做的，剧本一改它就不再成立。旧产物文件留着，你可以用\n`studio.stage_output` 读出来参考，重新提交时直接覆盖。\n\n程序不做版本管理。要留版本请让用户 `cp -r`，或提醒他们自己在终端打包。\n\n## 工具\n\n"@ + tool_table_text(tools) + "\n\n## 错误码\n\n"@ + error_table_text()
        + "\n\n## 用户在说什么\n\n- 「从头开始」「做一个新的」→ 这是一部新作品，让用户自己在终端新建一个\n  目录。不要在当前作品里覆盖着做。\n- 「继续」「下一步」「现在到哪了」→ 调 `studio.status`。上下文不在对话里，在这个文件夹里。\n- 「改一下 X」→ 调 `studio.revise`，然后重新提交。\n"@
}

/// The bundle's AGENTS.md: what a bundle is, that state changes only through
/// the Studio MCP, the stage graph with its gates, how revision rewinds, the
/// tools and the error codes. `tools` are the MCP tools, name and
/// description, in the order the server lists them.
pub fn agents_md(tools: &Vec<(&str, &str)>) -> (s: String)
    ensures
        s@ == agents_md_text(tools@),
{
    let mut s = String::from_str("<!-- 本文件由代码生成，请勿手改。 -->\n\n# 这部作品\n\n你现在打开的这个文件夹**就是一部作品**。像一份 .docx：新建、继续、修订，\n只有这三个动作。没有项目列表，没有 run id，工具也都不收项目参数。\n\n- 想看另一部作品：退出，`cd` 到那个文件夹再打开。\n- 想另存一版：`cp -r 这个目录 另一个名字.studio`。\n- 想归档、打包或发给别人：这些超出你的能力范围，提醒用户自己在终端处理，\n  不要代劳。\n\n## 你只能通过 Studio MCP 改变状态\n\n创作判断由你来做，状态由控制面持有。**不要**用 shell 去读写这个目录里的\n状态。你能看到的只有这份 MCP 工具面——没有能推进阶段的命令行，因为\n状态变更只有 MCP 一个入口。\n\n`.studio/` 是控制面私有的，里面是状态库、日志和锁。不要读，不要改。\n它有完整性校验，外部改动会在下一次调用时以 `state_drift` 暴露出来。\n\n## 三条工作习惯\n\n1. **不确定就先调 `studio.status`。** 信封里的 `next_action` 说了下一步交什么，\n   `pending_question` 说了在等用户答什么，`blocked_by` 说了被什么挡住。\n2. **提交前先调 `studio.schema`，不要猜字段。** 也不要参考别处的产物——\n   这个目录里没有别的作品，schema 才是唯一事实源。\n3. **被挡住时照 `blocked_by.remedy` 做。** 每一条阻塞都带着可执行的下一步。\n   如果 remedy 说不通，那是控制面的缺陷，报告出来，不要绕过去。\n\n## 方法手册\n\n上面三条讲的是**怎么交**。**怎么写得好**是另一回事，写在\n`.agents/doctrine/` 里：镜头语法、光与色、调度、结构与钩子、声音设计、\n一致性、失败模式、禁用词，还有一部完整作品的黄金样例。\n每个 Skill 会指出自己该读哪几份，索引在 `.agents/doctrine/README.md`。\n\n各个模型系列吃的参数**不一样**——写了某条系列没有绑定的参数会被静默丢弃，\n不报错也不生效。写提示词之前先看 `.agents/models/` 里对应系列那一份。\n\n这些文件用你的文件读取工具直接读，**按需读，不要一次全读**。\n唯一的禁区还是 `.studio/`。\n\n## 阶段与确认门\n\n");
    let st = stage_table();
    s.append(st.as_str());
    s.append("\n\n门在阶段**产出之后**暂停。`prompt_pack` 那道门是花 GPU 时间之前的最后一关。\n\n确认门的选项要自己声明 `outcome`：`approve` 通过并进入下一阶段，\n`revise` 把本阶段打回草稿。不要靠选项 id 的字面意思去暗示，控制面只认 `outcome`。\n\n## 修订\n\n用户提出修改意见时调 `studio.revise(stage, message)`。它**不会失败**，\n也不需要先解除任何占用——提交、修订、再提交是一条顺畅的路径。\n\n修订会让作品的进度整体退回到那个阶段：**它之后的阶段一律变回未执行**。\n分镜是照旧剧本做的，剧本一改它就不再成立。旧产物文件留着，你可以用\n`studio.stage_output` 读出来参考，重新提交时直接覆盖。\n\n程序不做版本管理。要留版本请让用户 `cp -r`，或提醒他们自己在终端打包。\n\n## 工具\n\n");
    let tt = tool_table(tools);
    s.append(tt.as_str());
    s.append("\n\n## 错误码\n\n");
    let et = error_table();
    s.append(et.as_str());
    s.append("\n\n## 用户在说什么\n\n- 「从头开始」「做一个新的」→ 这是一部新作品，让用户自己在终端新建一个\n  目录。不要在当前作品里覆盖着做。\n- 「继续」「下一步」「现在到哪了」→ 调 `studio.status`。上下文不在对话里，在这个文件夹里。\n- 「改一下 X」→ 调 `studio.revise`，然后重新提交。\n");
    s
}

// ---------------------------------------------------------------------------
// Model cards.

/// One model family's card: which modes it has, which parameters each
/// verified mode takes, and whether the mode's bindings are verified.
pub struct ModelCard {
    pub family: &'static str,
    pub title: &'static str,
    /// `(mode, injectable parameters, verified)`.
    pub modes: Vec<(&'static str, Vec<&'static str>, bool)>,
}

/// The cards of the three families, by family name and title.
pub fn model_cards() -> (r: Vec<ModelCard>)
    ensures
        r@.len() == 3,
        r@[0].family@ == "minimax_h3"@ && r@[0].title@ == "MiniMax 系列（默认核心系列）"@,
        r@[1].family@ == "wan2_2"@ && r@[1].title@ == "Wan 系列"@,
        r@[2].family@ == "ltx2_5"@ && r@[2].title@ == "LTX 系列"@,
{
    vec![ModelCard { family: "minimax_h3", title: "MiniMax 系列（默认核心系列）", modes: vec![("t2v", vec!["positive", "width", "height", "length_frames", "fps", "seed"], true), ("i2v", vec!["positive", "width", "height", "length_frames", "fps", "seed"], true), ("r2v", vec!["positive", "width", "height", "length_frames", "fps", "seed"], true)] }, ModelCard { family: "wan2_2", title: "Wan 系列", modes: vec![("t2v", vec!["positive", "negative", "width", "height", "length_frames", "fps", "seed"], true), ("i2v", vec!["seed"], false), ("flf2v", vec!["seed"], false)] }, ModelCard { family: "ltx2_5", title: "LTX 系列", modes: vec![("t2v", vec!["positive", "negative", "width", "height", "duration_seconds", "fps", "seed"], true), ("i2v", vec!["positive", "negative", "width", "height", "duration_seconds", "fps", "seed"], true)] }]
}

/// A parameter that some verified mode of the card takes.
pub open spec fn is_supported(modes: Seq<(&str, Vec<&str>, bool)>, p: Seq<char>) -> bool {
    exists|i: int| 0 <= i < modes.len() && (#[trigger] modes[i]).2 && str_views_of(modes[i].1@).contains(p)
}

/// Every item in backquotes.
pub open spec fn quoted(ps: Seq<Seq<char>>) -> Seq<Seq<char>> {
    ps.map_values(|p: Seq<char>| "`"@ + p + "`"@)
}

pub open spec fn mode_row(family: Seq<char>, m: (&str, Vec<&str>, bool)) -> Seq<char> {
    "| `"@ + family + "/"@ + m.0@ + "` | "@ + (if m.2 { "是"@ } else { "**否**"@ }) + " | "@ + (if m.2 {
        join_seq(quoted(str_views_of(m.1@)), "、"@)
    } else {
        "—"@
    }) + " |\n"@
}

pub open spec fn mode_rows(family: Seq<char>, modes: Seq<(&str, Vec<&str>, bool)>, n: int) -> Seq<char>
    decreases n,
{
    if n <= 0 || n > modes.len() {
        Seq::empty()
    } else {
        mode_rows(family, modes, n - 1) + mode_row(family, modes[n - 1])
    }
}

/// The injectable parameters, among the first `n`, that no verified mode
/// takes: writing one of them is refused at submission.
pub open spec fn rejected_params(modes: Seq<(&str, Vec<&str>, bool)>, n: int) -> Seq<Seq<char>>
    decreases n,
{
    if n <= 0 || n > 8 {
        Seq::empty()
    } else {
        let p = INJECTABLE_PARAMS@[n - 1]@;
        rejected_params(modes, n - 1) + if is_supported(modes, p) {
            Seq::empty()
        } else {
            seq![p]
        }
    }
}

/// The card as Markdown; `prose` is the family's hand-written notes, with
/// its placeholders filled.
pub open spec fn model_card_text(c: ModelCard, prose: Seq<char>) -> Seq<char> {
    let rejected = rejected_params(c.modes@, 8);
    "# "@ + c.title@ + "\n\n`"@ + c.family@ + "`\n\n## 这条系列吃什么\n\n"@
        + "| 模式 | 可用 | 可注入参数 |\n|---|---|---|\n"@ + mode_rows(c.family@, c.modes@, c.modes@.len() as int)
        + (if rejected.len() > 0 {
        "\n**这条系列不吃、写了会被挡下**："@ + join_seq(quoted(rejected), "、"@) + "。提交提示词包时会按这张表对账，写了它不吃的参数直接报 `schema_violation`，不会等到渲染才发现。\n"@
    } else {
        Seq::empty()
    }) + (if !is_supported(c.modes@, "references"@) {
        "\n`references` 可以照常写——它声明的是这一镜用到哪些资产，可审计，基线补上图片输入绑定之后会自动生效。但**现在它进不了渲染请求**，所以跨镜一致性目前只能靠在每一镜的正向提示词里逐字复用同一段身份锁。\n"@
    } else {
        Seq::empty()
    }) + (if exists|i: int| 0 <= i < c.modes@.len() && !(#[trigger] c.modes@[i]).2 {
        "\n标着「否」的模式尚未在真机上核验绑定，**不要选它们**——绑错节点会静默产出错的画面，比直接报错更难查。\n"@
    } else {
        Seq::empty()
    }) + "\n"@ + trim_end_seq(prose) + "\n"@
}

fn quote_all(ps: &Vec<&str>) -> (r: Vec<String>)
    ensures
        views_of(r@) == quoted(str_views_of(ps@)),
{
    let mut r: Vec<String> = Vec::new();
    let mut i: usize = 0;
    while i < ps.len()
        invariant
            i <= ps@.len(),
            views_of(r@) == quoted(str_views_of(ps@)).subrange(0, i as int),
        decreases ps.len() - i,
    {
        let mut q = String::from_str("`");
        q.append(ps[i]);
        q.append("`");
        assert(quoted(str_views_of(ps@))[i as int] == "`"@ + ps@[i as int]@ + "`"@);
        let ghost r0 = views_of(r@);
        r.push(q);
        assert(views_of(r@) =~= r0.push(q@));
        i = i + 1;
        assert(views_of(r@) =~= quoted(str_views_of(ps@)).subrange(0, i as int));
    }
    assert(quoted(str_views_of(ps@)).subrange(0, ps@.len() as int) =~= quoted(str_views_of(ps@)));
    r
}

fn contains_str(ps: &Vec<&str>, p: &str) -> (r: bool)
    ensures
        r == str_views_of(ps@).contains(p@),
{
    let mut i: usize = 0;
    while i < ps.len()
        invariant
            i <= ps@.len(),
            forall|j: int| 0 <= j < i ==> ps@[j]@ != p@,
        decreases ps.len() - i,
    {
        if str_eq(ps[i], p) {
            assert(str_views_of(ps@)[i as int] == p@);
            return true;
        }
        i = i + 1;
    }
    assert(!str_views_of(ps@).contains(p@)) by {
        if str_views_of(ps@).contains(p@) {
            let j = choose|j: int| 0 <= j < str_views_of(ps@).len() && str_views_of(ps@)[j] == p@;
            assert(ps@[j]@ == p@);
        }
    }
    false
}

fn supports(modes: &Vec<(&'static str, Vec<&'static str>, bool)>, p: &str) -> (r: bool)
    ensures
        r == is_supported(modes@, p@),
{
    let mut i: usize = 0;
    while i < modes.len()
        invariant
            i <= modes@.len(),
            forall|j: int| 0 <= j < i ==> !((#[trigger] modes@[j]).2 && str_views_of(modes@[j].1@).contains(p@)),
        decreases modes.len() - i,
    {
        if modes[i].2 && contains_str(&modes[i].1, p) {
            assert(modes@[i as int].2 && str_views_of(modes@[i as int].1@).contains(p@));
            return true;
        }
        i = i + 1;
    }
    false
}

fn push_mode_rows(out: &mut String, c: &ModelCard)
    ensures
        final(out)@ == old(out)@ + mode_rows(c.family@, c.modes@, c.modes@.len() as int),
{
    let mut i: usize = 0;
    while i < c.modes.len()
        invariant
            i <= c.modes@.len(),
            out@ == old(out)@ + mode_rows(c.family@, c.modes@, i as int),
        decreases c.modes.len() - i,
    {
        let m = &c.modes[i];
        let ghost b = out@;
        out.append("| `");
        out.append(c.family);
        out.append("/");
        out.append(m.0);
        out.append("` | ");
        if m.2 {
            out.append("是");
        } else {
            out.append("**否**");
        }
        out.append(" | ");
        if m.2 {
            let q = quote_all(&m.1);
            let j = join(&q, "、");
            out.append(j.as_str());
        } else {
            out.append("—");
        }
        out.append(" |\n");
        assert(out@ =~= b + mode_row(c.family@, c.modes@[i as int]));
        i = i + 1;
    }
}

fn rejected_of(c: &ModelCard) -> (r: Vec<&'static str>)
    ensures
        str_views_of(r@) == rejected_params(c.modes@, 8),
{
    let mut r: Vec<&'static str> = Vec::new();
    let mut k: usize = 0;
    while k < 8
        invariant
            k <= 8,
            str_views_of(r@) == rejected_params(c.modes@, k as int),
        decreases 8 - k,
    {
        let p = INJECTABLE_PARAMS[k];
        if !supports(&c.modes, p) {
            r.push(p);
        }
        k = k + 1;
        assert(str_views_of(r@) =~= rejected_params(c.modes@, k as int));
    }
    r
}

fn any_unverified(c: &ModelCard) -> (r: bool)
    ensures
        r == exists|i: int| 0 <= i < c.modes@.len() && !(#[trigger] c.modes@[i]).2,
{
    let mut i: usize = 0;
    while i < c.modes.len()
        invariant
            i <= c.modes@.len(),
            forall|j: int| 0 <= j < i ==> (#[trigger] c.modes@[j]).2,
        decreases c.modes.len() - i,
    {
        if !c.modes[i].2 {
            assert(!c.modes@[i as int].2);
            return true;
        }
        i = i + 1;
    }
    false
}

/// A family's capability card. The table is the projection of the
/// verified baselines; the parameters no verified mode takes are named as
/// refused; `references` is named as accepted but not yet rendered when no
/// mode binds it; unverified modes are flagged. `prose` is the family's
/// hand-written notes, with its placeholders filled.
pub fn model_card_md(card: &ModelCard, prose: &str) -> (s: String)
    ensures
        s@ == model_card_text(*card, prose@),
{
    let mut s = String::from_str("# ");
    s.append(card.title);
    s.append("\n\n`");
    s.append(card.family);
    s.append("`\n\n## 这条系列吃什么\n\n");
    s.append("| 模式 | 可用 | 可注入参数 |\n|---|---|---|\n");
    push_mode_rows(&mut s, card);
    let ghost a = s@;
    let rejected = rejected_of(card);
    if rejected.len() > 0 {
        s.append("\n**这条系列不吃、写了会被挡下**：");
        let q = quote_all(&rejected);
        let j = join(&q, "、");
        s.append(j.as_str());
        s.append("。提交提示词包时会按这张表对账，写了它不吃的参数直接报 `schema_violation`，不会等到渲染才发现。\n");
    }
    let ghost b = s@;
    if !supports(&card.modes, "references") {
        s.append("\n`references` 可以照常写——它声明的是这一镜用到哪些资产，可审计，基线补上图片输入绑定之后会自动生效。但**现在它进不了渲染请求**，所以跨镜一致性目前只能靠在每一镜的正向提示词里逐字复用同一段身份锁。\n");
    }
    let ghost c = s@;
    if any_unverified(card) {
        s.append("\n标着「否」的模式尚未在真机上核验绑定，**不要选它们**——绑错节点会静默产出错的画面，比直接报错更难查。\n");
    }
    let ghost d = s@;
    s.append("\n");
    s.append(trim_end_str(prose));
    s.append("\n");
    s
}

// ---------------------------------------------------------------------------
// The checklist document.

pub open spec fn checklist_sections(n: int) -> Seq<char>
    decreases n,
{
    if n <= 0 {
        Seq::empty()
    } else {
        checklist_sections(n - 1) + match stage_at(n - 1) {
            Some(st) => checklist_section(st),
            None => Seq::empty(),
        }
    }
}

pub open spec fn checklist_section(st: StageId) -> Seq<char> {
    if checklist_items(st).len() > 0 {
        "## `"@ + st.name() + "`\n\n"@ + wrapped(checklist_items(st), "- [ ] "@, "\n"@) + "\n"@
    } else {
        Seq::empty()
    }
}

fn push_checklist_section(out: &mut String, st: StageId)
    ensures
        final(out)@ == old(out)@ + checklist_section(st),
{
    let items = checklist(st);
    if items.len() > 0 {
        out.append("## `");
        out.append(st.as_str());
        out.append("`\n\n");
        push_wrapped(out, &items, "- [ ] ", "\n");
        out.append("\n");
    }
}

/// The pre-submission checklist of every stage that has one, in stage
/// order, then the items common to every creative stage.
pub open spec fn checklist_md_text() -> Seq<char> {
    "# 提交前自检\n\n逐条过。过不了的不要提交——退回来重做比往下走便宜得多，尤其是提示词那道门之后就开始花 GPU 时间了。\n\n"@ + checklist_sections(STAGE_COUNT as int) + "## 所有创作阶段通用\n\n- [ ] 没有不可拍的描述（情绪、氛围、「很美」）\n- [ ] 没有 Tier 1 禁用词\n- [ ] 换一个题材就不成立——如果换了还成立，说明写得太空\n"@
}

/// The pre-submission checklist document (`doctrine/quality/checklist.md`).
pub fn checklist_md() -> (s: String)
    ensures
        s@ == checklist_md_text(),
{
    let all = StageId::all();
    let mut s = String::from_str("# 提交前自检\n\n逐条过。过不了的不要提交——退回来重做比往下走便宜得多，尤其是提示词那道门之后就开始花 GPU 时间了。\n\n");
    let ghost h = s@;
    let mut i: usize = 0;
    while i < all.len()
        invariant
            all@.len() == STAGE_COUNT,
            forall|k: int| 0 <= k < STAGE_COUNT ==> Some(#[trigger] all@[k]) == stage_at(k),
            i <= STAGE_COUNT,
            s@ == h + checklist_sections(i as int),
        decreases all.len() - i,
    {
        assert(Some(all@[i as int]) == stage_at(i as int));
        push_checklist_section(&mut s, all[i]);
        i = i + 1;
        assert(s@ =~= h + checklist_sections(i as int));
    }
    s.append("## 所有创作阶段通用\n\n- [ ] 没有不可拍的描述（情绪、氛围、「很美」）\n- [ ] 没有 Tier 1 禁用词\n- [ ] 换一个题材就不成立——如果换了还成立，说明写得太空\n");
    s
}

// ---------------------------------------------------------------------------
// The files of a new bundle.

pub open spec fn file_views(fs: Seq<(String, String)>) -> Seq<(Seq<char>, Seq<char>)> {
    fs.map_values(|f: (String, String)| (f.0@, f.1@))
}

pub open spec fn tool_names(tools: Seq<(&str, &str)>) -> Seq<Seq<char>> {
    tools.map_values(|t: (&str, &str)| t.0@)
}

/// The SKILL.md files of the first `n` skills.
pub open spec fn skill_files(names: Seq<Seq<char>>, n: int) -> Seq<(Seq<char>, Seq<char>)>
    decreases n,
{
    if n <= 0 || n > 10 {
        Seq::empty()
    } else {
        let d = skill_views()[n - 1];
        skill_files(names, n - 1).push(
            (".agents/skills/"@ + d.name + "/SKILL.md"@, skill_md_text(d, names)),
        )
    }
}

/// The method documents and model cards, placed under `.agents/`.
pub open spec fn carried_files(doctrine: Seq<(&str, &str)>) -> Seq<(Seq<char>, Seq<char>)> {
    doctrine.map_values(|d: (&str, &str)| (".agents/"@ + d.0@, d.1@))
}

/// What a new bundle holds, path and content: AGENTS.md, the Codex
/// configuration, the bundle's metadata, the example runtime
/// configuration, every skill's SKILL.md, then each of `doctrine` (method
/// documents and model cards, relative to `.agents/`).
pub open spec fn bundle_files_of(
    studiod_path: Seq<char>,
    title: Seq<char>,
    version: Seq<char>,
    core_model: Seq<char>,
    tools: Seq<(&str, &str)>,
    doctrine: Seq<(&str, &str)>,
) -> Seq<(Seq<char>, Seq<char>)> {
    seq![
        ("AGENTS.md"@, agents_md_text(tools)),
        (".codex/config.toml"@, codex_config_text(studiod_path)),
        ("project.toml"@, project_toml_text(title, version, core_model)),
        (".env.example"@, env_example_text()),
    ] + skill_files(tool_names(tools), 10) + carried_files(doctrine)
}

fn names_of<'a>(tools: &Vec<(&'a str, &'a str)>) -> (r: Vec<&'a str>)
    ensures
        str_views_of(r@) == tool_names(tools@),
{
    let mut r: Vec<&str> = Vec::new();
    let mut i: usize = 0;
    while i < tools.len()
        invariant
            i <= tools@.len(),
            str_views_of(r@) == tool_names(tools@).subrange(0, i as int),
        decreases tools.len() - i,
    {
        let ghost r0 = str_views_of(r@);
        r.push(tools[i].0);
        assert(str_views_of(r@) =~= r0.push(tools@[i as int].0@));
        assert(tool_names(tools@)[i as int] == tools@[i as int].0@);
        i = i + 1;
        assert(str_views_of(r@) =~= tool_names(tools@).subrange(0, i as int));
    }
    assert(tool_names(tools@).subrange(0, tools@.len() as int) =~= tool_names(tools@));
    r
}

/// The files `init` writes into a new bundle, path and content. `tools` are
/// the MCP tools, name and description; `doctrine` the method documents and
/// model cards, path relative to `.agents/` and content.
pub fn bundle_files(
    studiod_path: &str,
    title: &str,
    version: &str,
    core_model: &str,
    tools: &Vec<(&str, &str)>,
    doctrine: &Vec<(&str, &str)>,
) -> (r: Vec<(String, String)>)
    ensures
        file_views(r@) == bundle_files_of(
            studiod_path@,
            title@,
            version@,
            core_model@,
            tools@,
            doctrine@,
        ),
{
    let mut r: Vec<(String, String)> = Vec::new();
    r.push((String::from_str("AGENTS.md"), agents_md(tools)));
    r.push((String::from_str(".codex/config.toml"), codex_config(studiod_path)));
    r.push((String::from_str("project.toml"), project_toml(title, version, core_model)));
    r.push((String::from_str(".env.example"), env_example()));
    let ghost head = file_views(r@);
    assert(head =~= seq![
        ("AGENTS.md"@, agents_md_text(tools@)),
        (".codex/config.toml"@, codex_config_text(studiod_path@)),
        ("project.toml"@, project_toml_text(title@, version@, core_model@)),
        (".env.example"@, env_example_text()),
    ]);
    let names = names_of(tools);
    let docs = skill_docs();
    let mut i: usize = 0;
    while i < docs.len()
        invariant
            docs@.len() == 10,
            forall|k: int| 0 <= k < 10 ==> (#[trigger] docs@[k]).view_of() == skill_views()[k],
            str_views_of(names@) == tool_names(tools@),
            i <= 10,
            file_views(r@) == head + skill_files(tool_names(tools@), i as int),
        decreases docs.len() - i,
    {
        let d = &docs[i];
        assert(d.view_of() == skill_views()[i as int]);
        let mut path = String::from_str(".agents/skills/");
        path.append(d.name);
        path.append("/SKILL.md");
        let md = skill_md(d, &names);
        let ghost before = file_views(r@);
        r.push((path, md));
        assert(file_views(r@) =~= before.push((path@, md@)));
        i = i + 1;
    }
    let ghost mid = file_views(r@);
    let mut j: usize = 0;
    while j < doctrine.len()
        invariant
            j <= doctrine@.len(),
            file_views(r@) == mid + carried_files(doctrine@).subrange(0, j as int),
        decreases doctrine.len() - j,
    {
        let mut path = String::from_str(".agents/");
        path.append(doctrine[j].0);
        let content = String::from_str(doctrine[j].1);
        let ghost before = file_views(r@);
        r.push((path, content));
        assert(file_views(r@) =~= before.push((path@, content@)));
        j = j + 1;
        assert(carried_files(doctrine@).subrange(0, j as int) =~= carried_files(doctrine@).subrange(0, j - 1).push(
            carried_files(doctrine@)[j - 1],
        ));
    }
    assert(carried_files(doctrine@).subrange(0, doctrine@.len() as int) =~= carried_files(doctrine@));
    r
}

// ---------------------------------------------------------------------------
// Vocabulary tables and the banned words, for the method documents.

pub open spec fn value_rows(rows: Seq<(&'static str, &'static str)>, n: int) -> Seq<char>
    decreases n,
{
    if n <= 0 || n > rows.len() {
        Seq::empty()
    } else {
        value_rows(rows, n - 1) + "| `"@ + rows[n - 1].0@ + "` | "@ + rows[n - 1].1@ + " |\n"@
    }
}

/// The table of a named vocabulary: each value with its label; nothing for
/// a name that is not a vocabulary.
pub open spec fn vocabulary_table_text(name: Seq<char>) -> Seq<char> {
    match vocabulary_of(name) {
        Some(rows) => "| `"@ + name + "` 取值 | 说明 |\n|---|---|\n"@ + value_rows(rows, rows.len() as int),
        None => Seq::empty(),
    }
}

/// A vocabulary as a Markdown table.
pub fn vocabulary_table(name: &str) -> (s: String)
    ensures
        s@ == vocabulary_table_text(name@),
{
    match vocabulary(name) {
        Some(rows) => {
            let mut s = String::from_str("| `");
            s.append(name);
            s.append("` 取值 | 说明 |\n|---|---|\n");
            let ghost h = s@;
            let mut i: usize = 0;
            while i < rows.len()
                invariant
                    i <= rows@.len(),
                    s@ == h + value_rows(rows@, i as int),
                decreases rows.len() - i,
            {
                s.append("| `");
                s.append(rows[i].0);
                s.append("` | ");
                s.append(rows[i].1);
                s.append(" |\n");
                i = i + 1;
                assert(s@ =~= h + value_rows(rows@, i as int));
            }
            s
        },
        None => String::new(),
    }
}

pub open spec fn or_blank(o: Option<&'static str>) -> Seq<char> {
    match o {
        Some(x) => x@,
        None => Seq::empty(),
    }
}

pub open spec fn camera_rows(n: int) -> Seq<char>
    decreases n,
{
    if n <= 0 || n > 15 {
        Seq::empty()
    } else {
        let m = CAMERA_MOTIONS@[n - 1]@;
        camera_rows(n - 1) + "| `"@ + m + "` | `"@ + or_blank(first_value(MINIMAX_CAMERA_COMMANDS@, m))
            + "` | "@ + or_blank(first_value(CAMERA_MOTION_LABELS@, m)) + " |\n"@
    }
}

/// Each camera motion of the storyboard with the MiniMax command to write
/// for it and its label.
pub open spec fn minimax_camera_table_text() -> Seq<char> {
    "| 分镜的 `camera_motion` | 提示词里写 | 说明 |\n|---|---|---|\n"@ + camera_rows(15)
}

pub fn minimax_camera_table() -> (s: String)
    ensures
        s@ == minimax_camera_table_text(),
{
    let mut s = String::from_str("| 分镜的 `camera_motion` | 提示词里写 | 说明 |\n|---|---|---|\n");
    let ghost h = s@;
    let mut i: usize = 0;
    while i < 15
        invariant
            i <= 15,
            s@ == h + camera_rows(i as int),
        decreases 15 - i,
    {
        let m = CAMERA_MOTIONS[i];
        let command = find_value(&MINIMAX_CAMERA_COMMANDS, m);
        let label = find_value(&CAMERA_MOTION_LABELS, m);
        s.append("| `");
        s.append(m);
        s.append("` | `");
        match command {
            Some(c) => s.append(c),
            None => {},
        }
        s.append("` | ");
        match label {
            Some(l) => s.append(l),
            None => {},
        }
        s.append(" |\n");
        i = i + 1;
        assert(s@ =~= h + camera_rows(i as int));
    }
    s
}

pub open spec fn word_items(words: Seq<&'static str>, n: int) -> Seq<char>
    decreases n,
{
    if n <= 0 || n > words.len() {
        Seq::empty()
    } else {
        word_items(words, n - 1) + "- `"@ + words[n - 1]@ + "`\n"@
    }
}

/// The banned-words document: the first tier, the second tier, then how to
/// rewrite an inner state as behaviour.
pub open spec fn banned_md_text() -> Seq<char> {
    "# 禁用词\n\n这些词的共同点：**它们不描述任何可拍的东西**。对模型是噪声，对人是废话。\n\n## Tier 1：出现即改\n\n写了就是没写。把它们换成具体的、能被摄影机记录的描述。\n\n"@ + word_items(BANNED_TIER1@, 18) + "\n## Tier 2：同一段里出现两个以上就是问题\n\n单独用未必错，堆在一起就是形容词汤。\n\n"@ + word_items(BANNED_TIER2@, 12) + "\n## 还有一类：写了内心状态\n\n`他很难过` `她感到兴奋` `气氛紧张`——模型拍不出情绪，只能拍行为。\n\n| 写了 | 改成 |\n|---|---|\n| 他很难过 | 他把下巴埋进围巾，视线避开镜头 |\n| 她很紧张 | 她反复用拇指刮杯壁的水珠 |\n| 气氛紧张 | 两个人的影子在墙上快要碰到 |\n\n## 一个判断标准\n\n把这句话换到另一个完全不同的片子里，还成立吗？成立，就说明它什么都没说。\n"@
}

fn push_word_items(out: &mut String, words: &[&'static str])
    ensures
        final(out)@ == old(out)@ + word_items(words@, words@.len() as int),
{
    let mut i: usize = 0;
    while i < words.len()
        invariant
            i <= words@.len(),
            out@ == old(out)@ + word_items(words@, i as int),
        decreases words.len() - i,
    {
        out.append("- `");
        out.append(words[i]);
        out.append("`\n");
        i = i + 1;
        assert(out@ =~= old(out)@ + word_items(words@, i as int));
    }
}

/// The banned-words document (`doctrine/quality/banned.md`).
pub fn banned_md() -> (s: String)
    ensures
        s@ == banned_md_text(),
{
    let mut s = String::from_str("# 禁用词\n\n这些词的共同点：**它们不描述任何可拍的东西**。对模型是噪声，对人是废话。\n\n## Tier 1：出现即改\n\n写了就是没写。把它们换成具体的、能被摄影机记录的描述。\n\n");
    push_word_items(&mut s, &BANNED_TIER1);
    s.append("\n## Tier 2：同一段里出现两个以上就是问题\n\n单独用未必错，堆在一起就是形容词汤。\n\n");
    push_word_items(&mut s, &BANNED_TIER2);
    s.append("\n## 还有一类：写了内心状态\n\n`他很难过` `她感到兴奋` `气氛紧张`——模型拍不出情绪，只能拍行为。\n\n| 写了 | 改成 |\n|---|---|\n| 他很难过 | 他把下巴埋进围巾，视线避开镜头 |\n| 她很紧张 | 她反复用拇指刮杯壁的水珠 |\n| 气氛紧张 | 两个人的影子在墙上快要碰到 |\n\n## 一个判断标准\n\n把这句话换到另一个完全不同的片子里，还成立吗？成立，就说明它什么都没说。\n");
    s
}

} // verus!
