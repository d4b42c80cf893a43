//! The SKILL.md of each skill a bundle carries: what the skill is for,
//! which method documents to read, what to submit and how to check it.
//! The parts that name tools, stages, gates and fields come from the code
//! (the stage graph, the schemas), so a document cannot name what does not exist.
use vstd::prelude::*;
use crate::schema::{schema_of, stage_schema, Schema, SchemaView};
use crate::stage::{skill_dir_names, StageId};
use crate::text::{seq_starts_with, str_starts_with, str_views_of, views_of};

verus! {

broadcast use vstd::string::group_string_axioms;

/// The prose of one skill. The parts that can be generated are not here.
pub struct SkillDoc {
    pub name: &'static str,
    pub description: &'static str,
    /// The stage the skill carries, if any.
    pub stage: Option<StageId>,
    pub trigger: &'static str,
    pub not_trigger: &'static str,
    pub duties: Vec<&'static str>,
    pub notes: Vec<&'static str>,
}

/// A skill's prose as plain values.
pub struct SkillView {
    pub name: Seq<char>,
    pub description: Seq<char>,
    pub stage: Option<StageId>,
    pub trigger: Seq<char>,
    pub not_trigger: Seq<char>,
    pub duties: Seq<Seq<char>>,
    pub notes: Seq<Seq<char>>,
}

impl SkillDoc {
    pub open spec fn view_of(self) -> SkillView {
        SkillView {
            name: self.name@,
            description: self.description@,
            stage: self.stage,
            trigger: self.trigger@,
            not_trigger: self.not_trigger@,
            duties: str_views_of(self.duties@),
            notes: str_views_of(self.notes@),
        }
    }
}

/// The ten skills, in the order of the stage graph, then run management.
/// The ten skills' prose, in the order of the stage graph, then run management.
pub open spec fn skill_views() -> Seq<SkillView> {
    seq![
        SkillView {
            name: "idea"@,
            description: "把用户创意整理成可执行 brief，明确受众、平台、时长与发布风险。"@,
            stage: Some(StageId::Idea),
            trigger: "用户描述了一个想拍的东西，或者说「从头开始」「做一个新的」。"@,
            not_trigger: "已经有 brief 之后的任何阶段。"@,
            duties: seq!["把口语化的创意转成结构化 brief：标题、logline、平台、受众、时长、镜头数、画幅。"@, "给出 **2–3 个互斥方案**：平台受众时长这些由需求定死的共用，各方案不同的是切入角度、前三秒钩子和节拍走向。互斥的判据见 concepts.md。"@, "每个方案写清选它要牺牲什么，且各方案牺牲的不是同一件事。"@, "对模糊输入做出判断并**写进 assumptions**，不要私下假设也不要反复追问。"@, "识别发布风险并分级：可规避 / 需用户决定 / 不可接受。"@, "定义可验收的成功标准——后面的 review 阶段会照着它逐条核对。"@],
            notes: seq!["这一阶段没有确认门，提交即通过。真正的第一道门在选题阶段，用户在那里从你给的方案里挑一个——只给一个方案，那道门就退化成「同意 / 重来」。"@, "用户说「20色女性」这类明显笔误，按最合理的理解处理并在 assumptions 里写明，不要卡住不动。"@],
        },
        SkillView {
            name: "selection"@,
            description: "从可行性、受众匹配和发布风险筛选 brief，给出推荐方案与取舍。"@,
            stage: Some(StageId::Selection),
            trigger: "brief 已通过，需要决定往哪个方向做。"@,
            not_trigger: "创意本身还没成形；那是 idea 的事。"@,
            duties: seq!["**逐个**评估上一阶段给出的每个方案，不要只写推荐的那个——用户要看的是比较，不是结论。"@, "每个方案都评三样：可行性（模型可控性、制作成本）、受众匹配（钩子强度、观看收益、留存）、风险。"@, "把发布风险分成可规避、不可接受、需用户决定三类。"@, "给出一个明确推荐（`recommendation.concept_id` 指向候选之一），并说清楚推荐它牺牲了什么。"@],
            notes: seq!["确认门在这里把你的候选列表原样摆给用户选。用户可能不选你推荐的那个——这是设计如此，不是异常。"@, "被选中的方案会记进产物的 `_gate_choice`，后面的阶段照它写，不要回头改主意。"@, "确认门问的是方向，不是细节。细节留到剧本阶段再改。"@],
        },
        SkillView {
            name: "script"@,
            description: "创建短视频的故事结构、节奏与声音时间线。"@,
            stage: Some(StageId::Script),
            trigger: "方向已确认，需要把它变成逐拍的内容。"@,
            not_trigger: "镜头语言、景别、机位——那是 director 的事。"@,
            duties: seq!["按**内容**分配时长，不要平均切分。动作复杂、信息量大的拍给更多时间。"@, "各拍时长必须精确合计到 brief 规定的总时长。"@, "同时给出声音时间线：有口播就写台词，没有就写环境声与拟音的来源。"@, "字幕策略要明确。没有字幕也要写清楚是「本版无字幕」。"@],
            notes: seq!["「不要固定 2 秒」这类反馈直接调 studio.revise，然后重新提交。不需要先解除任何占用。"@, "总时长对不上是最常见的退回原因，提交前自己加一遍。"@],
        },
        SkillView {
            name: "director"@,
            description: "把已确认剧本转成逐镜头分镜，定义景别、构图、机位、灯光与时长。"@,
            stage: Some(StageId::Storyboard),
            trigger: "剧本已确认，需要把每一拍变成可拍的镜头。"@,
            not_trigger: "还在讨论故事讲什么；那是 script 的事。"@,
            duties: seq!["每个镜头一个主动作、一个主镜头运动。两个以上的运动会让生成结果失控。"@, "写清动作链（起 → 承 → 收）、首帧与尾帧，转场要能被审计。"@, "锁定角色连续性：外观、服装、机位签名，逐镜保持一致。"@, "安全约束写进分镜本身，而不是留给后面的阶段补救。"@],
            notes: seq!["镜头时长必须与剧本各拍对齐；改了时长就要回到剧本阶段改。"@],
        },
        SkillView {
            name: "visual"@,
            description: "规划并生成一致的角色卡、场景卡与参考资产。"@,
            stage: Some(StageId::VisualAssets),
            trigger: "分镜已确认，需要先把跨镜头复用的视觉资产定下来。"@,
            not_trigger: "逐镜头的提示词；那是 prompt 的事。"@,
            duties: seq!["为跨镜头复用的角色、场景、道具各建一张卡，给稳定的 asset_id。"@, "写明一致性锁定：角色外观、机位签名、环境、排版禁止项。"@, "核心系列没有独立静态图 workflow 时，先生成开发片段再抽帧，并保留抽帧参数。"@, "降级策略写死：核心系列不可用就结构化阻塞，不自动换系列。"@],
            notes: seq!["这是 hybrid 阶段：你定资产计划，确认之后由控制面执行生成。"@],
        },
        SkillView {
            name: "prompt"@,
            description: "把已确认分镜与视觉资产编译成逐镜头 prompt 和 workflow 参数。"@,
            stage: Some(StageId::PromptPack),
            trigger: "视觉资产已确认，准备进入渲染。"@,
            not_trigger: "画面内容本身还在改；那是 director 的事。"@,
            duties: seq!["逐镜头给出正向、负向提示词，以及尺寸、帧数、帧率、种子。"@, "种子必须固定并记录，否则结果不可复现。"@, "workflow 名必须是已验证基线里的，不要临时编一个。"@, "引用视觉资产用 asset_id，不要重复描述角色外观。"@],
            notes: seq!["这道门是花 GPU 时间之前的最后一关。确认之后就开始烧显卡了，提交前自己再读一遍。"@],
        },
        SkillView {
            name: "comfyui"@,
            description: "提交已确认且通过校验的 workflow，选择健康节点、跟踪执行并登记输出。"@,
            stage: Some(StageId::Render),
            trigger: "提示词包已确认，控制面开始渲染。"@,
            not_trigger: "任何创作判断。"@,
            duties: seq!["这是确定性阶段，由控制面执行，你只需要用 studio.status 观察。"@, "失败时读 studio.timeline 看清是哪一镜、哪个节点、什么原因。"@, "节点不可用或模型契约不满足时会结构化阻塞——不要建议换模型来绕过。"@, "怀疑是某个节点本身有问题（反复失败、迟迟连不上），先调 studio.comfy.exclude_node 把它排除，再重试。"@, "执行失败但内容没问题（节点抖动、连接超时）时调 studio.retry_stage，不要用 studio.revise——那是给内容要改的场景用的。"@],
            notes: seq!["运行控制面的机器不需要 GPU，一切经 ComfyUI 的 HTTP API 完成。"@, "孤立的一次轮询连接超时不代表渲染失败：控制面会自动容错重试，只有连续失败或总耗时超过 timeout 才会真正报错。"@],
        },
        SkillView {
            name: "post"@,
            description: "把生成片段拼接为交付视频，处理字幕、音频、封面。"@,
            stage: Some(StageId::Post),
            trigger: "渲染完成，需要出成片。"@,
            not_trigger: "镜头本身要重做；那要回到更早的阶段。"@,
            duties: seq!["按分镜顺序拼接，转场必须与分镜里写的一致。"@, "字幕只能来自已确认的剧本文本，不要在这一步新编。"@, "封面从成片里抽帧，不要另外生成一张对不上的图。"@],
            notes: seq!["这是确定性阶段，由控制面执行。ffmpeg 不要求在 PATH 中，配置见 .env。"@],
        },
        SkillView {
            name: "review"@,
            description: "检查成片的媒体完整性、时长、字幕、编码与发布风险。"@,
            stage: Some(StageId::Review),
            trigger: "后期完成，需要验收。"@,
            not_trigger: "创作质量的主观评价。"@,
            duties: seq!["每一条检查都必须基于 ffprobe 的**实测**元数据，不能靠推断。"@, "逐条核对 idea 阶段定下的 success_metrics。"@, "任一必需项缺失就判不通过，不要为了让流程走完而放水。"@],
            notes: seq!["验收通过不等于可以发布。对外发布需要另行获得授权。"@],
        },
        SkillView {
            name: "run-management"@,
            description: "解释当前作品的状态，走修订与恢复路径。"@,
            stage: None,
            trigger: "用户问「现在到哪了」「怎么改」「重做某一步」，或者遇到阻塞需要判断下一步。"@,
            not_trigger: "各阶段的创作执行本身。"@,
            duties: seq!["先调 studio.status。信封里的 next_action 和 blocked_by 已经说清了该做什么。"@, "阻塞时照 blocked_by.remedy 做。它一定会指向一个能调的工具。"@, "用户提出修改意见就调 studio.revise——它不会失败，也不需要先解除什么占用。"@, "作品的历史看 studio.timeline，某一步的产物看 studio.stage_output。"@],
            notes: seq!["**没有 run_id**。你打开的这个目录就是当前作品，工具也都不收项目参数。"@, "新建、继续、修订之外没有别的动作。列表用 `ls`，另存为用 `cp -r`，删除用 `rm -rf`。"@],
        },
    ]
}

fn skill_doc_0() -> (d: SkillDoc)
    ensures
        d.view_of() == skill_views()[0],
{
    let d = SkillDoc {
        name: "idea",
        description: "把用户创意整理成可执行 brief，明确受众、平台、时长与发布风险。",
        stage: Some(StageId::Idea),
        trigger: "用户描述了一个想拍的东西，或者说「从头开始」「做一个新的」。",
        not_trigger: "已经有 brief 之后的任何阶段。",
        duties: vec!["把口语化的创意转成结构化 brief：标题、logline、平台、受众、时长、镜头数、画幅。", "给出 **2–3 个互斥方案**：平台受众时长这些由需求定死的共用，各方案不同的是切入角度、前三秒钩子和节拍走向。互斥的判据见 concepts.md。", "每个方案写清选它要牺牲什么，且各方案牺牲的不是同一件事。", "对模糊输入做出判断并**写进 assumptions**，不要私下假设也不要反复追问。", "识别发布风险并分级：可规避 / 需用户决定 / 不可接受。", "定义可验收的成功标准——后面的 review 阶段会照着它逐条核对。"],
        notes: vec!["这一阶段没有确认门，提交即通过。真正的第一道门在选题阶段，用户在那里从你给的方案里挑一个——只给一个方案，那道门就退化成「同意 / 重来」。", "用户说「20色女性」这类明显笔误，按最合理的理解处理并在 assumptions 里写明，不要卡住不动。"],
    };
    assert(str_views_of(d.duties@) =~= skill_views()[0].duties);
    assert(str_views_of(d.notes@) =~= skill_views()[0].notes);
    d
}

fn skill_doc_1() -> (d: SkillDoc)
    ensures
        d.view_of() == skill_views()[1],
{
    let d = SkillDoc {
        name: "selection",
        description: "从可行性、受众匹配和发布风险筛选 brief，给出推荐方案与取舍。",
        stage: Some(StageId::Selection),
        trigger: "brief 已通过，需要决定往哪个方向做。",
        not_trigger: "创意本身还没成形；那是 idea 的事。",
        duties: vec!["**逐个**评估上一阶段给出的每个方案，不要只写推荐的那个——用户要看的是比较，不是结论。", "每个方案都评三样：可行性（模型可控性、制作成本）、受众匹配（钩子强度、观看收益、留存）、风险。", "把发布风险分成可规避、不可接受、需用户决定三类。", "给出一个明确推荐（`recommendation.concept_id` 指向候选之一），并说清楚推荐它牺牲了什么。"],
        notes: vec!["确认门在这里把你的候选列表原样摆给用户选。用户可能不选你推荐的那个——这是设计如此，不是异常。", "被选中的方案会记进产物的 `_gate_choice`，后面的阶段照它写，不要回头改主意。", "确认门问的是方向，不是细节。细节留到剧本阶段再改。"],
    };
    assert(str_views_of(d.duties@) =~= skill_views()[1].duties);
    assert(str_views_of(d.notes@) =~= skill_views()[1].notes);
    d
}

fn skill_doc_2() -> (d: SkillDoc)
    ensures
        d.view_of() == skill_views()[2],
{
    let d = SkillDoc {
        name: "script",
        description: "创建短视频的故事结构、节奏与声音时间线。",
        stage: Some(StageId::Script),
        trigger: "方向已确认，需要把它变成逐拍的内容。",
        not_trigger: "镜头语言、景别、机位——那是 director 的事。",
        duties: vec!["按**内容**分配时长，不要平均切分。动作复杂、信息量大的拍给更多时间。", "各拍时长必须精确合计到 brief 规定的总时长。", "同时给出声音时间线：有口播就写台词，没有就写环境声与拟音的来源。", "字幕策略要明确。没有字幕也要写清楚是「本版无字幕」。"],
        notes: vec!["「不要固定 2 秒」这类反馈直接调 studio.revise，然后重新提交。不需要先解除任何占用。", "总时长对不上是最常见的退回原因，提交前自己加一遍。"],
    };
    assert(str_views_of(d.duties@) =~= skill_views()[2].duties);
    assert(str_views_of(d.notes@) =~= skill_views()[2].notes);
    d
}

fn skill_doc_3() -> (d: SkillDoc)
    ensures
        d.view_of() == skill_views()[3],
{
    let d = SkillDoc {
        name: "director",
        description: "把已确认剧本转成逐镜头分镜，定义景别、构图、机位、灯光与时长。",
        stage: Some(StageId::Storyboard),
        trigger: "剧本已确认，需要把每一拍变成可拍的镜头。",
        not_trigger: "还在讨论故事讲什么；那是 script 的事。",
        duties: vec!["每个镜头一个主动作、一个主镜头运动。两个以上的运动会让生成结果失控。", "写清动作链（起 → 承 → 收）、首帧与尾帧，转场要能被审计。", "锁定角色连续性：外观、服装、机位签名，逐镜保持一致。", "安全约束写进分镜本身，而不是留给后面的阶段补救。"],
        notes: vec!["镜头时长必须与剧本各拍对齐；改了时长就要回到剧本阶段改。"],
    };
    assert(str_views_of(d.duties@) =~= skill_views()[3].duties);
    assert(str_views_of(d.notes@) =~= skill_views()[3].notes);
    d
}

fn skill_doc_4() -> (d: SkillDoc)
    ensures
        d.view_of() == skill_views()[4],
{
    let d = SkillDoc {
        name: "visual",
        description: "规划并生成一致的角色卡、场景卡与参考资产。",
        stage: Some(StageId::VisualAssets),
        trigger: "分镜已确认，需要先把跨镜头复用的视觉资产定下来。",
        not_trigger: "逐镜头的提示词；那是 prompt 的事。",
        duties: vec!["为跨镜头复用的角色、场景、道具各建一张卡，给稳定的 asset_id。", "写明一致性锁定：角色外观、机位签名、环境、排版禁止项。", "核心系列没有独立静态图 workflow 时，先生成开发片段再抽帧，并保留抽帧参数。", "降级策略写死：核心系列不可用就结构化阻塞，不自动换系列。"],
        notes: vec!["这是 hybrid 阶段：你定资产计划，确认之后由控制面执行生成。"],
    };
    assert(str_views_of(d.duties@) =~= skill_views()[4].duties);
    assert(str_views_of(d.notes@) =~= skill_views()[4].notes);
    d
}

fn skill_doc_5() -> (d: SkillDoc)
    ensures
        d.view_of() == skill_views()[5],
{
    let d = SkillDoc {
        name: "prompt",
        description: "把已确认分镜与视觉资产编译成逐镜头 prompt 和 workflow 参数。",
        stage: Some(StageId::PromptPack),
        trigger: "视觉资产已确认，准备进入渲染。",
        not_trigger: "画面内容本身还在改；那是 director 的事。",
        duties: vec!["逐镜头给出正向、负向提示词，以及尺寸、帧数、帧率、种子。", "种子必须固定并记录，否则结果不可复现。", "workflow 名必须是已验证基线里的，不要临时编一个。", "引用视觉资产用 asset_id，不要重复描述角色外观。"],
        notes: vec!["这道门是花 GPU 时间之前的最后一关。确认之后就开始烧显卡了，提交前自己再读一遍。"],
    };
    assert(str_views_of(d.duties@) =~= skill_views()[5].duties);
    assert(str_views_of(d.notes@) =~= skill_views()[5].notes);
    d
}

fn skill_doc_6() -> (d: SkillDoc)
    ensures
        d.view_of() == skill_views()[6],
{
    let d = SkillDoc {
        name: "comfyui",
        description: "提交已确认且通过校验的 workflow，选择健康节点、跟踪执行并登记输出。",
        stage: Some(StageId::Render),
        trigger: "提示词包已确认，控制面开始渲染。",
        not_trigger: "任何创作判断。",
        duties: vec!["这是确定性阶段，由控制面执行，你只需要用 studio.status 观察。", "失败时读 studio.timeline 看清是哪一镜、哪个节点、什么原因。", "节点不可用或模型契约不满足时会结构化阻塞——不要建议换模型来绕过。", "怀疑是某个节点本身有问题（反复失败、迟迟连不上），先调 studio.comfy.exclude_node 把它排除，再重试。", "执行失败但内容没问题（节点抖动、连接超时）时调 studio.retry_stage，不要用 studio.revise——那是给内容要改的场景用的。"],
        notes: vec!["运行控制面的机器不需要 GPU，一切经 ComfyUI 的 HTTP API 完成。", "孤立的一次轮询连接超时不代表渲染失败：控制面会自动容错重试，只有连续失败或总耗时超过 timeout 才会真正报错。"],
    };
    assert(str_views_of(d.duties@) =~= skill_views()[6].duties);
    assert(str_views_of(d.notes@) =~= skill_views()[6].notes);
    d
}

fn skill_doc_7() -> (d: SkillDoc)
    ensures
        d.view_of() == skill_views()[7],
{
    let d = SkillDoc {
        name: "post",
        description: "把生成片段拼接为交付视频，处理字幕、音频、封面。",
        stage: Some(StageId::Post),
        trigger: "渲染完成，需要出成片。",
        not_trigger: "镜头本身要重做；那要回到更早的阶段。",
        duties: vec!["按分镜顺序拼接，转场必须与分镜里写的一致。", "字幕只能来自已确认的剧本文本，不要在这一步新编。", "封面从成片里抽帧，不要另外生成一张对不上的图。"],
        notes: vec!["这是确定性阶段，由控制面执行。ffmpeg 不要求在 PATH 中，配置见 .env。"],
    };
    assert(str_views_of(d.duties@) =~= skill_views()[7].duties);
    assert(str_views_of(d.notes@) =~= skill_views()[7].notes);
    d
}

fn skill_doc_8() -> (d: SkillDoc)
    ensures
        d.view_of() == skill_views()[8],
{
    let d = SkillDoc {
        name: "review",
        description: "检查成片的媒体完整性、时长、字幕、编码与发布风险。",
        stage: Some(StageId::Review),
        trigger: "后期完成，需要验收。",
        not_trigger: "创作质量的主观评价。",
        duties: vec!["每一条检查都必须基于 ffprobe 的**实测**元数据，不能靠推断。", "逐条核对 idea 阶段定下的 success_metrics。", "任一必需项缺失就判不通过，不要为了让流程走完而放水。"],
        notes: vec!["验收通过不等于可以发布。对外发布需要另行获得授权。"],
    };
    assert(str_views_of(d.duties@) =~= skill_views()[8].duties);
    assert(str_views_of(d.notes@) =~= skill_views()[8].notes);
    d
}

fn skill_doc_9() -> (d: SkillDoc)
    ensures
        d.view_of() == skill_views()[9],
{
    let d = SkillDoc {
        name: "run-management",
        description: "解释当前作品的状态，走修订与恢复路径。",
        stage: None,
        trigger: "用户问「现在到哪了」「怎么改」「重做某一步」，或者遇到阻塞需要判断下一步。",
        not_trigger: "各阶段的创作执行本身。",
        duties: vec!["先调 studio.status。信封里的 next_action 和 blocked_by 已经说清了该做什么。", "阻塞时照 blocked_by.remedy 做。它一定会指向一个能调的工具。", "用户提出修改意见就调 studio.revise——它不会失败，也不需要先解除什么占用。", "作品的历史看 studio.timeline，某一步的产物看 studio.stage_output。"],
        notes: vec!["**没有 run_id**。你打开的这个目录就是当前作品，工具也都不收项目参数。", "新建、继续、修订之外没有别的动作。列表用 `ls`，另存为用 `cp -r`，删除用 `rm -rf`。"],
    };
    assert(str_views_of(d.duties@) =~= skill_views()[9].duties);
    assert(str_views_of(d.notes@) =~= skill_views()[9].notes);
    d
}

/// Each skill is named after its skill directory, and a skill that carries
/// a stage is the capability of that stage; `run-management` carries none.
pub fn skill_docs() -> (r: Vec<SkillDoc>)
    ensures
        r@.len() == 10,
        forall|i: int| 0 <= i < 10 ==> (#[trigger] r@[i]).view_of() == skill_views()[i],
        forall|i: int| 0 <= i < 10 ==> (#[trigger] r@[i]).name@ == skill_dir_names()[i],
        forall|i: int|
            0 <= i < 10 ==> ((#[trigger] r@[i]).stage matches Some(st) ==> st.capability_of().name()
                == r@[i].name@),
        r@[9].stage is None,
{
    let mut v: Vec<SkillDoc> = Vec::new();
    v.push(skill_doc_0());
    v.push(skill_doc_1());
    v.push(skill_doc_2());
    v.push(skill_doc_3());
    v.push(skill_doc_4());
    v.push(skill_doc_5());
    v.push(skill_doc_6());
    v.push(skill_doc_7());
    v.push(skill_doc_8());
    v.push(skill_doc_9());
    v
}

/// The method documents and model cards a bundle carries, relative to `.agents/`.
pub open spec fn doctrine_file_paths() -> Seq<Seq<char>> {
    seq!["doctrine/README.md"@, "doctrine/story/structure.md"@, "doctrine/story/concepts.md"@, "doctrine/story/hook.md"@, "doctrine/story/voice.md"@, "doctrine/camera/grammar.md"@, "doctrine/camera/lighting.md"@, "doctrine/camera/blocking.md"@, "doctrine/consistency/bible.md"@, "doctrine/audio/design.md"@, "doctrine/failure/modes.md"@, "doctrine/exemplars/script.md"@, "doctrine/exemplars/storyboard.md"@, "doctrine/exemplars/prompt_pack.md"@, "doctrine/quality/checklist.md"@, "doctrine/quality/banned.md"@, "models/minimax_h3.md"@, "models/wan2_2.md"@, "models/ltx2_5.md"@]
}

pub fn doctrine_files() -> (r: Vec<&'static str>)
    ensures
        str_views_of(r@) == doctrine_file_paths(),
{
    let r: Vec<&'static str> = vec!["doctrine/README.md", "doctrine/story/structure.md", "doctrine/story/concepts.md", "doctrine/story/hook.md", "doctrine/story/voice.md", "doctrine/camera/grammar.md", "doctrine/camera/lighting.md", "doctrine/camera/blocking.md", "doctrine/consistency/bible.md", "doctrine/audio/design.md", "doctrine/failure/modes.md", "doctrine/exemplars/script.md", "doctrine/exemplars/storyboard.md", "doctrine/exemplars/prompt_pack.md", "doctrine/quality/checklist.md", "doctrine/quality/banned.md", "models/minimax_h3.md", "models/wan2_2.md", "models/ltx2_5.md"];
    assert(str_views_of(r@) =~= doctrine_file_paths());
    r
}

/// The method documents a skill should read, relative to the bundle. Not
/// "read all of it": none is loaded by default; read the one you need.
pub open spec fn doctrine_paths(skill: Seq<char>) -> Seq<Seq<char>> {
    if skill == "idea"@ {
        seq![".agents/doctrine/story/concepts.md"@, ".agents/doctrine/story/hook.md"@, ".agents/doctrine/story/structure.md"@]
    } else if skill == "selection"@ {
        seq![".agents/doctrine/story/concepts.md"@, ".agents/doctrine/story/hook.md"@]
    } else if skill == "script"@ {
        seq![".agents/doctrine/story/structure.md"@, ".agents/doctrine/story/voice.md"@, ".agents/doctrine/audio/design.md"@, ".agents/doctrine/exemplars/script.md"@]
    } else if skill == "director"@ {
        seq![".agents/doctrine/camera/grammar.md"@, ".agents/doctrine/camera/blocking.md"@, ".agents/doctrine/camera/lighting.md"@, ".agents/doctrine/consistency/bible.md"@, ".agents/doctrine/audio/design.md"@, ".agents/doctrine/exemplars/storyboard.md"@]
    } else if skill == "visual"@ {
        seq![".agents/doctrine/consistency/bible.md"@]
    } else if skill == "prompt"@ {
        seq![".agents/models/"@, ".agents/doctrine/exemplars/prompt_pack.md"@, ".agents/doctrine/consistency/bible.md"@, ".agents/doctrine/quality/banned.md"@]
    } else if skill == "comfyui"@ {
        seq![".agents/doctrine/failure/modes.md"@]
    } else if skill == "review"@ {
        seq![".agents/doctrine/quality/checklist.md"@]
    } else if skill == "run-management"@ {
        seq![".agents/doctrine/failure/modes.md"@]
    } else {
        Seq::empty()
    }
}

pub fn doctrine_for(skill: &str) -> (r: Vec<&'static str>)
    ensures
        str_views_of(r@) == doctrine_paths(skill@),
{
    let r: Vec<&'static str> = 
    if crate::text::str_eq(skill, "idea") {
        vec![".agents/doctrine/story/concepts.md", ".agents/doctrine/story/hook.md", ".agents/doctrine/story/structure.md"]
    } else if crate::text::str_eq(skill, "selection") {
        vec![".agents/doctrine/story/concepts.md", ".agents/doctrine/story/hook.md"]
    } else if crate::text::str_eq(skill, "script") {
        vec![".agents/doctrine/story/structure.md", ".agents/doctrine/story/voice.md", ".agents/doctrine/audio/design.md", ".agents/doctrine/exemplars/script.md"]
    } else if crate::text::str_eq(skill, "director") {
        vec![".agents/doctrine/camera/grammar.md", ".agents/doctrine/camera/blocking.md", ".agents/doctrine/camera/lighting.md", ".agents/doctrine/consistency/bible.md", ".agents/doctrine/audio/design.md", ".agents/doctrine/exemplars/storyboard.md"]
    } else if crate::text::str_eq(skill, "visual") {
        vec![".agents/doctrine/consistency/bible.md"]
    } else if crate::text::str_eq(skill, "prompt") {
        vec![".agents/models/", ".agents/doctrine/exemplars/prompt_pack.md", ".agents/doctrine/consistency/bible.md", ".agents/doctrine/quality/banned.md"]
    } else if crate::text::str_eq(skill, "comfyui") {
        vec![".agents/doctrine/failure/modes.md"]
    } else if crate::text::str_eq(skill, "review") {
        vec![".agents/doctrine/quality/checklist.md"]
    } else if crate::text::str_eq(skill, "run-management") {
        vec![".agents/doctrine/failure/modes.md"]
    } else {
        Vec::new()
    };
    assert(str_views_of(r@) =~= doctrine_paths(skill@));
    r
}

/// What to go through before submitting a stage.
pub open spec fn checklist_items(stage: StageId) -> Seq<Seq<char>> {
    match stage {
        StageId::Idea => seq!["至少两个方案，且互斥：选了一个，另一个独有的东西就拍不进去了"@, "各方案的 angle、hook_0_3s、story_beats 都不同，不是换了说法的同一拍法"@, "各方案的 tradeoff 各不相同，没有三条都写成需求本身的约束"@, "钩子在前 3 秒内成立，且说得出具体是什么画面"@, "对模糊输入的判断写进了 assumptions，没有私下假设也没有反复追问"@, "success_metrics 每一条都能被验收，不是「效果好」这类说法"@],
        StageId::Selection => seq!["每个方案都单独评过，没有只写推荐那个"@, "recommendation 指向的 concept_id 确实在候选里"@, "推荐说清了牺牲什么，不是只讲优点"@, "风险分成可规避 / 需用户决定 / 不可接受三类"@],
        StageId::Script => seq!["各拍时长之和精确等于总时长（自己加一遍）"@, "时长按内容分配，timing_rule 写的是依据不是结果"@, "每一拍都说得出自己的 beat_type，且不与上一拍重复"@, "无口播也写清了环境声来源与字幕策略"@],
        StageId::Storyboard => seq!["每镜说得出 shot_function，说不出就删掉这一镜"@, "每镜三条物理事实齐全，且都是拍得出来的"@, "每镜只有一个主运镜，且落在受控词表里"@, "镜头时长与剧本各拍对齐，总和一致"@, "角色外观串逐镜逐字相同（复制粘贴，不要复述）"@, "每镜的 audio 都写了，没有留空"@],
        StageId::VisualAssets => seq!["每个跨镜头复用的角色、场景、道具都有卡"@, "一致性锁定写明了外观、机位签名、环境与排版禁止项"@],
        StageId::PromptPack => seq!["逐项对照能力卡：写的每个参数这条基线都吃"@, "不支持负向提示词的系列，约束改写成了正向的完整句子"@, "身份锁在每一镜里逐字出现，没有写成「同一位…」"@, "没有禁用词（cinematic / 电影感 / 唯美这类）"@, "种子固定并记录，尺寸与帧数按各镜时长算准"@, "audio 写了三层，没有放弃原生音频"@],
        _ => Seq::empty(),
    }
}

pub fn checklist(stage: StageId) -> (r: Vec<&'static str>)
    ensures
        str_views_of(r@) == checklist_items(stage),
{
    let r: Vec<&'static str> = match stage {
        StageId::Idea => vec!["至少两个方案，且互斥：选了一个，另一个独有的东西就拍不进去了", "各方案的 angle、hook_0_3s、story_beats 都不同，不是换了说法的同一拍法", "各方案的 tradeoff 各不相同，没有三条都写成需求本身的约束", "钩子在前 3 秒内成立，且说得出具体是什么画面", "对模糊输入的判断写进了 assumptions，没有私下假设也没有反复追问", "success_metrics 每一条都能被验收，不是「效果好」这类说法"],
        StageId::Selection => vec!["每个方案都单独评过，没有只写推荐那个", "recommendation 指向的 concept_id 确实在候选里", "推荐说清了牺牲什么，不是只讲优点", "风险分成可规避 / 需用户决定 / 不可接受三类"],
        StageId::Script => vec!["各拍时长之和精确等于总时长（自己加一遍）", "时长按内容分配，timing_rule 写的是依据不是结果", "每一拍都说得出自己的 beat_type，且不与上一拍重复", "无口播也写清了环境声来源与字幕策略"],
        StageId::Storyboard => vec!["每镜说得出 shot_function，说不出就删掉这一镜", "每镜三条物理事实齐全，且都是拍得出来的", "每镜只有一个主运镜，且落在受控词表里", "镜头时长与剧本各拍对齐，总和一致", "角色外观串逐镜逐字相同（复制粘贴，不要复述）", "每镜的 audio 都写了，没有留空"],
        StageId::VisualAssets => vec!["每个跨镜头复用的角色、场景、道具都有卡", "一致性锁定写明了外观、机位签名、环境与排版禁止项"],
        StageId::PromptPack => vec!["逐项对照能力卡：写的每个参数这条基线都吃", "不支持负向提示词的系列，约束改写成了正向的完整句子", "身份锁在每一镜里逐字出现，没有写成「同一位…」", "没有禁用词（cinematic / 电影感 / 唯美这类）", "种子固定并记录，尺寸与帧数按各镜时长算准", "audio 写了三层，没有放弃原生音频"],
        _ => Vec::new(),
    };
    assert(str_views_of(r@) =~= checklist_items(stage));
    r
}

// ---------------------------------------------------------------------------
// The document.

/// `pre + x + post` for every item, in order.
pub open spec fn wrapped(items: Seq<Seq<char>>, pre: Seq<char>, post: Seq<char>) -> Seq<char>
    decreases items.len(),
{
    if items.len() == 0 {
        Seq::empty()
    } else {
        wrapped(items.drop_last(), pre, post) + pre + items.last() + post
    }
}

pub(crate) fn push_wrapped(out: &mut String, items: &Vec<&str>, pre: &str, post: &str)
    ensures
        final(out)@ == old(out)@ + wrapped(str_views_of(items@), pre@, post@),
{
    let ghost vs = str_views_of(items@);
    let mut i: usize = 0;
    while i < items.len()
        invariant
            vs == str_views_of(items@),
            i <= items@.len(),
            out@ == old(out)@ + wrapped(vs.subrange(0, i as int), pre@, post@),
        decreases items.len() - i,
    {
        assert(vs.subrange(0, i + 1).drop_last() =~= vs.subrange(0, i as int));
        out.append(pre);
        out.append(items[i]);
        out.append(post);
        i = i + 1;
    }
    assert(vs.subrange(0, items@.len() as int) =~= vs);
}

/// The files of `files` under directory `dir`, each as a list entry.
pub open spec fn files_under(dir: Seq<char>, files: Seq<Seq<char>>) -> Seq<char>
    decreases files.len(),
{
    if files.len() == 0 {
        Seq::empty()
    } else {
        let full = ".agents/"@ + files.last();
        files_under(dir, files.drop_last()) + if seq_starts_with(full, dir) {
            "- `"@ + full + "`\n"@
        } else {
            Seq::empty()
        }
    }
}

/// A document as a list entry; a directory (ending in `/`) is spelled out
/// file by file: given a directory name, the agent would `cat` a path it
/// guessed before it thought of listing the directory.
pub open spec fn doctrine_entry(p: Seq<char>) -> Seq<char> {
    if p.len() > 0 && p.last() == '/' {
        files_under(p.drop_last(), doctrine_file_paths())
    } else {
        "- `"@ + p + "`\n"@
    }
}

pub open spec fn doctrine_entries(ps: Seq<Seq<char>>) -> Seq<char>
    decreases ps.len(),
{
    if ps.len() == 0 {
        Seq::empty()
    } else {
        doctrine_entries(ps.drop_last()) + doctrine_entry(ps.last())
    }
}

pub open spec fn method_section(skill: Seq<char>) -> Seq<char> {
    let ps = doctrine_paths(skill);
    if ps.len() > 0 {
        "## 方法\n\n"@
            + "职责说的是**交什么**，下面这几份说的是**怎么想**——什么算好、怎么避开已知的坑、写好的长什么样。动手之前读，别凭感觉写。\n\n"@
            + doctrine_entries(ps)
            + "\n这些文件就在这部作品的目录里，用你的文件读取工具直接读——路径照抄，不要凭印象猜。（`.studio/` 是控制面私有的，那个不要碰。）\n\n"@
    } else {
        Seq::empty()
    }
}

/// The required top-level fields of a stage's outputs.
pub open spec fn required_fields(stage: StageId) -> Seq<Seq<char>> {
    match schema_of(stage) {
        SchemaView::Object { required, .. } => str_views_of(required),
        _ => Seq::empty(),
    }
}

pub open spec fn stage_section(stage: StageId) -> Seq<char> {
    let key = stage.key_name();
    "## 输入输出\n\n"@ + "本阶段的产物放在 `outputs` 的顶层键 `"@ + key
        + "` 下。**提交前先调 `studio.schema(\""@ + stage.name()
        + "\")`** 取回完整契约，不要凭印象填字段。必填项是：\n\n"@
        + wrapped(required_fields(stage), "- `"@ + key + "."@, "`\n"@) + "\n"@
        + "上游产物由 `studio.status` 的 `next_action.inputs` 给出，不需要你去别处找。\n\n"@
        + "## 确认点\n\n"@ + match stage.gate_name() {
        Some(g) => "本阶段有确认门 `"@ + g
            + "`。提交时必须同时给出 `confirmation`：一句问用户的话，加上至少一个 `outcome: approve` 的选项和一个 `outcome: revise` 的选项。\n\n用户选了 revise 类选项，控制面会自动把阶段打回草稿；用户是用自然语言提意见（而不是点选项），就调 `studio.revise`。\n\n"@,
        None => "本阶段没有确认门，提交即通过。\n\n"@,
    }
}

pub open spec fn self_check_section(stage: StageId) -> Seq<char> {
    let items = checklist_items(stage);
    if items.len() > 0 {
        "## 提交前自检\n\n"@ + "逐条过。过不了就别提交——退回来重做比往下走便宜得多。\n\n"@
            + wrapped(items, "- [ ] "@, "\n"@) + "\n"@
    } else {
        Seq::empty()
    }
}

/// The front matter, title, triggers and duties of a skill.
pub open spec fn head_text(d: SkillView) -> Seq<char> {
    "---\nname: "@ + d.name + "\ndescription: "@ + d.description
        + "\n---\n\n<!-- 本文件由代码生成，请勿手改。 -->\n\n"@
        + "# "@ + d.name + " Skill\n\n"@
        + "触发："@ + d.trigger + "\n\n"@
        + "不触发："@ + d.not_trigger + "\n\n"@
        + "## 职责\n\n"@ + wrapped(d.duties, "- "@, "\n"@) + "\n"@
}

pub open spec fn recovery_text() -> Seq<char> {
    "## 失败与恢复\n\n"@
        + "任何工具返回的 `blocked_by` 都带着 `remedy`，照它做。schema 不合规时 `message` 会精确指到出错的字段路径，例如 `script.story_arc[1].duration_seconds`。\n\n"@
}

pub open spec fn notes_section(notes: Seq<Seq<char>>) -> Seq<char> {
    if notes.len() > 0 {
        "## 注意\n\n"@ + wrapped(notes, "- "@, "\n"@) + "\n"@
    } else {
        Seq::empty()
    }
}

pub open spec fn tools_section(tools: Seq<Seq<char>>) -> Seq<char> {
    "## Studio MCP\n\n"@ + "可用工具（全部不带 run_id，当前目录就是当前作品）：\n\n"@
        + wrapped(tools, "- `"@, "`\n"@)
}

/// A skill's SKILL.md. `tools` are the names of the MCP tools the agent has.
pub open spec fn skill_md_text(d: SkillView, tools: Seq<Seq<char>>) -> Seq<char> {
    head_text(d) + method_section(d.name) + match d.stage {
        Some(st) => stage_section(st),
        None => Seq::empty(),
    } + recovery_text() + match d.stage {
        Some(st) => self_check_section(st),
        None => Seq::empty(),
    } + notes_section(d.notes) + tools_section(tools)
}

fn push_files_under(out: &mut String, dir: &str, files: &Vec<&'static str>)
    ensures
        final(out)@ == old(out)@ + files_under(dir@, str_views_of(files@)),
{
    let ghost vs = str_views_of(files@);
    let mut i: usize = 0;
    while i < files.len()
        invariant
            vs == str_views_of(files@),
            i <= files@.len(),
            out@ == old(out)@ + files_under(dir@, vs.subrange(0, i as int)),
        decreases files.len() - i,
    {
        assert(vs.subrange(0, i + 1).drop_last() =~= vs.subrange(0, i as int));
        let mut full = String::from_str(".agents/");
        full.append(files[i]);
        if str_starts_with(full.as_str(), dir) {
            out.append("- `");
            out.append(full.as_str());
            out.append("`\n");
        }
        i = i + 1;
    }
    assert(vs.subrange(0, files@.len() as int) =~= vs);
}

fn push_doctrine(out: &mut String, paths: &Vec<&'static str>)
    ensures
        final(out)@ == old(out)@ + doctrine_entries(str_views_of(paths@)),
{
    let files = doctrine_files();
    let ghost vs = str_views_of(paths@);
    let mut i: usize = 0;
    while i < paths.len()
        invariant
            vs == str_views_of(paths@),
            str_views_of(files@) == doctrine_file_paths(),
            i <= paths@.len(),
            out@ == old(out)@ + doctrine_entries(vs.subrange(0, i as int)),
        decreases paths.len() - i,
    {
        assert(vs.subrange(0, i + 1).drop_last() =~= vs.subrange(0, i as int));
        let p = paths[i];
        let n = p.unicode_len();
        if n > 0 && p.get_char(n - 1) == '/' {
            let dir = p.substring_char(0, n - 1);
            assert(dir@ =~= p@.drop_last());
            push_files_under(out, dir, &files);
        } else {
            out.append("- `");
            out.append(p);
            out.append("`\n");
        }
        i = i + 1;
    }
    assert(vs.subrange(0, paths@.len() as int) =~= vs);
}

fn push_stage_section(out: &mut String, stage: StageId)
    ensures
        final(out)@ == old(out)@ + stage_section(stage),
{
    let key = stage.output_key();
    out.append("## 输入输出\n\n");
    out.append("本阶段的产物放在 `outputs` 的顶层键 `");
    out.append(key);
    out.append("` 下。**提交前先调 `studio.schema(\"");
    out.append(stage.as_str());
    out.append("\")`** 取回完整契约，不要凭印象填字段。必填项是：\n\n");
    let mut pre = String::from_str("- `");
    pre.append(key);
    pre.append(".");
    match stage_schema(stage) {
        Schema::Object { required, .. } => {
            push_wrapped(out, &required, pre.as_str(), "`\n");
        },
        _ => {},
    }
    out.append("\n");
    out.append("上游产物由 `studio.status` 的 `next_action.inputs` 给出，不需要你去别处找。\n\n");
    out.append("## 确认点\n\n");
    match stage.gate() {
        Some(g) => {
            out.append("本阶段有确认门 `");
            out.append(g);
            out.append(
                "`。提交时必须同时给出 `confirmation`：一句问用户的话，加上至少一个 `outcome: approve` 的选项和一个 `outcome: revise` 的选项。\n\n用户选了 revise 类选项，控制面会自动把阶段打回草稿；用户是用自然语言提意见（而不是点选项），就调 `studio.revise`。\n\n",
            );
        },
        None => out.append("本阶段没有确认门，提交即通过。\n\n"),
    }
}

fn push_head(out: &mut String, doc: &SkillDoc)
    ensures
        final(out)@ == old(out)@ + head_text(doc.view_of()),
{
    out.append("---\nname: ");
    out.append(doc.name);
    out.append("\ndescription: ");
    out.append(doc.description);
    out.append("\n---\n\n<!-- 本文件由代码生成，请勿手改。 -->\n\n");
    out.append("# ");
    out.append(doc.name);
    out.append(" Skill\n\n");
    out.append("触发：");
    out.append(doc.trigger);
    out.append("\n\n");
    out.append("不触发：");
    out.append(doc.not_trigger);
    out.append("\n\n");
    out.append("## 职责\n\n");
    push_wrapped(out, &doc.duties, "- ", "\n");
    out.append("\n");
}

fn push_method(out: &mut String, skill: &str)
    ensures
        final(out)@ == old(out)@ + method_section(skill@),
{
    let paths = doctrine_for(skill);
    if paths.len() > 0 {
        out.append("## 方法\n\n");
        out.append(
            "职责说的是**交什么**，下面这几份说的是**怎么想**——什么算好、怎么避开已知的坑、写好的长什么样。动手之前读，别凭感觉写。\n\n",
        );
        push_doctrine(out, &paths);
        out.append(
            "\n这些文件就在这部作品的目录里，用你的文件读取工具直接读——路径照抄，不要凭印象猜。（`.studio/` 是控制面私有的，那个不要碰。）\n\n",
        );
    }
}

fn push_self_check(out: &mut String, stage: StageId)
    ensures
        final(out)@ == old(out)@ + self_check_section(stage),
{
    let items = checklist(stage);
    if items.len() > 0 {
        out.append("## 提交前自检\n\n");
        out.append("逐条过。过不了就别提交——退回来重做比往下走便宜得多。\n\n");
        push_wrapped(out, &items, "- [ ] ", "\n");
        out.append("\n");
    }
}

fn push_notes(out: &mut String, notes: &Vec<&'static str>)
    ensures
        final(out)@ == old(out)@ + notes_section(str_views_of(notes@)),
{
    if notes.len() > 0 {
        out.append("## 注意\n\n");
        push_wrapped(out, notes, "- ", "\n");
        out.append("\n");
    }
}

fn push_tools(out: &mut String, tools: &Vec<&str>)
    ensures
        final(out)@ == old(out)@ + tools_section(str_views_of(tools@)),
{
    out.append("## Studio MCP\n\n");
    out.append("可用工具（全部不带 run_id，当前目录就是当前作品）：\n\n");
    push_wrapped(out, tools, "- `", "`\n");
}

/// The SKILL.md of a skill. `tools` are the names of the MCP tools the
/// agent has, in the order the server lists them.
pub fn skill_md(doc: &SkillDoc, tools: &Vec<&str>) -> (s: String)
    ensures
        s@ == skill_md_text(doc.view_of(), str_views_of(tools@)),
{
    let ghost d = doc.view_of();
    let mut s = String::new();
    push_head(&mut s, doc);
    let ghost a = s@;
    push_method(&mut s, doc.name);
    let ghost b = s@;
    match doc.stage {
        Some(st) => push_stage_section(&mut s, st),
        None => {},
    }
    let ghost c = s@;
    s.append("## 失败与恢复\n\n");
    s.append(
        "任何工具返回的 `blocked_by` 都带着 `remedy`，照它做。schema 不合规时 `message` 会精确指到出错的字段路径，例如 `script.story_arc[1].duration_seconds`。\n\n",
    );
    let ghost e = s@;
    match doc.stage {
        Some(st) => push_self_check(&mut s, st),
        None => {},
    }
    let ghost f = s@;
    push_notes(&mut s, &doc.notes);
    let ghost g = s@;
    push_tools(&mut s, tools);
    proof {
        assert(a =~= head_text(d));
        assert(b =~= head_text(d) + method_section(d.name));
        assert(e =~= c + recovery_text());
    }
    s
}

} // verus!
