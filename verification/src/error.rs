//! The error contract.
//!
//! Every error carries a remedy: one sentence naming what to call next.
//! [`StudioError::remedy`] matches every variant; a new variant without a
//! recovery path does not compile.
use vstd::prelude::*;
use crate::stage::StageId;
use crate::text::{
    dec_nat, join, join_seq, join_strs, push_u64, seq_contains, occurs_at, str_views_of,
    views_of,
};

verus! {

broadcast use vstd::string::group_string_axioms;

/// One violation of a schema: where, and what is wrong there.
#[derive(Debug, Clone, PartialEq)]
pub struct Violation {
    /// A JSON-pointer-like path, e.g. `script.story_arc[2].duration_seconds`.
    pub path: String,
    pub message: String,
}

impl Violation {
    pub fn new(path: String, message: String) -> (r: Violation)
        ensures
            r.path == path,
            r.message == message,
    {
        Violation { path, message }
    }

    /// `{path}: {message}`.
    pub open spec fn text(self) -> Seq<char> {
        self.path@ + ": "@ + self.message@
    }

    pub fn to_string(&self) -> (r: String)
        ensures
            r@ == self.text(),
    {
        let mut s = self.path.clone();
        s.append(": ");
        s.append(self.message.as_str());
        s
    }
}

/// A violation as plain values: the path and the message.
pub type ViolationView = (Seq<char>, Seq<char>);

pub open spec fn violation_views(v: Seq<Violation>) -> Seq<ViolationView> {
    v.map_values(|x: Violation| (x.path@, x.message@))
}

pub open spec fn violation_texts(v: Seq<Violation>) -> Seq<Seq<char>> {
    v.map_values(|x: Violation| x.text())
}

/// The violations joined with `; `.
pub fn join_violations(v: &Vec<Violation>) -> (r: String)
    ensures
        r@ == join_seq(violation_texts(v@), "; "@),
{
    let mut parts: Vec<String> = Vec::new();
    let mut i: usize = 0;
    while i < v.len()
        invariant
            i <= v@.len(),
            parts@.len() == i,
            forall|k: int| 0 <= k < i ==> (#[trigger] parts@[k])@ == v@[k].text(),
        decreases v.len() - i,
    {
        parts.push(v[i].to_string());
        i = i + 1;
    }
    let r = join(&parts, "; ");
    assert(views_of(parts@) =~= violation_texts(v@));
    r
}

#[derive(Debug, Clone, PartialEq)]
pub enum StudioError {
    /// The outputs do not fit the stage's schema.
    SchemaViolation { stage: StageId, violations: Vec<Violation> },
    /// The outputs fit the schema but fail the quality gate.
    QualityViolation { stage: StageId, findings: Vec<Violation> },
    /// The state machine does not allow this action.
    InvalidTransition {
        stage: StageId,
        current: &'static str,
        attempted: &'static str,
        allowed: Vec<&'static str>,
    },
    /// A gated stage was submitted without its confirmation question.
    ConfirmationRequired { stage: StageId, gate: &'static str },
    /// The confirmation is still pending; nothing can move on.
    GatePending { stage: StageId, question_id: String },
    /// The answer is not one of the options.
    UnknownAnswer { question_id: String, given: String, options: Vec<String> },
    /// A stage this one depends on has not passed.
    StageNotReady { stage: StageId, blocked_on: StageId },
    /// `.studio/` was changed from outside; the integrity check failed.
    StateDrift { detail: String },
    /// Another process holds this bundle.
    ProjectBusy { pid: Option<u32>, since: Option<String> },
    /// The directory is not a bundle.
    NotAProject { path: String },
    /// No ComfyUI node is available.
    ComfyUnavailable { tried: Vec<String> },
    /// ComfyUI failed to execute.
    ComfyFailed { node: String, detail: String },
    /// A pinned model is missing or fails its check: stop, never substitute silently.
    ModelContractViolation { detail: String },
    /// A registered artifact is not on disk.
    ArtifactMissing { path: String },
    /// An outside program (ffmpeg / ffprobe) cannot be found.
    ToolUnavailable { tool: String, looked_in: Vec<String> },
    /// The stage has been retried as often as allowed.
    RetryLimitExceeded { stage: StageId, limit: u32 },
    /// The stage asked to be retried is not the deterministic stage that is stuck.
    RetryStageMismatch { requested: StageId, current: Option<StageId> },
    /// Internal error: I/O, serialisation and the like.
    Internal { detail: String },
}

/// What `str::to_uppercase` returns for a string (the full Unicode mapping).
pub uninterp spec fn uppercase(s: Seq<char>) -> Seq<char>;

/// Calls `str::to_uppercase`; the result is [`uppercase`] of the argument.
#[verifier::external_body]
pub(crate) fn to_uppercase(s: &str) -> (r: String)
    ensures
        r@ == uppercase(s@),
{
    s.to_uppercase()
}

/// The machine-readable code of each variant.
pub open spec fn code_of(e: StudioError) -> Seq<char> {
    match e {
        StudioError::SchemaViolation { .. } => "schema_violation"@,
        StudioError::QualityViolation { .. } => "quality_violation"@,
        StudioError::InvalidTransition { .. } => "invalid_transition"@,
        StudioError::ConfirmationRequired { .. } => "confirmation_required"@,
        StudioError::GatePending { .. } => "gate_pending"@,
        StudioError::UnknownAnswer { .. } => "unknown_answer"@,
        StudioError::StageNotReady { .. } => "stage_not_ready"@,
        StudioError::StateDrift { .. } => "state_drift"@,
        StudioError::ProjectBusy { .. } => "project_busy"@,
        StudioError::NotAProject { .. } => "not_a_project"@,
        StudioError::ComfyUnavailable { .. } => "comfy_unavailable"@,
        StudioError::ComfyFailed { .. } => "comfy_failed"@,
        StudioError::ModelContractViolation { .. } => "model_contract_violation"@,
        StudioError::ArtifactMissing { .. } => "artifact_missing"@,
        StudioError::ToolUnavailable { .. } => "tool_unavailable"@,
        StudioError::RetryLimitExceeded { .. } => "retry_limit_exceeded"@,
        StudioError::RetryStageMismatch { .. } => "retry_stage_mismatch"@,
        StudioError::Internal { .. } => "internal"@,
    }
}

/// The remedy of each variant.
pub open spec fn remedy_of(e: StudioError) -> Seq<char> {
    match e {
        StudioError::SchemaViolation { stage, .. } => "调 studio.schema(\""@ + stage.name()
            + "\") 取回该阶段的输出契约，按上面列出的路径修正后重新 studio.submit_stage。"@,
        StudioError::QualityViolation { stage, .. } => "阶段 "@ + stage.name()
            + " 没过质量闸。按上面每一条的说明改写对应字段——写法见 .agents/doctrine/quality/banned.md 与自检清单——然后重新 studio.submit_stage。"@,
        StudioError::InvalidTransition { allowed, .. } => if allowed@.len() == 0 {
            "调 studio.status() 看当前该谁行动。"@
        } else {
            "当前状态只允许："@ + join_seq(str_views_of(allowed@), "、"@)
                + "。先调 studio.status() 确认，再选其中一个。"@
        },
        StudioError::ConfirmationRequired { stage, gate } => "阶段 "@ + stage.name()
            + " 有确认门 "@ + gate@
            + "，提交时必须同时给出 confirmation：{prompt, selection_type, options[]}。补上后重新 studio.submit_stage。"@,
        StudioError::GatePending { question_id, .. } => "确认门 "@ + question_id@
            + " 还挂着。要用户确认就调 studio.answer(\""@ + question_id@
            + "\", <选项 id>)；要改内容就调 studio.revise(stage, message)——revise 会释放门并回到可提交状态。"@,
        StudioError::UnknownAnswer { question_id, options, .. } => "选项必须是 "@ + join_seq(
            views_of(options@),
            " / "@,
        ) + " 之一。重新调 studio.answer(\""@ + question_id@ + "\", <其中一个>)。"@,
        StudioError::StageNotReady { blocked_on, .. } => "前置阶段 "@ + blocked_on.name()
            + " 还没通过。调 studio.status() 拿到 next_action，按它指的阶段先做。"@,
        StudioError::StateDrift { detail } => ".studio/ 的状态被外部改动过（"@ + detail@
            + "）。这个目录是服务端私有的，不要直接读写。用 studio.timeline() 核对事件历史；确实需要回退就调 studio.undo(stage)。"@,
        StudioError::ProjectBusy { pid, .. } => "本作品已被"@ + (match pid {
            Some(p) => "进程 "@ + dec_nat(p as nat),
            None => "另一个进程"@,
        }) + "打开。一个 bundle 同时只能有一个会话：关掉那个会话后重试，或用 `studiod init <另一个路径>` 新开一部作品。"@,
        StudioError::NotAProject { path } => path@
            + " 不是一部作品。用 `studiod init <路径>` 新建一部，然后在那个目录里打开 Codex。"@,
        StudioError::ComfyUnavailable { tried } => "没有健康的 ComfyUI 节点（试过 "@ + (if tried@.len()
            == 0 {
            "无"@
        } else {
            join_seq(views_of(tried@), "、"@)
        })
            + "）。在 .env 里配好 COMFY_NODES 后，调 studio.status() 确认当前卡在 preview 还是 render，再对它调 studio.retry_stage(<该阶段>) 让控制面重新尝试——它会先停掉可能还在跑的 worker，也会当场重新读取 `.env`，不需要重启 MCP 进程，也不需要在这部作品 之外手动跑 `studiod` 子命令；节点恢复前不要降级换模型。"@,
        StudioError::ComfyFailed { node, detail } => "节点 "@ + node@ + " 执行失败（"@ + detail@
            + "）。用 studio.timeline() 看这一镜的历史；内容本身没问题、只是这次执行失败了（节点抖动、超时）就调 studio.status() 确认当前卡在 preview 还是 render，再对它调 studio.retry_stage(<该阶段>)——它会先停掉可能还在跑的 worker 再干净重试。怀疑是这个节点本身有问题，可以先调 studio.comfy.exclude_node 把它排除掉。只有内容/提示词本身要改才用 studio.revise。"@,
        StudioError::ModelContractViolation { detail } => "固定模型契约不满足（"@ + detail@
            + "）。这是硬停止，不允许静默替换成 pruned/量化变体。跑 `studiod doctor` 看清缺哪个文件、该放到哪个节点上；补齐后调 studio.revise(\"render\", <说明>) 重做。用户明确批准降级前不要换系列。"@,
        StudioError::ArtifactMissing { path } => "登记过的产物 "@ + path@
            + " 不在磁盘上。调 studio.revise(stage, <原因>) 重做产出该文件的阶段。"@,
        StudioError::ToolUnavailable { tool, looked_in } => "找不到 "@ + tool@ + "（找过："@ + (
        if looked_in@.len() == 0 {
            "PATH"@
        } else {
            join_seq(views_of(looked_in@), "、"@)
        }) + "）。在 bundle 或程序目录的 .env 里配 "@ + uppercase(tool@)
            + "_PATH 指向可执行文件，或把它放进 PATH；配好后跑 `studiod doctor` 验证。"@,
        StudioError::RetryLimitExceeded { stage, limit } => "阶段 "@ + stage.name() + " 已重试 "@
            + dec_nat(limit as nat) + " 次。先用 studio.timeline() 看清失败原因，改掉输入后再 studio.revise(\""@
            + stage.name() + "\", <说明>)；不要继续盲目重试。"@,
        StudioError::RetryStageMismatch { current, .. } => match current {
            Some(c) => "调 studio.status() 确认当前卡在哪个阶段，再对准确的阶段调 studio.retry_stage(\""@
                + c.name()
                + "\")——传的阶段必须是当前正卡着的那个，不能是别的阶段，否则实际重跑的是当前阶段，跟传的名字对不上。"@,
            None => "作品所有阶段都已通过，没有正在等待或失败的确定性阶段可以重试。调 studio.status() 确认。"@,
        },
        StudioError::Internal { detail } => "内部错误（"@ + detail@
            + "）。调 studio.status() 确认状态是否完好；若状态可用则重试该操作，否则把 .studio/logs/studiod.log 提给维护者。"@,
    }
}

/// The one-line description of each variant.
pub open spec fn message_of(e: StudioError) -> Seq<char> {
    match e {
        StudioError::SchemaViolation { stage, violations } => "阶段 "@ + stage.name()
            + " 的产物不符合契约："@ + join_seq(violation_texts(violations@), "; "@),
        StudioError::QualityViolation { stage, findings } => "阶段 "@ + stage.name()
            + " 的产物没过质量闸："@ + join_seq(violation_texts(findings@), "; "@),
        StudioError::InvalidTransition { stage, current, attempted, .. } => "阶段 "@
            + stage.name() + " 当前处于 "@ + current@ + "，不能执行 "@ + attempted@,
        StudioError::ConfirmationRequired { stage, gate } => "阶段 "@ + stage.name()
            + " 的确认门 "@ + gate@ + " 需要确认问题"@,
        StudioError::GatePending { stage, question_id } => "阶段 "@ + stage.name()
            + " 正在等待确认（"@ + question_id@ + "）"@,
        StudioError::UnknownAnswer { given, .. } => "无效的选项："@ + given@,
        StudioError::StageNotReady { stage, blocked_on } => "阶段 "@ + stage.name() + " 依赖尚未通过的 "@
            + blocked_on.name(),
        StudioError::StateDrift { detail } => "状态完整性校验失败："@ + detail@,
        StudioError::ProjectBusy { pid, since } => match (pid, since) {
            (Some(p), Some(s)) => "作品已被进程 "@ + dec_nat(p as nat) + " 打开（自 "@ + s@ + "）"@,
            (Some(p), None) => "作品已被进程 "@ + dec_nat(p as nat) + " 打开"@,
            _ => "作品已被另一个进程打开"@,
        },
        StudioError::NotAProject { path } => path@ + " 不是一部作品"@,
        StudioError::ComfyUnavailable { .. } => "没有可用的 ComfyUI 节点"@,
        StudioError::ComfyFailed { node, detail } => "ComfyUI 节点 "@ + node@ + " 执行失败："@
            + detail@,
        StudioError::ModelContractViolation { detail } => "模型契约不满足："@ + detail@,
        StudioError::ArtifactMissing { path } => "产物缺失："@ + path@,
        StudioError::ToolUnavailable { tool, .. } => "找不到外部程序："@ + tool@,
        StudioError::RetryLimitExceeded { stage, limit } => "阶段 "@ + stage.name()
            + " 超过重试上限 "@ + dec_nat(limit as nat),
        StudioError::RetryStageMismatch { requested, current } => match current {
            Some(c) => "请求重试 "@ + requested.name() + "，但当前阶段是 "@ + c.name(),
            None => "请求重试 "@ + requested.name() + "，但作品已经全部完成"@,
        },
        StudioError::Internal { detail } => "内部错误："@ + detail@,
    }
}

impl StudioError {
    /// The stable machine-readable code. The error table of the docs is made from it.
    pub fn code(&self) -> (r: &'static str)
        ensures
            r@ == code_of(*self),
    {
        match self {
            StudioError::SchemaViolation { .. } => "schema_violation",
            StudioError::QualityViolation { .. } => "quality_violation",
            StudioError::InvalidTransition { .. } => "invalid_transition",
            StudioError::ConfirmationRequired { .. } => "confirmation_required",
            StudioError::GatePending { .. } => "gate_pending",
            StudioError::UnknownAnswer { .. } => "unknown_answer",
            StudioError::StageNotReady { .. } => "stage_not_ready",
            StudioError::StateDrift { .. } => "state_drift",
            StudioError::ProjectBusy { .. } => "project_busy",
            StudioError::NotAProject { .. } => "not_a_project",
            StudioError::ComfyUnavailable { .. } => "comfy_unavailable",
            StudioError::ComfyFailed { .. } => "comfy_failed",
            StudioError::ModelContractViolation { .. } => "model_contract_violation",
            StudioError::ArtifactMissing { .. } => "artifact_missing",
            StudioError::ToolUnavailable { .. } => "tool_unavailable",
            StudioError::RetryLimitExceeded { .. } => "retry_limit_exceeded",
            StudioError::RetryStageMismatch { .. } => "retry_stage_mismatch",
            StudioError::Internal { .. } => "internal",
        }
    }

    /// What can be done next. Every variant is matched; there is no catch-all.
    pub fn remedy(&self) -> (r: String)
        ensures
            r@ == remedy_of(*self),
    {
        match self {
            StudioError::SchemaViolation { stage, .. } => {
                let mut s = String::from_str("调 studio.schema(\"");
                s.append(stage.as_str());
                s.append("\") 取回该阶段的输出契约，按上面列出的路径修正后重新 studio.submit_stage。");
                s
            },
            StudioError::QualityViolation { stage, .. } => {
                let mut s = String::from_str("阶段 ");
                s.append(stage.as_str());
                s.append(
                    " 没过质量闸。按上面每一条的说明改写对应字段——写法见 .agents/doctrine/quality/banned.md 与自检清单——然后重新 studio.submit_stage。",
                );
                s
            },
            StudioError::InvalidTransition { allowed, .. } => {
                if allowed.len() == 0 {
                    String::from_str("调 studio.status() 看当前该谁行动。")
                } else {
                    let mut s = String::from_str("当前状态只允许：");
                    let list = join_strs(allowed, "、");
                    s.append(list.as_str());
                    s.append("。先调 studio.status() 确认，再选其中一个。");
                    s
                }
            },
            StudioError::ConfirmationRequired { stage, gate } => {
                let mut s = String::from_str("阶段 ");
                s.append(stage.as_str());
                s.append(" 有确认门 ");
                s.append(gate);
                s.append(
                    "，提交时必须同时给出 confirmation：{prompt, selection_type, options[]}。补上后重新 studio.submit_stage。",
                );
                s
            },
            StudioError::GatePending { question_id, .. } => {
                let mut s = String::from_str("确认门 ");
                s.append(question_id.as_str());
                s.append(" 还挂着。要用户确认就调 studio.answer(\"");
                s.append(question_id.as_str());
                s.append(
                    "\", <选项 id>)；要改内容就调 studio.revise(stage, message)——revise 会释放门并回到可提交状态。",
                );
                s
            },
            StudioError::UnknownAnswer { question_id, options, .. } => {
                let mut s = String::from_str("选项必须是 ");
                let list = join(options, " / ");
                s.append(list.as_str());
                s.append(" 之一。重新调 studio.answer(\"");
                s.append(question_id.as_str());
                s.append("\", <其中一个>)。");
                s
            },
            StudioError::StageNotReady { blocked_on, .. } => {
                let mut s = String::from_str("前置阶段 ");
                s.append(blocked_on.as_str());
                s.append(" 还没通过。调 studio.status() 拿到 next_action，按它指的阶段先做。");
                s
            },
            StudioError::StateDrift { detail } => {
                let mut s = String::from_str(".studio/ 的状态被外部改动过（");
                s.append(detail.as_str());
                s.append(
                    "）。这个目录是服务端私有的，不要直接读写。用 studio.timeline() 核对事件历史；确实需要回退就调 studio.undo(stage)。",
                );
                s
            },
            StudioError::ProjectBusy { pid, .. } => {
                let mut s = String::from_str("本作品已被");
                match pid {
                    Some(p) => {
                        s.append("进程 ");
                        push_u64(&mut s, *p as u64);
                    },
                    None => s.append("另一个进程"),
                }
                s.append(
                    "打开。一个 bundle 同时只能有一个会话：关掉那个会话后重试，或用 `studiod init <另一个路径>` 新开一部作品。",
                );
                s
            },
            StudioError::NotAProject { path } => {
                let mut s = path.clone();
                s.append(" 不是一部作品。用 `studiod init <路径>` 新建一部，然后在那个目录里打开 Codex。");
                s
            },
            StudioError::ComfyUnavailable { tried } => {
                let mut s = String::from_str("没有健康的 ComfyUI 节点（试过 ");
                if tried.len() == 0 {
                    s.append("无");
                } else {
                    let list = join(tried, "、");
                    s.append(list.as_str());
                }
                s.append(
                    "）。在 .env 里配好 COMFY_NODES 后，调 studio.status() 确认当前卡在 preview 还是 render，再对它调 studio.retry_stage(<该阶段>) 让控制面重新尝试——它会先停掉可能还在跑的 worker，也会当场重新读取 `.env`，不需要重启 MCP 进程，也不需要在这部作品 之外手动跑 `studiod` 子命令；节点恢复前不要降级换模型。",
                );
                s
            },
            StudioError::ComfyFailed { node, detail } => {
                let mut s = String::from_str("节点 ");
                s.append(node.as_str());
                s.append(" 执行失败（");
                s.append(detail.as_str());
                s.append(
                    "）。用 studio.timeline() 看这一镜的历史；内容本身没问题、只是这次执行失败了（节点抖动、超时）就调 studio.status() 确认当前卡在 preview 还是 render，再对它调 studio.retry_stage(<该阶段>)——它会先停掉可能还在跑的 worker 再干净重试。怀疑是这个节点本身有问题，可以先调 studio.comfy.exclude_node 把它排除掉。只有内容/提示词本身要改才用 studio.revise。",
                );
                s
            },
            StudioError::ModelContractViolation { detail } => {
                let mut s = String::from_str("固定模型契约不满足（");
                s.append(detail.as_str());
                s.append(
                    "）。这是硬停止，不允许静默替换成 pruned/量化变体。跑 `studiod doctor` 看清缺哪个文件、该放到哪个节点上；补齐后调 studio.revise(\"render\", <说明>) 重做。用户明确批准降级前不要换系列。",
                );
                s
            },
            StudioError::ArtifactMissing { path } => {
                let mut s = String::from_str("登记过的产物 ");
                s.append(path.as_str());
                s.append(" 不在磁盘上。调 studio.revise(stage, <原因>) 重做产出该文件的阶段。");
                s
            },
            StudioError::ToolUnavailable { tool, looked_in } => {
                let mut s = String::from_str("找不到 ");
                s.append(tool.as_str());
                s.append("（找过：");
                if looked_in.len() == 0 {
                    s.append("PATH");
                } else {
                    let list = join(looked_in, "、");
                    s.append(list.as_str());
                }
                s.append("）。在 bundle 或程序目录的 .env 里配 ");
                let upper = to_uppercase(tool.as_str());
                s.append(upper.as_str());
                s.append("_PATH 指向可执行文件，或把它放进 PATH；配好后跑 `studiod doctor` 验证。");
                s
            },
            StudioError::RetryLimitExceeded { stage, limit } => {
                let mut s = String::from_str("阶段 ");
                s.append(stage.as_str());
                s.append(" 已重试 ");
                push_u64(&mut s, *limit as u64);
                s.append(" 次。先用 studio.timeline() 看清失败原因，改掉输入后再 studio.revise(\"");
                s.append(stage.as_str());
                s.append("\", <说明>)；不要继续盲目重试。");
                s
            },
            StudioError::RetryStageMismatch { current, .. } => match current {
                Some(c) => {
                    let mut s = String::from_str(
                        "调 studio.status() 确认当前卡在哪个阶段，再对准确的阶段调 studio.retry_stage(\"",
                    );
                    s.append(c.as_str());
                    s.append(
                        "\")——传的阶段必须是当前正卡着的那个，不能是别的阶段，否则实际重跑的是当前阶段，跟传的名字对不上。",
                    );
                    s
                },
                None => String::from_str(
                    "作品所有阶段都已通过，没有正在等待或失败的确定性阶段可以重试。调 studio.status() 确认。",
                ),
            },
            StudioError::Internal { detail } => {
                let mut s = String::from_str("内部错误（");
                s.append(detail.as_str());
                s.append(
                    "）。调 studio.status() 确认状态是否完好；若状态可用则重试该操作，否则把 .studio/logs/studiod.log 提给维护者。",
                );
                s
            },
        }
    }

    /// A one-sentence description for people.
    pub fn message(&self) -> (r: String)
        ensures
            r@ == message_of(*self),
    {
        match self {
            StudioError::SchemaViolation { stage, violations } => {
                let mut s = String::from_str("阶段 ");
                s.append(stage.as_str());
                s.append(" 的产物不符合契约：");
                let list = join_violations(violations);
                s.append(list.as_str());
                s
            },
            StudioError::QualityViolation { stage, findings } => {
                let mut s = String::from_str("阶段 ");
                s.append(stage.as_str());
                s.append(" 的产物没过质量闸：");
                let list = join_violations(findings);
                s.append(list.as_str());
                s
            },
            StudioError::InvalidTransition { stage, current, attempted, .. } => {
                let mut s = String::from_str("阶段 ");
                s.append(stage.as_str());
                s.append(" 当前处于 ");
                s.append(current);
                s.append("，不能执行 ");
                s.append(attempted);
                s
            },
            StudioError::ConfirmationRequired { stage, gate } => {
                let mut s = String::from_str("阶段 ");
                s.append(stage.as_str());
                s.append(" 的确认门 ");
                s.append(gate);
                s.append(" 需要确认问题");
                s
            },
            StudioError::GatePending { stage, question_id } => {
                let mut s = String::from_str("阶段 ");
                s.append(stage.as_str());
                s.append(" 正在等待确认（");
                s.append(question_id.as_str());
                s.append("）");
                s
            },
            StudioError::UnknownAnswer { given, .. } => {
                let mut s = String::from_str("无效的选项：");
                s.append(given.as_str());
                s
            },
            StudioError::StageNotReady { stage, blocked_on } => {
                let mut s = String::from_str("阶段 ");
                s.append(stage.as_str());
                s.append(" 依赖尚未通过的 ");
                s.append(blocked_on.as_str());
                s
            },
            StudioError::StateDrift { detail } => {
                let mut s = String::from_str("状态完整性校验失败：");
                s.append(detail.as_str());
                s
            },
            StudioError::ProjectBusy { pid, since } => match (pid, since) {
                (Some(p), Some(t)) => {
                    let mut s = String::from_str("作品已被进程 ");
                    push_u64(&mut s, *p as u64);
                    s.append(" 打开（自 ");
                    s.append(t.as_str());
                    s.append("）");
                    s
                },
                (Some(p), None) => {
                    let mut s = String::from_str("作品已被进程 ");
                    push_u64(&mut s, *p as u64);
                    s.append(" 打开");
                    s
                },
                _ => String::from_str("作品已被另一个进程打开"),
            },
            StudioError::NotAProject { path } => {
                let mut s = path.clone();
                s.append(" 不是一部作品");
                s
            },
            StudioError::ComfyUnavailable { .. } => String::from_str("没有可用的 ComfyUI 节点"),
            StudioError::ComfyFailed { node, detail } => {
                let mut s = String::from_str("ComfyUI 节点 ");
                s.append(node.as_str());
                s.append(" 执行失败：");
                s.append(detail.as_str());
                s
            },
            StudioError::ModelContractViolation { detail } => {
                let mut s = String::from_str("模型契约不满足：");
                s.append(detail.as_str());
                s
            },
            StudioError::ArtifactMissing { path } => {
                let mut s = String::from_str("产物缺失：");
                s.append(path.as_str());
                s
            },
            StudioError::ToolUnavailable { tool, .. } => {
                let mut s = String::from_str("找不到外部程序：");
                s.append(tool.as_str());
                s
            },
            StudioError::RetryLimitExceeded { stage, limit } => {
                let mut s = String::from_str("阶段 ");
                s.append(stage.as_str());
                s.append(" 超过重试上限 ");
                push_u64(&mut s, *limit as u64);
                s
            },
            StudioError::RetryStageMismatch { requested, current } => match current {
                Some(c) => {
                    let mut s = String::from_str("请求重试 ");
                    s.append(requested.as_str());
                    s.append("，但当前阶段是 ");
                    s.append(c.as_str());
                    s
                },
                None => {
                    let mut s = String::from_str("请求重试 ");
                    s.append(requested.as_str());
                    s.append("，但作品已经全部完成");
                    s
                },
            },
            StudioError::Internal { detail } => {
                let mut s = String::from_str("内部错误：");
                s.append(detail.as_str());
                s
            },
        }
    }

    /// `[code] message`, the way the error is displayed.
    pub fn to_string(&self) -> (r: String)
        ensures
            r@ == "["@ + code_of(*self) + "] "@ + message_of(*self),
    {
        let mut s = String::from_str("[");
        s.append(self.code());
        s.append("] ");
        let m = self.message();
        s.append(m.as_str());
        s
    }

    pub fn internal(detail: String) -> (r: StudioError)
        ensures
            r == (StudioError::Internal { detail }),
    {
        StudioError::Internal { detail }
    }
}

/// The error codes and what each means, in the order the documentation lists them.
pub open spec fn error_code_rows() -> Seq<(Seq<char>, Seq<char>)> {
    seq![
        ("schema_violation"@, "产物不符合阶段 schema，附字段路径"@),
        ("quality_violation"@, "产物形状合规但内容没过质量闸，附规则与字段路径"@),
        ("invalid_transition"@, "状态机不允许，附当前状态与合法动作"@),
        ("confirmation_required"@, "有门的阶段提交时没带确认问题"@),
        ("gate_pending"@, "确认门还挂着，不能推进"@),
        ("unknown_answer"@, "应答的选项不在候选里"@),
        ("stage_not_ready"@, "前置阶段还没通过"@),
        ("state_drift"@, ".studio/ 被外部改动，完整性校验失败"@),
        ("project_busy"@, "另一进程持有本 bundle，附 PID"@),
        ("not_a_project"@, "当前目录不是一部作品"@),
        ("comfy_unavailable"@, "无健康 ComfyUI 节点，结构化阻塞不降级"@),
        ("comfy_failed"@, "ComfyUI 侧执行失败"@),
        ("model_contract_violation"@, "固定模型缺失或校验失败，停止不静默替换"@),
        ("artifact_missing"@, "登记的产物在磁盘上不存在"@),
        ("tool_unavailable"@, "找不到 ffmpeg / ffprobe 等外部程序"@),
        ("retry_limit_exceeded"@, "阶段重试到顶"@),
        ("retry_stage_mismatch"@, "请求重试的阶段不是当前真正卡住的那个确定性阶段"@),
        ("internal"@, "I/O、序列化等内部错误"@),
    ]
}

/// Every error code with its meaning. The error table of the docs is made from it.
pub fn error_codes() -> (r: [(&'static str, &'static str); 18])
    ensures
        forall|i: int| 0 <= i < 18 ==> ((#[trigger] r[i]).0@, r[i].1@) == error_code_rows()[i],
        forall|e: StudioError| exists|i: int| 0 <= i < 18 && (#[trigger] r[i]).0@ == #[trigger] code_of(e),
{
    let r = [
        ("schema_violation", "产物不符合阶段 schema，附字段路径"),
        ("quality_violation", "产物形状合规但内容没过质量闸，附规则与字段路径"),
        ("invalid_transition", "状态机不允许，附当前状态与合法动作"),
        ("confirmation_required", "有门的阶段提交时没带确认问题"),
        ("gate_pending", "确认门还挂着，不能推进"),
        ("unknown_answer", "应答的选项不在候选里"),
        ("stage_not_ready", "前置阶段还没通过"),
        ("state_drift", ".studio/ 被外部改动，完整性校验失败"),
        ("project_busy", "另一进程持有本 bundle，附 PID"),
        ("not_a_project", "当前目录不是一部作品"),
        ("comfy_unavailable", "无健康 ComfyUI 节点，结构化阻塞不降级"),
        ("comfy_failed", "ComfyUI 侧执行失败"),
        ("model_contract_violation", "固定模型缺失或校验失败，停止不静默替换"),
        ("artifact_missing", "登记的产物在磁盘上不存在"),
        ("tool_unavailable", "找不到 ffmpeg / ffprobe 等外部程序"),
        ("retry_limit_exceeded", "阶段重试到顶"),
        ("retry_stage_mismatch", "请求重试的阶段不是当前真正卡住的那个确定性阶段"),
        ("internal", "I/O、序列化等内部错误"),
    ];
    assert forall|e: StudioError| exists|i: int| 0 <= i < 18 && (#[trigger] r[i]).0@ == #[trigger] code_of(e) by {
        match e {
            StudioError::SchemaViolation { .. } => assert(r[0].0@ == code_of(e)),
            StudioError::QualityViolation { .. } => assert(r[1].0@ == code_of(e)),
            StudioError::InvalidTransition { .. } => assert(r[2].0@ == code_of(e)),
            StudioError::ConfirmationRequired { .. } => assert(r[3].0@ == code_of(e)),
            StudioError::GatePending { .. } => assert(r[4].0@ == code_of(e)),
            StudioError::UnknownAnswer { .. } => assert(r[5].0@ == code_of(e)),
            StudioError::StageNotReady { .. } => assert(r[6].0@ == code_of(e)),
            StudioError::StateDrift { .. } => assert(r[7].0@ == code_of(e)),
            StudioError::ProjectBusy { .. } => assert(r[8].0@ == code_of(e)),
            StudioError::NotAProject { .. } => assert(r[9].0@ == code_of(e)),
            StudioError::ComfyUnavailable { .. } => assert(r[10].0@ == code_of(e)),
            StudioError::ComfyFailed { .. } => assert(r[11].0@ == code_of(e)),
            StudioError::ModelContractViolation { .. } => assert(r[12].0@ == code_of(e)),
            StudioError::ArtifactMissing { .. } => assert(r[13].0@ == code_of(e)),
            StudioError::ToolUnavailable { .. } => assert(r[14].0@ == code_of(e)),
            StudioError::RetryLimitExceeded { .. } => assert(r[15].0@ == code_of(e)),
            StudioError::RetryStageMismatch { .. } => assert(r[16].0@ == code_of(e)),
            StudioError::Internal { .. } => assert(r[17].0@ == code_of(e)),
        }
    }
    r
}

/// The position of a variant's code in the documented error table.
pub open spec fn code_index(e: StudioError) -> int {
    match e {
        StudioError::SchemaViolation { .. } => 0,
        StudioError::QualityViolation { .. } => 1,
        StudioError::InvalidTransition { .. } => 2,
        StudioError::ConfirmationRequired { .. } => 3,
        StudioError::GatePending { .. } => 4,
        StudioError::UnknownAnswer { .. } => 5,
        StudioError::StageNotReady { .. } => 6,
        StudioError::StateDrift { .. } => 7,
        StudioError::ProjectBusy { .. } => 8,
        StudioError::NotAProject { .. } => 9,
        StudioError::ComfyUnavailable { .. } => 10,
        StudioError::ComfyFailed { .. } => 11,
        StudioError::ModelContractViolation { .. } => 12,
        StudioError::ArtifactMissing { .. } => 13,
        StudioError::ToolUnavailable { .. } => 14,
        StudioError::RetryLimitExceeded { .. } => 15,
        StudioError::RetryStageMismatch { .. } => 16,
        StudioError::Internal { .. } => 17,
    }
}

/// Every code stands in the documented table, at its variant's row, and
/// two errors have the same code exactly when they are the same variant.
pub proof fn lemma_codes_are_unique_and_documented(e1: StudioError, e2: StudioError)
    ensures
        0 <= code_index(e1) < 18,
        error_code_rows()[code_index(e1)].0 == code_of(e1),
        error_code_rows()[code_index(e1)].1.len() > 0,
        code_of(e1) == code_of(e2) <==> code_index(e1) == code_index(e2),
{
    reveal_strlit("schema_violation");
    reveal_strlit("quality_violation");
    reveal_strlit("invalid_transition");
    reveal_strlit("confirmation_required");
    reveal_strlit("gate_pending");
    reveal_strlit("unknown_answer");
    reveal_strlit("stage_not_ready");
    reveal_strlit("state_drift");
    reveal_strlit("project_busy");
    reveal_strlit("not_a_project");
    reveal_strlit("comfy_unavailable");
    reveal_strlit("comfy_failed");
    reveal_strlit("model_contract_violation");
    reveal_strlit("artifact_missing");
    reveal_strlit("tool_unavailable");
    reveal_strlit("retry_limit_exceeded");
    reveal_strlit("retry_stage_mismatch");
    reveal_strlit("internal");
    reveal_strlit("产物不符合阶段 schema，附字段路径");
    reveal_strlit("产物形状合规但内容没过质量闸，附规则与字段路径");
    reveal_strlit("状态机不允许，附当前状态与合法动作");
    reveal_strlit("有门的阶段提交时没带确认问题");
    reveal_strlit("确认门还挂着，不能推进");
    reveal_strlit("应答的选项不在候选里");
    reveal_strlit("前置阶段还没通过");
    reveal_strlit(".studio/ 被外部改动，完整性校验失败");
    reveal_strlit("另一进程持有本 bundle，附 PID");
    reveal_strlit("当前目录不是一部作品");
    reveal_strlit("无健康 ComfyUI 节点，结构化阻塞不降级");
    reveal_strlit("ComfyUI 侧执行失败");
    reveal_strlit("固定模型缺失或校验失败，停止不静默替换");
    reveal_strlit("登记的产物在磁盘上不存在");
    reveal_strlit("找不到 ffmpeg / ffprobe 等外部程序");
    reveal_strlit("阶段重试到顶");
    reveal_strlit("请求重试的阶段不是当前真正卡住的那个确定性阶段");
    reveal_strlit("I/O、序列化等内部错误");
    if code_index(e1) != code_index(e2) {
        let (a, b) = (code_of(e1), code_of(e2));
        if a == b {
            assert(a.len() == b.len());
            assert(a[0] == b[0]);
            assert(a[6] == b[6]);
        }
    }
}

/// Every message says something.
pub proof fn lemma_every_message_is_nonempty(e: StudioError)
    ensures
        message_of(e).len() > 0,
{
    reveal_strlit(" 不是一部作品");
    reveal_strlit(" 依赖尚未通过的 ");
    reveal_strlit(" 当前处于 ");
    reveal_strlit(" 打开");
    reveal_strlit(" 打开（自 ");
    reveal_strlit(" 执行失败：");
    reveal_strlit(" 正在等待确认（");
    reveal_strlit(" 的产物不符合契约：");
    reveal_strlit(" 的产物没过质量闸：");
    reveal_strlit(" 的确认门 ");
    reveal_strlit(" 超过重试上限 ");
    reveal_strlit(" 需要确认问题");
    reveal_strlit("; ");
    reveal_strlit("ComfyUI 节点 ");
    reveal_strlit("产物缺失：");
    reveal_strlit("作品已被另一个进程打开");
    reveal_strlit("作品已被进程 ");
    reveal_strlit("内部错误：");
    reveal_strlit("找不到外部程序：");
    reveal_strlit("无效的选项：");
    reveal_strlit("模型契约不满足：");
    reveal_strlit("没有可用的 ComfyUI 节点");
    reveal_strlit("状态完整性校验失败：");
    reveal_strlit("请求重试 ");
    reveal_strlit("阶段 ");
    reveal_strlit("）");
    reveal_strlit("，不能执行 ");
    reveal_strlit("，但作品已经全部完成");
    reveal_strlit("，但当前阶段是 ");
}

/// A substring of the left part is a substring of the whole.
pub broadcast proof fn lemma_contains_left(x: Seq<char>, y: Seq<char>, n: Seq<char>)
    requires
        seq_contains(x, n),
    ensures
        #[trigger] seq_contains(x + y, n),
{
    let i = choose|i: int| occurs_at(x, n, i);
    assert((x + y).subrange(i, i + n.len()) =~= x.subrange(i, i + n.len()));
    assert(occurs_at(x + y, n, i));
}

/// A substring of the right part is a substring of the whole.
pub broadcast proof fn lemma_contains_right(x: Seq<char>, y: Seq<char>, n: Seq<char>)
    requires
        seq_contains(y, n),
    ensures
        #[trigger] seq_contains(x + y, n),
{
    let i = choose|i: int| occurs_at(y, n, i);
    assert((x + y).subrange(x.len() + i, x.len() + i + n.len()) =~= y.subrange(i, i + n.len()));
    assert(occurs_at(x + y, n, x.len() + i));
}

/// Each piece of a join is a substring of the joined text.
pub proof fn lemma_join_contains(parts: Seq<Seq<char>>, sep: Seq<char>, k: int)
    requires
        0 <= k < parts.len(),
    ensures
        seq_contains(join_seq(parts, sep), parts[k]),
    decreases parts.len(),
{
    broadcast use lemma_contains_left, lemma_contains_right;

    assert(occurs_at(parts[k], parts[k], 0)) by {
        assert(parts[k].subrange(0, parts[k].len() as int) =~= parts[k]);
    }
    if parts.len() > 1 {
        if k < parts.len() - 1 {
            lemma_join_contains(parts.drop_last(), sep, k);
            assert(parts.drop_last()[k] == parts[k]);
        }
    }
}

/// A schema violation's message names the stage and lists every violation
/// as `path: message`.
pub proof fn lemma_schema_message_lists_every_violation(stage: StageId, violations: Vec<Violation>, k: int)
    requires
        0 <= k < violations@.len(),
    ensures
        seq_contains(message_of(StudioError::SchemaViolation { stage, violations }), stage.name()),
        seq_contains(
            message_of(StudioError::SchemaViolation { stage, violations }),
            violations@[k].path@ + ": "@ + violations@[k].message@,
        ),
{
    broadcast use lemma_contains_left, lemma_contains_right;

    let texts = violation_texts(violations@);
    lemma_join_contains(texts, "; "@, k);
    assert(texts[k] == violations@[k].text());
    assert(occurs_at(stage.name(), stage.name(), 0)) by {
        assert(stage.name().subrange(0, stage.name().len() as int) =~= stage.name());
    }
}

proof fn lemma_contains_self(s: Seq<char>)
    ensures
        seq_contains(s, s),
{
    assert(s.subrange(0, s.len() as int) =~= s);
    assert(occurs_at(s, s, 0));
}

/// An unknown answer's remedy names every candidate option, joined by
/// ` / `, and the question; a refused transition's remedy lists the allowed
/// actions, or sends to `studio.status()` when there are none.
pub proof fn lemma_remedies_name_the_choices(
    question_id: String,
    given: String,
    options: Vec<String>,
    stage: StageId,
    current: &'static str,
    attempted: &'static str,
    allowed: Vec<&'static str>,
)
    ensures
        seq_contains(
            remedy_of(StudioError::UnknownAnswer { question_id, given, options }),
            join_seq(views_of(options@), " / "@),
        ),
        seq_contains(remedy_of(StudioError::UnknownAnswer { question_id, given, options }), question_id@),
        allowed@.len() == 0 ==> remedy_of(StudioError::InvalidTransition { stage, current, attempted, allowed })
            == "调 studio.status() 看当前该谁行动。"@,
        allowed@.len() > 0 ==> seq_contains(
            remedy_of(StudioError::InvalidTransition { stage, current, attempted, allowed }),
            join_seq(str_views_of(allowed@), "、"@),
        ),
{
    broadcast use lemma_contains_left, lemma_contains_right;

    lemma_contains_self(join_seq(views_of(options@), " / "@));
    lemma_contains_self(question_id@);
    lemma_contains_self(join_seq(str_views_of(allowed@), "、"@));
}

/// A text none of whose characters is the needle's first holds no occurrence of it.
proof fn lemma_no_first_char(hay: Seq<char>, needle: Seq<char>)
    requires
        needle.len() > 0,
        forall|k: int| 0 <= k < hay.len() ==> hay[k] != needle[0],
    ensures
        !seq_contains(hay, needle),
{
    if seq_contains(hay, needle) {
        let i = choose|i: int| occurs_at(hay, needle, i);
        assert(hay.subrange(i, i + needle.len())[0] == hay[i]);
    }
}

/// Joining two texts makes no new occurrence when the character on one side
/// of the seam is not in the needle.
proof fn lemma_no_occurrence_across(x: Seq<char>, y: Seq<char>, needle: Seq<char>)
    requires
        needle.len() > 0,
        !seq_contains(x, needle),
        !seq_contains(y, needle),
        (x.len() > 0 && !needle.contains(x.last())) || (y.len() > 0 && !needle.contains(y[0])),
    ensures
        !seq_contains(x + y, needle),
{
    if seq_contains(x + y, needle) {
        let p = choose|p: int| occurs_at(x + y, needle, p);
        let n = needle.len() as int;
        let w = (x + y).subrange(p, p + n);
        if p + n <= x.len() {
            assert(x.subrange(p, p + n) =~= w);
            assert(occurs_at(x, needle, p));
        } else if p >= x.len() {
            assert(y.subrange(p - x.len(), p - x.len() + n) =~= w);
            assert(occurs_at(y, needle, p - x.len()));
        } else {
            if x.len() > 0 && !needle.contains(x.last()) {
                assert(needle[x.len() - 1 - p] == w[x.len() - 1 - p]);
                assert(w[x.len() - 1 - p] == x.last());
            } else {
                assert(needle[x.len() - p] == w[x.len() - p]);
                assert(w[x.len() - p] == y[0]);
            }
        }
    }
}

/// A failed run's remedy does not send to the node configuration (unless
/// the node or the failure's own text names it).
pub proof fn lemma_failed_run_is_no_config_problem(node: String, detail: String)
    requires
        !seq_contains(node@, "COMFY_NODE"@),
        !seq_contains(detail@, "COMFY_NODE"@),
    ensures
        !seq_contains(remedy_of(StudioError::ComfyFailed { node, detail }), "COMFY_NODE"@),
{
    let nd = "COMFY_NODE"@;
    reveal_strlit("COMFY_NODE");
    reveal_strlit("节点 ");
    reveal_strlit(" 执行失败（");
    reveal_strlit("）。用 studio.timeline() 看这一镜的历史；内容本身没问题、只是这次执行失败了（节点抖动、超时）就调 studio.status() 确认当前卡在 preview 还是 render，再对它调 studio.retry_stage(<该阶段>)——它会先停掉可能还在跑的 worker 再干净重试。怀疑是这个节点本身有问题，可以先调 studio.comfy.exclude_node 把它排除掉。只有内容/提示词本身要改才用 studio.revise。");
    let a = "节点 "@;
    let b = " 执行失败（"@;
    let l = "）。用 studio.timeline() 看这一镜的历史；内容本身没问题、只是这次执行失败了（节点抖动、超时）就调 studio.status() 确认当前卡在 preview 还是 render，再对它调 studio.retry_stage(<该阶段>)——它会先停掉可能还在跑的 worker 再干净重试。怀疑是这个节点本身有问题，可以先调 studio.comfy.exclude_node 把它排除掉。只有内容/提示词本身要改才用 studio.revise。"@;
    assert(!nd.contains(' ')) by {
        if nd.contains(' ') {
            let k = choose|k: int| 0 <= k < nd.len() && nd[k] == ' ';
        }
    }
    assert(!nd.contains('（')) by {
        if nd.contains('（') {
            let k = choose|k: int| 0 <= k < nd.len() && nd[k] == '（';
        }
    }
    assert(!nd.contains('）')) by {
        if nd.contains('）') {
            let k = choose|k: int| 0 <= k < nd.len() && nd[k] == '）';
        }
    }
    lemma_no_first_char(a, nd);
    lemma_no_first_char(b, nd);
    lemma_no_first_char(l, nd);
    lemma_no_occurrence_across(a, node@, nd);
    lemma_no_occurrence_across(a + node@, b, nd);
    lemma_no_occurrence_across(a + node@ + b, detail@, nd);
    lemma_no_occurrence_across(a + node@ + b + detail@, l, nd);
}

/// Every remedy points at something that can be called: a `studio.` tool,
/// a `studiod ` command, or the `.env` file.
pub proof fn lemma_every_remedy_is_actionable(e: StudioError)
    ensures
        seq_contains(remedy_of(e), "studio."@) || seq_contains(remedy_of(e), "studiod "@)
            || seq_contains(remedy_of(e), ".env"@),
        remedy_of(e).len() > 10,
{
    broadcast use lemma_contains_left, lemma_contains_right;

    reveal_strlit("studio.");
    reveal_strlit("studiod ");
    reveal_strlit(".env");
    match e {
        StudioError::SchemaViolation { .. } => {
            reveal_strlit("调 studio.schema(\"");
            assert("调 studio.schema(\""@.subrange(2, 9) =~= "studio."@);
            assert(occurs_at("调 studio.schema(\""@, "studio."@, 2));
            reveal_strlit("\") 取回该阶段的输出契约，按上面列出的路径修正后重新 studio.submit_stage。");
            assert("\") 取回该阶段的输出契约，按上面列出的路径修正后重新 studio.submit_stage。"@.subrange(28, 35) =~= "studio."@);
            assert(occurs_at("\") 取回该阶段的输出契约，按上面列出的路径修正后重新 studio.submit_stage。"@, "studio."@, 28));
        },
        StudioError::QualityViolation { .. } => {
            reveal_strlit(" 没过质量闸。按上面每一条的说明改写对应字段——写法见 .agents/doctrine/quality/banned.md 与自检清单——然后重新 studio.submit_stage。");
            assert(" 没过质量闸。按上面每一条的说明改写对应字段——写法见 .agents/doctrine/quality/banned.md 与自检清单——然后重新 studio.submit_stage。"@.subrange(75, 82) =~= "studio."@);
            assert(occurs_at(" 没过质量闸。按上面每一条的说明改写对应字段——写法见 .agents/doctrine/quality/banned.md 与自检清单——然后重新 studio.submit_stage。"@, "studio."@, 75));
        },
        StudioError::InvalidTransition { .. } => {
            reveal_strlit("调 studio.status() 看当前该谁行动。");
            assert("调 studio.status() 看当前该谁行动。"@.subrange(2, 9) =~= "studio."@);
            assert(occurs_at("调 studio.status() 看当前该谁行动。"@, "studio."@, 2));
            reveal_strlit("。先调 studio.status() 确认，再选其中一个。");
            assert("。先调 studio.status() 确认，再选其中一个。"@.subrange(4, 11) =~= "studio."@);
            assert(occurs_at("。先调 studio.status() 确认，再选其中一个。"@, "studio."@, 4));
        },
        StudioError::ConfirmationRequired { .. } => {
            reveal_strlit("，提交时必须同时给出 confirmation：{prompt, selection_type, options[]}。补上后重新 studio.submit_stage。");
            assert("，提交时必须同时给出 confirmation：{prompt, selection_type, options[]}。补上后重新 studio.submit_stage。"@.subrange(66, 73) =~= "studio."@);
            assert(occurs_at("，提交时必须同时给出 confirmation：{prompt, selection_type, options[]}。补上后重新 studio.submit_stage。"@, "studio."@, 66));
        },
        StudioError::GatePending { .. } => {
            reveal_strlit(" 还挂着。要用户确认就调 studio.answer(\"");
            assert(" 还挂着。要用户确认就调 studio.answer(\""@.subrange(13, 20) =~= "studio."@);
            assert(occurs_at(" 还挂着。要用户确认就调 studio.answer(\""@, "studio."@, 13));
            reveal_strlit("\", <选项 id>)；要改内容就调 studio.revise(stage, message)——revise 会释放门并回到可提交状态。");
            assert("\", <选项 id>)；要改内容就调 studio.revise(stage, message)——revise 会释放门并回到可提交状态。"@.subrange(19, 26) =~= "studio."@);
            assert(occurs_at("\", <选项 id>)；要改内容就调 studio.revise(stage, message)——revise 会释放门并回到可提交状态。"@, "studio."@, 19));
        },
        StudioError::UnknownAnswer { .. } => {
            reveal_strlit(" 之一。重新调 studio.answer(\"");
            assert(" 之一。重新调 studio.answer(\""@.subrange(8, 15) =~= "studio."@);
            assert(occurs_at(" 之一。重新调 studio.answer(\""@, "studio."@, 8));
        },
        StudioError::StageNotReady { .. } => {
            reveal_strlit(" 还没通过。调 studio.status() 拿到 next_action，按它指的阶段先做。");
            assert(" 还没通过。调 studio.status() 拿到 next_action，按它指的阶段先做。"@.subrange(8, 15) =~= "studio."@);
            assert(occurs_at(" 还没通过。调 studio.status() 拿到 next_action，按它指的阶段先做。"@, "studio."@, 8));
        },
        StudioError::StateDrift { .. } => {
            reveal_strlit("）。这个目录是服务端私有的，不要直接读写。用 studio.timeline() 核对事件历史；确实需要回退就调 studio.undo(stage)。");
            assert("）。这个目录是服务端私有的，不要直接读写。用 studio.timeline() 核对事件历史；确实需要回退就调 studio.undo(stage)。"@.subrange(23, 30) =~= "studio."@);
            assert(occurs_at("）。这个目录是服务端私有的，不要直接读写。用 studio.timeline() 核对事件历史；确实需要回退就调 studio.undo(stage)。"@, "studio."@, 23));
        },
        StudioError::ProjectBusy { .. } => {
            reveal_strlit("打开。一个 bundle 同时只能有一个会话：关掉那个会话后重试，或用 `studiod init <另一个路径>` 新开一部作品。");
            assert("打开。一个 bundle 同时只能有一个会话：关掉那个会话后重试，或用 `studiod init <另一个路径>` 新开一部作品。"@.subrange(37, 45) =~= "studiod "@);
            assert(occurs_at("打开。一个 bundle 同时只能有一个会话：关掉那个会话后重试，或用 `studiod init <另一个路径>` 新开一部作品。"@, "studiod "@, 37));
        },
        StudioError::NotAProject { .. } => {
            reveal_strlit(" 不是一部作品。用 `studiod init <路径>` 新建一部，然后在那个目录里打开 Codex。");
            assert(" 不是一部作品。用 `studiod init <路径>` 新建一部，然后在那个目录里打开 Codex。"@.subrange(11, 19) =~= "studiod "@);
            assert(occurs_at(" 不是一部作品。用 `studiod init <路径>` 新建一部，然后在那个目录里打开 Codex。"@, "studiod "@, 11));
        },
        StudioError::ComfyUnavailable { .. } => {
            reveal_strlit("）。在 .env 里配好 COMFY_NODES 后，调 studio.status() 确认当前卡在 preview 还是 render，再对它调 studio.retry_stage(<该阶段>) 让控制面重新尝试——它会先停掉可能还在跑的 worker，也会当场重新读取 `.env`，不需要重启 MCP 进程，也不需要在这部作品 之外手动跑 `studiod` 子命令；节点恢复前不要降级换模型。");
            assert("）。在 .env 里配好 COMFY_NODES 后，调 studio.status() 确认当前卡在 preview 还是 render，再对它调 studio.retry_stage(<该阶段>) 让控制面重新尝试——它会先停掉可能还在跑的 worker，也会当场重新读取 `.env`，不需要重启 MCP 进程，也不需要在这部作品 之外手动跑 `studiod` 子命令；节点恢复前不要降级换模型。"@.subrange(29, 36) =~= "studio."@);
            assert(occurs_at("）。在 .env 里配好 COMFY_NODES 后，调 studio.status() 确认当前卡在 preview 还是 render，再对它调 studio.retry_stage(<该阶段>) 让控制面重新尝试——它会先停掉可能还在跑的 worker，也会当场重新读取 `.env`，不需要重启 MCP 进程，也不需要在这部作品 之外手动跑 `studiod` 子命令；节点恢复前不要降级换模型。"@, "studio."@, 29));
        },
        StudioError::ComfyFailed { .. } => {
            reveal_strlit("）。用 studio.timeline() 看这一镜的历史；内容本身没问题、只是这次执行失败了（节点抖动、超时）就调 studio.status() 确认当前卡在 preview 还是 render，再对它调 studio.retry_stage(<该阶段>)——它会先停掉可能还在跑的 worker 再干净重试。怀疑是这个节点本身有问题，可以先调 studio.comfy.exclude_node 把它排除掉。只有内容/提示词本身要改才用 studio.revise。");
            assert("）。用 studio.timeline() 看这一镜的历史；内容本身没问题、只是这次执行失败了（节点抖动、超时）就调 studio.status() 确认当前卡在 preview 还是 render，再对它调 studio.retry_stage(<该阶段>)——它会先停掉可能还在跑的 worker 再干净重试。怀疑是这个节点本身有问题，可以先调 studio.comfy.exclude_node 把它排除掉。只有内容/提示词本身要改才用 studio.revise。"@.subrange(4, 11) =~= "studio."@);
            assert(occurs_at("）。用 studio.timeline() 看这一镜的历史；内容本身没问题、只是这次执行失败了（节点抖动、超时）就调 studio.status() 确认当前卡在 preview 还是 render，再对它调 studio.retry_stage(<该阶段>)——它会先停掉可能还在跑的 worker 再干净重试。怀疑是这个节点本身有问题，可以先调 studio.comfy.exclude_node 把它排除掉。只有内容/提示词本身要改才用 studio.revise。"@, "studio."@, 4));
        },
        StudioError::ModelContractViolation { .. } => {
            reveal_strlit("）。这是硬停止，不允许静默替换成 pruned/量化变体。跑 `studiod doctor` 看清缺哪个文件、该放到哪个节点上；补齐后调 studio.revise(\"render\", <说明>) 重做。用户明确批准降级前不要换系列。");
            assert("）。这是硬停止，不允许静默替换成 pruned/量化变体。跑 `studiod doctor` 看清缺哪个文件、该放到哪个节点上；补齐后调 studio.revise(\"render\", <说明>) 重做。用户明确批准降级前不要换系列。"@.subrange(70, 77) =~= "studio."@);
            assert(occurs_at("）。这是硬停止，不允许静默替换成 pruned/量化变体。跑 `studiod doctor` 看清缺哪个文件、该放到哪个节点上；补齐后调 studio.revise(\"render\", <说明>) 重做。用户明确批准降级前不要换系列。"@, "studio."@, 70));
        },
        StudioError::ArtifactMissing { .. } => {
            reveal_strlit(" 不在磁盘上。调 studio.revise(stage, <原因>) 重做产出该文件的阶段。");
            assert(" 不在磁盘上。调 studio.revise(stage, <原因>) 重做产出该文件的阶段。"@.subrange(9, 16) =~= "studio."@);
            assert(occurs_at(" 不在磁盘上。调 studio.revise(stage, <原因>) 重做产出该文件的阶段。"@, "studio."@, 9));
        },
        StudioError::ToolUnavailable { .. } => {
            reveal_strlit("）。在 bundle 或程序目录的 .env 里配 ");
            assert("）。在 bundle 或程序目录的 .env 里配 "@.subrange(18, 22) =~= ".env"@);
            assert(occurs_at("）。在 bundle 或程序目录的 .env 里配 "@, ".env"@, 18));
            reveal_strlit("_PATH 指向可执行文件，或把它放进 PATH；配好后跑 `studiod doctor` 验证。");
            assert("_PATH 指向可执行文件，或把它放进 PATH；配好后跑 `studiod doctor` 验证。"@.subrange(31, 39) =~= "studiod "@);
            assert(occurs_at("_PATH 指向可执行文件，或把它放进 PATH；配好后跑 `studiod doctor` 验证。"@, "studiod "@, 31));
        },
        StudioError::RetryLimitExceeded { .. } => {
            reveal_strlit(" 次。先用 studio.timeline() 看清失败原因，改掉输入后再 studio.revise(\"");
            assert(" 次。先用 studio.timeline() 看清失败原因，改掉输入后再 studio.revise(\""@.subrange(6, 13) =~= "studio."@);
            assert(occurs_at(" 次。先用 studio.timeline() 看清失败原因，改掉输入后再 studio.revise(\""@, "studio."@, 6));
        },
        StudioError::RetryStageMismatch { .. } => {
            reveal_strlit("调 studio.status() 确认当前卡在哪个阶段，再对准确的阶段调 studio.retry_stage(\"");
            assert("调 studio.status() 确认当前卡在哪个阶段，再对准确的阶段调 studio.retry_stage(\""@.subrange(2, 9) =~= "studio."@);
            assert(occurs_at("调 studio.status() 确认当前卡在哪个阶段，再对准确的阶段调 studio.retry_stage(\""@, "studio."@, 2));
            reveal_strlit("作品所有阶段都已通过，没有正在等待或失败的确定性阶段可以重试。调 studio.status() 确认。");
            assert("作品所有阶段都已通过，没有正在等待或失败的确定性阶段可以重试。调 studio.status() 确认。"@.subrange(33, 40) =~= "studio."@);
            assert(occurs_at("作品所有阶段都已通过，没有正在等待或失败的确定性阶段可以重试。调 studio.status() 确认。"@, "studio."@, 33));
        },
        StudioError::Internal { .. } => {
            reveal_strlit("）。调 studio.status() 确认状态是否完好；若状态可用则重试该操作，否则把 .studio/logs/studiod.log 提给维护者。");
            assert("）。调 studio.status() 确认状态是否完好；若状态可用则重试该操作，否则把 .studio/logs/studiod.log 提给维护者。"@.subrange(4, 11) =~= "studio."@);
            assert(occurs_at("）。调 studio.status() 确认状态是否完好；若状态可用则重试该操作，否则把 .studio/logs/studiod.log 提给维护者。"@, "studio."@, 4));
        },
    }
}

/// An unreachable cluster points at the node configuration and forbids
/// switching models; a failed run points at retrying and at the history.
pub proof fn lemma_comfy_remedies_point_apart(tried: Vec<String>, node: String, detail: String)
    ensures
        seq_contains(remedy_of(StudioError::ComfyUnavailable { tried }), "COMFY_NODE"@),
        seq_contains(remedy_of(StudioError::ComfyUnavailable { tried }), "不要降级"@),
        seq_contains(remedy_of(StudioError::ComfyFailed { node, detail }), "retry_stage"@),
        seq_contains(remedy_of(StudioError::ComfyFailed { node, detail }), "studio.timeline"@),
{
    broadcast use lemma_contains_left, lemma_contains_right;

    reveal_strlit("COMFY_NODE");
    reveal_strlit("不要降级");
    reveal_strlit("retry_stage");
    reveal_strlit("studio.timeline");
    reveal_strlit("）。在 .env 里配好 COMFY_NODES 后，调 studio.status() 确认当前卡在 preview 还是 render，再对它调 studio.retry_stage(<该阶段>) 让控制面重新尝试——它会先停掉可能还在跑的 worker，也会当场重新读取 `.env`，不需要重启 MCP 进程，也不需要在这部作品 之外手动跑 `studiod` 子命令；节点恢复前不要降级换模型。");
    reveal_strlit("）。用 studio.timeline() 看这一镜的历史；内容本身没问题、只是这次执行失败了（节点抖动、超时）就调 studio.status() 确认当前卡在 preview 还是 render，再对它调 studio.retry_stage(<该阶段>)——它会先停掉可能还在跑的 worker 再干净重试。怀疑是这个节点本身有问题，可以先调 studio.comfy.exclude_node 把它排除掉。只有内容/提示词本身要改才用 studio.revise。");
    assert("）。在 .env 里配好 COMFY_NODES 后，调 studio.status() 确认当前卡在 preview 还是 render，再对它调 studio.retry_stage(<该阶段>) 让控制面重新尝试——它会先停掉可能还在跑的 worker，也会当场重新读取 `.env`，不需要重启 MCP 进程，也不需要在这部作品 之外手动跑 `studiod` 子命令；节点恢复前不要降级换模型。"@.subrange(13, 23) =~= "COMFY_NODE"@);
    assert(occurs_at("）。在 .env 里配好 COMFY_NODES 后，调 studio.status() 确认当前卡在 preview 还是 render，再对它调 studio.retry_stage(<该阶段>) 让控制面重新尝试——它会先停掉可能还在跑的 worker，也会当场重新读取 `.env`，不需要重启 MCP 进程，也不需要在这部作品 之外手动跑 `studiod` 子命令；节点恢复前不要降级换模型。"@, "COMFY_NODE"@, 13));
    assert("）。在 .env 里配好 COMFY_NODES 后，调 studio.status() 确认当前卡在 preview 还是 render，再对它调 studio.retry_stage(<该阶段>) 让控制面重新尝试——它会先停掉可能还在跑的 worker，也会当场重新读取 `.env`，不需要重启 MCP 进程，也不需要在这部作品 之外手动跑 `studiod` 子命令；节点恢复前不要降级换模型。"@.subrange(194, 198) =~= "不要降级"@);
    assert(occurs_at("）。在 .env 里配好 COMFY_NODES 后，调 studio.status() 确认当前卡在 preview 还是 render，再对它调 studio.retry_stage(<该阶段>) 让控制面重新尝试——它会先停掉可能还在跑的 worker，也会当场重新读取 `.env`，不需要重启 MCP 进程，也不需要在这部作品 之外手动跑 `studiod` 子命令；节点恢复前不要降级换模型。"@, "不要降级"@, 194));
    assert("）。用 studio.timeline() 看这一镜的历史；内容本身没问题、只是这次执行失败了（节点抖动、超时）就调 studio.status() 确认当前卡在 preview 还是 render，再对它调 studio.retry_stage(<该阶段>)——它会先停掉可能还在跑的 worker 再干净重试。怀疑是这个节点本身有问题，可以先调 studio.comfy.exclude_node 把它排除掉。只有内容/提示词本身要改才用 studio.revise。"@.subrange(112, 123) =~= "retry_stage"@);
    assert(occurs_at("）。用 studio.timeline() 看这一镜的历史；内容本身没问题、只是这次执行失败了（节点抖动、超时）就调 studio.status() 确认当前卡在 preview 还是 render，再对它调 studio.retry_stage(<该阶段>)——它会先停掉可能还在跑的 worker 再干净重试。怀疑是这个节点本身有问题，可以先调 studio.comfy.exclude_node 把它排除掉。只有内容/提示词本身要改才用 studio.revise。"@, "retry_stage"@, 112));
    assert("）。用 studio.timeline() 看这一镜的历史；内容本身没问题、只是这次执行失败了（节点抖动、超时）就调 studio.status() 确认当前卡在 preview 还是 render，再对它调 studio.retry_stage(<该阶段>)——它会先停掉可能还在跑的 worker 再干净重试。怀疑是这个节点本身有问题，可以先调 studio.comfy.exclude_node 把它排除掉。只有内容/提示词本身要改才用 studio.revise。"@.subrange(4, 19) =~= "studio.timeline"@);
    assert(occurs_at("）。用 studio.timeline() 看这一镜的历史；内容本身没问题、只是这次执行失败了（节点抖动、超时）就调 studio.status() 确认当前卡在 preview 还是 render，再对它调 studio.retry_stage(<该阶段>)——它会先停掉可能还在跑的 worker 再干净重试。怀疑是这个节点本身有问题，可以先调 studio.comfy.exclude_node 把它排除掉。只有内容/提示词本身要改才用 studio.revise。"@, "studio.timeline"@, 4));
}

} // verus!
