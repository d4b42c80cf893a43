//! The health check.
//!
//! The machine running the program needs **no GPU**, but it needs ffmpeg and
//! ffprobe, and at least one reachable ComfyUI node (possibly on another
//! host). What is missing, where to configure it and how to confirm the fix
//! are all said here. The probing itself (files, processes, the network) is
//! done by the caller; these functions turn what it found into checks.
use vstd::prelude::*;
use crate::comfy::NodeHealth;
use crate::config_toml::{parse_toml, toml_document, TomlView};
use crate::error::{to_uppercase, uppercase};
use crate::exec_report::opt_text;
use crate::json::Json;
use crate::json_text::{json_text_document, parse_json_text, RawJson, RawJsonView};
use crate::text::{char_is_white_space, is_white_space, join, join_seq, push_u64, dec_nat, views_of};

verus! {

broadcast use vstd::string::group_string_axioms;

#[derive(Debug, Clone, Copy, PartialEq, Eq, Structural)]
pub enum Level {
    Pass,
    Warn,
    Fail,
}

/// One finding of the health check.
#[derive(Debug, Clone, PartialEq)]
pub struct Check {
    pub name: String,
    pub level: Level,
    pub detail: String,
    /// How to fix it, when it does not pass.
    pub remedy: Option<String>,
}

/// A check as plain values: name, level, detail, remedy.
pub type CheckView = (Seq<char>, Level, Seq<char>, Option<Seq<char>>);

impl Check {
    pub open spec fn view_of(self) -> CheckView {
        (self.name@, self.level, self.detail@, opt_text(self.remedy))
    }
}

pub open spec fn check_views(v: Seq<Check>) -> Seq<CheckView> {
    v.map_values(|c: Check| c.view_of())
}

/// Where an outside program was looked for and what was found.
#[derive(Debug, Clone, PartialEq)]
pub struct ToolStatus {
    pub found: bool,
    pub path: Option<String>,
    pub version: Option<String>,
    pub looked_in: Vec<String>,
}

/// The health of the machine, and of the bundle when there is one.
#[derive(Debug, Clone, PartialEq)]
pub struct Report {
    pub healthy: bool,
    pub program_dir: Option<String>,
    pub bundle: Option<String>,
    pub checks: Vec<Check>,
    pub tools: Vec<ToolStatus>,
    pub nodes: Vec<NodeHealth>,
}

// ---------------------------------------------------------------------------
// ffmpeg and ffprobe.

pub open spec fn or_empty(o: Option<Seq<char>>) -> Seq<char> {
    match o {
        Some(s) => s,
        None => Seq::empty(),
    }
}

/// The check of one outside program. A missing one only warns: the first
/// six stages (idea to prompt pack) never touch media.
pub open spec fn tool_check_of(tool: Seq<char>, found: bool, path: Option<Seq<char>>, version: Option<Seq<char>>, looked_in: Seq<Seq<char>>) -> CheckView {
    if found {
        (
            tool + " 可用"@,
            Level::Pass,
            or_empty(path) + match version {
                Some(v) => "（"@ + v + "）"@,
                None => Seq::empty(),
            },
            None,
        )
    } else {
        (
            tool + " 缺失"@,
            Level::Warn,
            "找过："@ + join_seq(looked_in, "、"@),
            Some(
                "后期阶段才需要它，创作阶段不受影响。装好 "@ + tool
                    + " 后，\n  或者把它的完整路径写进 .env：\n    "@ + uppercase(tool) + "_PATH=/你的路径/"@
                    + tool + "\n  它不要求在 PATH 中。bundle 里的 .env 优先于程序目录的 .env。"@,
            ),
        )
    }
}

pub fn tool_check(tool: &str, st: &ToolStatus) -> (r: Check)
    ensures
        r.view_of() == tool_check_of(
            tool@,
            st.found,
            opt_text(st.path),
            opt_text(st.version),
            views_of(st.looked_in@),
        ),
{
    if st.found {
        let mut name = String::from_str(tool);
        name.append(" 可用");
        let mut detail = String::new();
        match &st.path {
            Some(p) => detail.append(p.as_str()),
            None => {},
        }
        match &st.version {
            Some(v) => {
                detail.append("（");
                detail.append(v.as_str());
                detail.append("）");
            },
            None => {},
        }
        Check { name, level: Level::Pass, detail, remedy: None }
    } else {
        let mut name = String::from_str(tool);
        name.append(" 缺失");
        let mut detail = String::from_str("找过：");
        let places = join(&st.looked_in, "、");
        detail.append(places.as_str());
        let mut remedy = String::from_str("后期阶段才需要它，创作阶段不受影响。装好 ");
        remedy.append(tool);
        remedy.append(" 后，\n  或者把它的完整路径写进 .env：\n    ");
        let upper = to_uppercase(tool);
        remedy.append(upper.as_str());
        remedy.append("_PATH=/你的路径/");
        remedy.append(tool);
        remedy.append("\n  它不要求在 PATH 中。bundle 里的 .env 优先于程序目录的 .env。");
        Check { name, level: Level::Warn, detail, remedy: Some(remedy) }
    }
}

// ---------------------------------------------------------------------------
// The ComfyUI entry points.

/// How many of the nodes are reachable.
pub open spec fn reachable_count(nodes: Seq<NodeHealth>) -> nat
    decreases nodes.len(),
{
    if nodes.len() == 0 {
        0
    } else {
        reachable_count(nodes.drop_last()) + (if nodes.last().reachable {
            1nat
        } else {
            0
        })
    }
}

/// Rendering needs at least one reachable node; the six stages before it
/// do not, so none reachable only warns.
pub open spec fn nodes_check_of(nodes: Seq<NodeHealth>, tried: Seq<Seq<char>>) -> CheckView {
    let n = reachable_count(nodes);
    if n > 0 {
        ("ComfyUI 节点"@, Level::Pass, dec_nat(n) + "/"@ + dec_nat(nodes.len()) + " 个可达"@, None)
    } else {
        (
            "ComfyUI 节点全部不可达"@,
            Level::Warn,
            "试过："@ + join_seq(tried, "、"@),
            Some(
                "渲染之前必须至少有一个可达节点。在 .env 里配：\n    COMFY_NODES=http://主机:9001,http://主机:9002\n  本机不需要 GPU，节点可以在另一台机器上。\n  提交给 ComfyUI 之前的六个阶段不受影响，现在就可以开始创作。"@,
            ),
        )
    }
}

pub fn nodes_check(nodes: &Vec<NodeHealth>, tried: &Vec<String>) -> (r: Check)
    ensures
        r.view_of() == nodes_check_of(nodes@, views_of(tried@)),
{
    let mut n: usize = 0;
    let mut i: usize = 0;
    while i < nodes.len()
        invariant
            i <= nodes@.len(),
            n == reachable_count(nodes@.subrange(0, i as int)),
            n <= i,
        decreases nodes.len() - i,
    {
        assert(nodes@.subrange(0, i + 1).drop_last() =~= nodes@.subrange(0, i as int));
        if nodes[i].reachable {
            n = n + 1;
        }
        i = i + 1;
    }
    assert(nodes@.subrange(0, nodes@.len() as int) =~= nodes@);
    if n > 0 {
        let mut detail = String::new();
        push_u64(&mut detail, n as u64);
        detail.append("/");
        push_u64(&mut detail, nodes.len() as u64);
        detail.append(" 个可达");
        Check { name: String::from_str("ComfyUI 节点"), level: Level::Pass, detail, remedy: None }
    } else {
        let mut detail = String::from_str("试过：");
        let t = join(tried, "、");
        detail.append(t.as_str());
        Check {
            name: String::from_str("ComfyUI 节点全部不可达"),
            level: Level::Warn,
            detail,
            remedy: Some(
                String::from_str(
                    "渲染之前必须至少有一个可达节点。在 .env 里配：\n    COMFY_NODES=http://主机:9001,http://主机:9002\n  本机不需要 GPU，节点可以在另一台机器上。\n  提交给 ComfyUI 之前的六个阶段不受影响，现在就可以开始创作。",
                ),
            ),
        }
    }
}

// ---------------------------------------------------------------------------
// The card baselines.

/// Whether a baseline document says its bindings were verified:
/// `_studio.bindings_verified` is `true`. A file that is not JSON, or does
/// not say, counts as unverified.
pub open spec fn verified_flag(doc: Option<Json>) -> bool {
    match doc {
        Some(d) => match d.field("_studio"@) {
            Some(s) => match s.field("bindings_verified"@) {
                Some(b) => b.bool_of() == Some(true),
                None => false,
            },
            None => false,
        },
        None => false,
    }
}

pub fn baseline_verified(doc: Option<&Json>) -> (r: bool)
    ensures
        r == verified_flag(
            match doc {
                Some(d) => Some(*d),
                None => None,
            },
        ),
{
    match doc {
        Some(d) => match d.get("_studio") {
            Some(s) => match s.get_bool("bindings_verified") {
                Some(b) => b,
                None => false,
            },
            None => false,
        },
        None => false,
    }
}

/// What was found of one baseline: `None` when the file is missing, else
/// whether it is verified.
/// Whether a baseline file's text says its bindings were verified:
/// `_studio.bindings_verified` is `true`; text that is not JSON says not.
pub open spec fn text_verified_flag(doc: Option<RawJsonView>) -> bool {
    match doc {
        Some(d) => match d.field("_studio"@) {
            Some(s) => s.field("bindings_verified"@) == Some(RawJsonView::Bool(true)),
            None => false,
        },
        None => false,
    }
}

/// Reads a baseline file's text and says whether its bindings were verified.
pub fn baseline_text_verified(text: &str) -> (r: bool)
    ensures
        r == text_verified_flag(json_text_document(text@)),
{
    match parse_json_text(text) {
        Ok(doc) => match doc.get("_studio") {
            Some(s) => match s.get("bindings_verified") {
                Some(RawJson::Bool(b)) => *b,
                _ => false,
            },
            None => false,
        },
        Err(_) => false,
    }
}


pub open spec fn baseline_missing(b: Option<bool>) -> bool {
    b is None
}

pub open spec fn baseline_unverified(b: Option<bool>) -> bool {
    b == Some(false)
}

/// The names among `t2i` and `edit` that meet `p`, joined by ` 与 `.
pub open spec fn pick_names(t2i: bool, edit: bool) -> Seq<Seq<char>> {
    if t2i && edit {
        seq!["t2i"@, "edit"@]
    } else if t2i {
        seq!["t2i"@]
    } else if edit {
        seq!["edit"@]
    } else {
        Seq::empty()
    }
}

/// Whether cards can be generated depends on the two `z_image` baselines
/// being there and verified. This is **never a failure**: the visual assets
/// stage can submit a plan alone, and the six stages before rendering do not
/// care. It keeps "the plan can be submitted" apart from "the images can be
/// made". `dir` is where the baselines were looked for.
pub open spec fn image_baselines_check_of(dir: Seq<char>, t2i: Option<bool>, edit: Option<bool>) -> CheckView {
    let missing = pick_names(t2i is None, edit is None);
    let unverified = pick_names(t2i == Some(false), edit == Some(false));
    if missing.len() == 0 && unverified.len() == 0 {
        ("卡片生成基线"@, Level::Pass, "z_image 的 t2i 与 edit 都在，且已核验"@, None)
    } else {
        let parts = (if missing.len() > 0 {
            seq!["缺 "@ + join_seq(missing, " 与 "@)]
        } else {
            Seq::empty()
        }) + (if unverified.len() > 0 {
            seq![join_seq(unverified, " 与 "@) + " 未核验"@]
        } else {
            Seq::empty()
        });
        (
            "卡片生成基线未就绪"@,
            Level::Warn,
            join_seq(parts, "；"@),
            Some(
                "角色卡/场景卡现在只能提交**计划**，生不出图——计划里的 status 会一直是 planned。\n  其余阶段完全不受影响。要真出图，在装了 ComfyUI 的机器上按\n    "@
                    + dir + "/README.md\n  导出两条基线，核验过再把 bindings_verified 改成 true。"@,
            ),
        )
    }
}

fn names_of(t2i: bool, edit: bool) -> (r: Vec<String>)
    ensures
        views_of(r@) == pick_names(t2i, edit),
{
    let mut v: Vec<String> = Vec::new();
    if t2i {
        v.push(String::from_str("t2i"));
    }
    if edit {
        v.push(String::from_str("edit"));
    }
    assert(views_of(v@) =~= pick_names(t2i, edit));
    v
}

pub fn image_baselines_check(dir: &str, t2i: Option<bool>, edit: Option<bool>) -> (r: Check)
    ensures
        r.view_of() == image_baselines_check_of(dir@, t2i, edit),
{
    let missing = names_of(t2i.is_none(), edit.is_none());
    let unverified = names_of(t2i == Some(false), edit == Some(false));
    if missing.len() == 0 && unverified.len() == 0 {
        return Check {
            name: String::from_str("卡片生成基线"),
            level: Level::Pass,
            detail: String::from_str("z_image 的 t2i 与 edit 都在，且已核验"),
            remedy: None,
        };
    }
    let mut parts: Vec<String> = Vec::new();
    if missing.len() > 0 {
        let mut p = String::from_str("缺 ");
        let m = join(&missing, " 与 ");
        p.append(m.as_str());
        parts.push(p);
    }
    if unverified.len() > 0 {
        let mut p = join(&unverified, " 与 ");
        p.append(" 未核验");
        parts.push(p);
    }
    let ghost expect = (if missing@.len() > 0 {
        seq!["缺 "@ + join_seq(views_of(missing@), " 与 "@)]
    } else {
        Seq::empty()
    }) + (if unverified@.len() > 0 {
        seq![join_seq(views_of(unverified@), " 与 "@) + " 未核验"@]
    } else {
        Seq::empty()
    });
    assert(views_of(parts@) =~= expect);
    let detail = join(&parts, "；");
    let mut remedy = String::from_str(
        "角色卡/场景卡现在只能提交**计划**，生不出图——计划里的 status 会一直是 planned。\n  其余阶段完全不受影响。要真出图，在装了 ComfyUI 的机器上按\n    ",
    );
    remedy.append(dir);
    remedy.append("/README.md\n  导出两条基线，核验过再把 bindings_verified 改成 true。");
    Check { name: String::from_str("卡片生成基线未就绪"), level: Level::Warn, detail, remedy: Some(remedy) }
}

// ---------------------------------------------------------------------------
// The bundle's Codex configuration.

/// The command a Codex configuration names for this program: the string at
/// `mcp_servers.video-studio.command`, if the document has one.
pub open spec fn configured_command(doc: Option<TomlView>) -> Option<Seq<char>> {
    match doc {
        Some(d) => match d.field("mcp_servers"@) {
            Some(servers) => match servers.field("video-studio"@) {
                Some(entry) => match entry.field("command"@) {
                    Some(TomlView::Str(c)) => Some(c),
                    _ => None,
                },
                None => None,
            },
            None => None,
        },
        None => None,
    }
}

/// The program a bundle's Codex configuration points at. The path may be a
/// basic or a literal TOML string (Windows paths use the latter).
pub fn referenced_command(config_text: &str) -> (r: Option<String>)
    ensures
        opt_text(r) == configured_command(toml_document(config_text@)),
{
    let doc = parse_toml(config_text);
    match doc {
        Some(d) => match d.get("mcp_servers") {
            Some(servers) => match servers.get("video-studio") {
                Some(entry) => match entry.get("command") {
                    Some(c) => match c.as_str() {
                        Some(t) => Some(t.to_string()),
                        None => None,
                    },
                    None => None,
                },
                None => None,
            },
            None => None,
        },
        None => None,
    }
}

/// `split_whitespace` on a prefix: the words done, and the word being read.
pub open spec fn words_state(s: Seq<char>) -> (Seq<Seq<char>>, Seq<char>)
    decreases s.len(),
{
    if s.len() == 0 {
        (Seq::empty(), Seq::empty())
    } else {
        let (done, cur) = words_state(s.drop_last());
        let c = s.last();
        if is_white_space(c) {
            if cur.len() > 0 {
                (done.push(cur), Seq::empty())
            } else {
                (done, cur)
            }
        } else {
            (done, cur.push(c))
        }
    }
}

/// `s.split_whitespace()`.
pub open spec fn words_of(s: Seq<char>) -> Seq<Seq<char>> {
    let (done, cur) = words_state(s);
    if cur.len() > 0 {
        done.push(cur)
    } else {
        done
    }
}

/// The version a tool prints first: the third word of its first line
/// (`ffmpeg version 6.1.1 ...`).
pub open spec fn version_text(output: Seq<char>) -> Option<Seq<char>> {
    let ls = lines_of(output);
    if ls.len() > 0 && words_of(ls[0]).len() > 2 {
        Some(words_of(ls[0])[2])
    } else {
        None
    }
}

fn words(s: &str) -> (r: Vec<String>)
    ensures
        views_of(r@) == words_of(s@),
{
    let n = s.unicode_len();
    let mut done: Vec<String> = Vec::new();
    let mut start: usize = 0;
    let mut in_word = false;
    let mut i: usize = 0;
    while i < n
        invariant
            n == s@.len(),
            start <= i <= n,
            views_of(done@) == words_state(s@.subrange(0, i as int)).0,
            in_word ==> s@.subrange(start as int, i as int) == words_state(s@.subrange(0, i as int)).1,
            in_word ==> start < i,
            !in_word ==> words_state(s@.subrange(0, i as int)).1.len() == 0,
        decreases n - i,
    {
        let c = s.get_char(i);
        assert(s@.subrange(0, i + 1).drop_last() =~= s@.subrange(0, i as int));
        assert(s@.subrange(0, i + 1).last() == c);
        if char_is_white_space(c) {
            if in_word {
                let w = s.substring_char(start, i);
                let ghost before = views_of(done@);
                done.push(w.to_string());
                assert(views_of(done@) =~= before.push(w@));
                in_word = false;
            }
        } else {
            if !in_word {
                start = i;
                in_word = true;
                assert(s@.subrange(start as int, i + 1) =~= seq![c]);
            } else {
                assert(s@.subrange(start as int, i + 1) =~= s@.subrange(start as int, i as int).push(c));
            }
        }
        i = i + 1;
    }
    assert(s@.subrange(0, n as int) =~= s@);
    if in_word {
        let w = s.substring_char(start, n);
        let ghost before = views_of(done@);
        done.push(w.to_string());
        assert(views_of(done@) =~= before.push(w@));
    }
    done
}

/// The version a tool reports in what it printed for `-version`.
pub fn tool_version(output: &str) -> (r: Option<String>)
    ensures
        opt_text(r) == version_text(output@),
{
    let ls = lines(output);
    if ls.len() == 0 {
        return None;
    }
    let ws = words(ls[0].as_str());
    if ws.len() > 2 {
        Some(ws[2].clone())
    } else {
        None
    }
}

/// What was found of a bundle's `.codex/config.toml`.
pub enum CodexConfig {
    /// The file does not exist.
    Missing,
    /// The file names no command (or is not TOML).
    Incomplete,
    /// It names this program, which exists or not.
    PointsAt { command: String, exists: bool },
}

/// After a move to another machine or another install location, the path
/// in `.codex/config.toml` goes stale. `config_path` is where it was looked for.
pub open spec fn codex_config_check_of(config_path: Seq<char>, c: CodexConfig) -> CheckView {
    match c {
        CodexConfig::Missing => (
            "作品的 Codex 配置缺失"@,
            Level::Fail,
            config_path + " 不存在"@,
            Some("跑 `studio-cli doctor --fix` 重新生成。"@),
        ),
        CodexConfig::PointsAt { command, exists } => if exists {
            ("作品的 Codex 配置"@, Level::Pass, "指向 "@ + command@, None)
        } else {
            (
                "作品指向的程序不存在"@,
                Level::Fail,
                "配置里写的是 "@ + command@,
                Some(
                    "这部作品是在别的机器或别的安装位置建的。跑 `studio-cli doctor --fix` 把它改成当前程序的路径——bundle 的其它内容都是相对路径，可以照常用。"@,
                ),
            )
        },
        CodexConfig::Incomplete => (
            "作品的 Codex 配置不完整"@,
            Level::Fail,
            "找不到 command 行"@,
            Some("跑 `studio-cli doctor --fix` 重新生成。"@),
        ),
    }
}

pub fn codex_config_check(config_path: &str, c: CodexConfig) -> (r: Check)
    ensures
        r.view_of() == codex_config_check_of(config_path@, c),
{
    match c {
        CodexConfig::Missing => {
            let mut detail = String::from_str(config_path);
            detail.append(" 不存在");
            Check {
                name: String::from_str("作品的 Codex 配置缺失"),
                level: Level::Fail,
                detail,
                remedy: Some(String::from_str("跑 `studio-cli doctor --fix` 重新生成。")),
            }
        },
        CodexConfig::PointsAt { command, exists } => {
            if exists {
                let mut detail = String::from_str("指向 ");
                detail.append(command.as_str());
                Check { name: String::from_str("作品的 Codex 配置"), level: Level::Pass, detail, remedy: None }
            } else {
                let mut detail = String::from_str("配置里写的是 ");
                detail.append(command.as_str());
                Check {
                    name: String::from_str("作品指向的程序不存在"),
                    level: Level::Fail,
                    detail,
                    remedy: Some(
                        String::from_str(
                            "这部作品是在别的机器或别的安装位置建的。跑 `studio-cli doctor --fix` 把它改成当前程序的路径——bundle 的其它内容都是相对路径，可以照常用。",
                        ),
                    ),
                }
            }
        },
        CodexConfig::Incomplete => Check {
            name: String::from_str("作品的 Codex 配置不完整"),
            level: Level::Fail,
            detail: String::from_str("找不到 command 行"),
            remedy: Some(String::from_str("跑 `studio-cli doctor --fix` 重新生成。")),
        },
    }
}

// ---------------------------------------------------------------------------
// The report.

/// Healthy means that no check failed; warnings only concern rendering and post.
pub open spec fn no_failure(checks: Seq<CheckView>) -> bool {
    forall|i: int| 0 <= i < checks.len() ==> (#[trigger] checks[i]).1 != Level::Fail
}

/// Gathers the checks: healthy when none of them failed.
pub fn report(
    program_dir: Option<String>,
    bundle: Option<String>,
    checks: Vec<Check>,
    tools: Vec<ToolStatus>,
    nodes: Vec<NodeHealth>,
) -> (r: Report)
    ensures
        r.healthy == no_failure(check_views(checks@)),
        r.program_dir == program_dir,
        r.bundle == bundle,
        r.checks == checks,
        r.tools == tools,
        r.nodes == nodes,
{
    let mut healthy = true;
    let mut i: usize = 0;
    while i < checks.len()
        invariant
            i <= checks@.len(),
            healthy == no_failure(check_views(checks@.subrange(0, i as int))),
        decreases checks.len() - i,
    {
        let ghost before = check_views(checks@.subrange(0, i as int));
        let ghost after = check_views(checks@.subrange(0, i + 1));
        assert(after =~= before.push(checks@[i as int].view_of()));
        if checks[i].level == Level::Fail {
            healthy = false;
            assert(after[i as int].1 == Level::Fail);
        } else {
            assert(no_failure(after) == no_failure(before)) by {
                if no_failure(before) {
                    assert forall|j: int| 0 <= j < after.len() implies (#[trigger] after[j]).1 != Level::Fail by {
                        if j < i {
                            assert(after[j] == before[j]);
                        }
                    }
                } else {
                    let j = choose|j: int| 0 <= j < before.len() && (#[trigger] before[j]).1 == Level::Fail;
                    assert(after[j] == before[j]);
                }
            }
        }
        i = i + 1;
    }
    assert(checks@.subrange(0, checks@.len() as int) =~= checks@);
    Report { healthy, program_dir, bundle, checks, tools, nodes }
}

/// `str::lines`: split at `\n`; a line that ended with `\n` also loses one
/// `\r` before it; the last line needs no line ending.
pub open spec fn line_pieces(s: Seq<char>, n: int) -> (Seq<Seq<char>>, Seq<char>)
    decreases n,
{
    if n <= 0 || n > s.len() {
        (Seq::empty(), Seq::empty())
    } else {
        let (done, cur) = line_pieces(s, n - 1);
        if s[n - 1] == '\n' {
            (done.push(strip_cr(cur)), Seq::empty())
        } else {
            (done, cur.push(s[n - 1]))
        }
    }
}

pub open spec fn strip_cr(s: Seq<char>) -> Seq<char> {
    if s.len() > 0 && s.last() == '\r' {
        s.drop_last()
    } else {
        s
    }
}

pub open spec fn lines_of(s: Seq<char>) -> Seq<Seq<char>> {
    let (done, cur) = line_pieces(s, s.len() as int);
    if cur.len() > 0 {
        done.push(cur)
    } else {
        done
    }
}

/// Each line indented under its check.
pub open spec fn indented(lines: Seq<Seq<char>>) -> Seq<char>
    decreases lines.len(),
{
    if lines.len() == 0 {
        Seq::empty()
    } else {
        indented(lines.drop_last()) + "         "@ + lines.last() + "\n"@
    }
}

pub open spec fn mark_of(l: Level) -> Seq<char> {
    match l {
        Level::Pass => "OK  "@,
        Level::Warn => "注意"@,
        Level::Fail => "缺失"@,
    }
}

pub open spec fn check_text(c: CheckView) -> Seq<char> {
    "  ["@ + mark_of(c.1) + "] "@ + c.0 + "\n         "@ + c.2 + "\n"@ + match c.3 {
        Some(r) => indented(lines_of(r)),
        None => Seq::empty(),
    } + "\n"@
}

pub open spec fn checks_text(cs: Seq<CheckView>) -> Seq<char>
    decreases cs.len(),
{
    if cs.len() == 0 {
        Seq::empty()
    } else {
        checks_text(cs.drop_last()) + check_text(cs.last())
    }
}

pub open spec fn warn_count(cs: Seq<CheckView>) -> nat
    decreases cs.len(),
{
    if cs.len() == 0 {
        0
    } else {
        warn_count(cs.drop_last()) + (if cs.last().1 == Level::Warn {
            1nat
        } else {
            0
        })
    }
}

/// The report as text for a terminal: each check with its remedy, then the
/// conclusion: problems to fix first, ready with warnings, or fully ready.
pub open spec fn report_text(healthy: bool, program_dir: Option<Seq<char>>, bundle: Option<Seq<char>>, cs: Seq<CheckView>) -> Seq<char> {
    let w = warn_count(cs);
    "video-studio 体检\n\n"@ + match program_dir {
        Some(p) => "  程序目录  "@ + p + "\n"@,
        None => Seq::empty(),
    } + match bundle {
        Some(b) => "  当前作品  "@ + b + "\n"@,
        None => "  当前作品  （不在作品目录里，只检查全局环境）\n"@,
    } + "\n"@ + checks_text(cs) + if !healthy {
        "结论：有必须先解决的问题，见上面的「缺失」项。\n"@
    } else if w > 0 {
        "结论：现在就可以开始创作。\n"@ + "      上面 "@ + dec_nat(w) + " 项「注意」只影响渲染和后期，可以边做边补。\n"@
    } else {
        "结论：全流程就绪。\n"@
    }
}

pub(crate) fn lines(s: &str) -> (r: Vec<String>)
    ensures
        views_of(r@) == lines_of(s@),
{
    let n = s.unicode_len();
    let mut out: Vec<String> = Vec::new();
    let mut start: usize = 0;
    let mut i: usize = 0;
    while i < n
        invariant
            n == s@.len(),
            start <= i <= n,
            views_of(out@) == line_pieces(s@, i as int).0,
            s@.subrange(start as int, i as int) == line_pieces(s@, i as int).1,
        decreases n - i,
    {
        let c = s.get_char(i);
        if c == '\n' {
            let mut end = i;
            if end > start && s.get_char(end - 1) == '\r' {
                end = end - 1;
            }
            let piece = s.substring_char(start, end);
            let ghost cur = s@.subrange(start as int, i as int);
            assert(piece@ == strip_cr(cur)) by {
                if i > start && s@[i - 1] == '\r' {
                    assert(cur.drop_last() =~= s@.subrange(start as int, i - 1));
                }
            }
            let ghost before = views_of(out@);
            out.push(String::from_str(piece));
            assert(views_of(out@) =~= before.push(strip_cr(cur)));
            start = i + 1;
            i = i + 1;
            assert(s@.subrange(start as int, i as int) =~= Seq::<char>::empty());
        } else {
            i = i + 1;
            assert(s@.subrange(start as int, i as int) =~= s@.subrange(start as int, i - 1).push(c));
        }
    }
    if start < n {
        let piece = s.substring_char(start, n);
        let ghost before = views_of(out@);
        out.push(String::from_str(piece));
        assert(views_of(out@) =~= before.push(s@.subrange(start as int, n as int)));
    }
    out
}

fn push_check(out: &mut String, c: &Check)
    ensures
        final(out)@ == old(out)@ + check_text(c.view_of()),
{
    out.append("  [");
    match c.level {
        Level::Pass => out.append("OK  "),
        Level::Warn => out.append("注意"),
        Level::Fail => out.append("缺失"),
    }
    out.append("] ");
    out.append(c.name.as_str());
    out.append("\n         ");
    out.append(c.detail.as_str());
    out.append("\n");
    let ghost mid = out@;
    match &c.remedy {
        Some(r) => {
            let ls = lines(r.as_str());
            let ghost lv = views_of(ls@);
            let mut k: usize = 0;
            while k < ls.len()
                invariant
                    lv == views_of(ls@),
                    k <= ls@.len(),
                    out@ == mid + indented(lv.subrange(0, k as int)),
                decreases ls.len() - k,
            {
                assert(lv.subrange(0, k + 1).drop_last() =~= lv.subrange(0, k as int));
                out.append("         ");
                out.append(ls[k].as_str());
                out.append("\n");
                k = k + 1;
            }
            assert(lv.subrange(0, ls@.len() as int) =~= lv);
        },
        None => {},
    }
    out.append("\n");
}

pub fn render(report: &Report) -> (s: String)
    ensures
        s@ == report_text(
            report.healthy,
            opt_text(report.program_dir),
            opt_text(report.bundle),
            check_views(report.checks@),
        ),
{
    let mut s = String::from_str("video-studio 体检\n\n");
    match &report.program_dir {
        Some(p) => {
            s.append("  程序目录  ");
            s.append(p.as_str());
            s.append("\n");
        },
        None => {},
    }
    match &report.bundle {
        Some(b) => {
            s.append("  当前作品  ");
            s.append(b.as_str());
            s.append("\n");
        },
        None => s.append("  当前作品  （不在作品目录里，只检查全局环境）\n"),
    }
    s.append("\n");
    let ghost head = s@;
    let ghost cs = check_views(report.checks@);
    let mut warnings: usize = 0;
    let mut i: usize = 0;
    while i < report.checks.len()
        invariant
            cs == check_views(report.checks@),
            i <= report.checks@.len(),
            s@ == head + checks_text(cs.subrange(0, i as int)),
            warnings == warn_count(cs.subrange(0, i as int)),
            warnings <= i,
        decreases report.checks.len() - i,
    {
        assert(cs.subrange(0, i + 1).drop_last() =~= cs.subrange(0, i as int));
        assert(cs.subrange(0, i + 1).last() == report.checks@[i as int].view_of());
        push_check(&mut s, &report.checks[i]);
        if report.checks[i].level == Level::Warn {
            warnings = warnings + 1;
        }
        i = i + 1;
    }
    assert(cs.subrange(0, report.checks@.len() as int) =~= cs);
    if !report.healthy {
        s.append("结论：有必须先解决的问题，见上面的「缺失」项。\n");
    } else if warnings > 0 {
        s.append("结论：现在就可以开始创作。\n");
        s.append("      上面 ");
        push_u64(&mut s, warnings as u64);
        s.append(" 项「注意」只影响渲染和后期，可以边做边补。\n");
    } else {
        s.append("结论：全流程就绪。\n");
    }
    s
}

} // verus!
