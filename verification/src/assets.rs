//! The configuration files a bundle carries: the Codex MCP entry, the
//! bundle's own metadata and the example runtime configuration.
use vstd::prelude::*;
use crate::text::str_contains;

verus! {

broadcast use vstd::string::group_string_axioms;

/// A character inside a TOML basic string: `\` and `"` are escaped.
pub open spec fn toml_escaped(c: char) -> Seq<char> {
    if c == '\\' {
        seq!['\\', '\\']
    } else if c == '"' {
        seq!['\\', '"']
    } else {
        seq![c]
    }
}

/// The first `n` characters of `s` escaped for a TOML basic string.
pub open spec fn toml_escape(s: Seq<char>, n: int) -> Seq<char>
    decreases n,
{
    if n <= 0 || n > s.len() {
        Seq::empty()
    } else {
        toml_escape(s, n - 1) + toml_escaped(s[n - 1])
    }
}

/// A path written as a TOML string. A literal string (single quotes) takes
/// no escapes, which is what a Windows path such as `C:\opt\studiod.exe`
/// needs; a path that holds a single quote falls back to a basic string
/// with `\` and `"` escaped.
pub open spec fn toml_path_text(p: Seq<char>) -> Seq<char> {
    if p.contains('\'') {
        seq!['"'] + toml_escape(p, p.len() as int) + seq!['"']
    } else {
        seq!['\''] + p + seq!['\'']
    }
}

proof fn lemma_contains_quote(p: Seq<char>)
    ensures
        crate::text::seq_contains(p, seq!['\'']) <==> p.contains('\''),
{
    if p.contains('\'') {
        let i = choose|i: int| 0 <= i < p.len() && p[i] == '\'';
        assert(p.subrange(i, i + 1) =~= seq!['\'']);
        assert(crate::text::occurs_at(p, seq!['\''], i));
    }
    if crate::text::seq_contains(p, seq!['\'']) {
        let i = choose|i: int| crate::text::occurs_at(p, seq!['\''], i);
        assert(p.subrange(i, i + 1)[0] == p[i]);
    }
}

fn toml_path(p: &str) -> (r: String)
    ensures
        r@ == toml_path_text(p@),
{
    proof {
        reveal_strlit("'");
        reveal_strlit("\"");
        assert("'"@ =~= seq!['\'']);
        assert("\""@ =~= seq!['"']);
        lemma_contains_quote(p@);
    }
    if !str_contains(p, "'") {
        let mut s = String::from_str("'");
        s.append(p);
        s.append("'");
        assert(s@ =~= toml_path_text(p@));
        return s;
    }
    let n = p.unicode_len();
    let mut s = String::from_str("\"");
    assert(s@ =~= seq!['"'] + toml_escape(p@, 0));
    let mut i: usize = 0;
    while i < n
        invariant
            n == p@.len(),
            i <= n,
            s@ == seq!['"'] + toml_escape(p@, i as int),
        decreases n - i,
    {
        let c = p.get_char(i);
        if c == '\\' {
            s.append("\\\\");
        } else if c == '"' {
            s.append("\\\"");
        } else {
            s.append(p.substring_char(i, i + 1));
        }
        proof {
            reveal_strlit("\\\\");
            reveal_strlit("\\\"");
            assert(p@.subrange(i as int, i + 1) =~= seq![c]);
        }
        i = i + 1;
        assert(s@ =~= seq!['"'] + toml_escape(p@, i as int));
    }
    s.append("\"");
    assert(s@ =~= toml_path_text(p@));
    s
}

/// `.codex/config.toml`: points the MCP server at `studiod`, which takes no
/// subcommand and no argument; serving is all it does.
pub open spec fn codex_config_text(studiod_path: Seq<char>) -> Seq<char> {
    "# 由 `studio-cli init` 生成。换机器或换安装位置后跑\n"@
        + "# `studio-cli doctor --fix` 修正这里。\n"@
        + "[mcp_servers.video-studio]\n"@
        + "command = "@ + toml_path_text(studiod_path) + "\n"@
}

pub fn codex_config(studiod_path: &str) -> (r: String)
    ensures
        r@ == codex_config_text(studiod_path@),
{
    let mut s = String::from_str("# 由 `studio-cli init` 生成。换机器或换安装位置后跑\n");
    s.append("# `studio-cli doctor --fix` 修正这里。\n");
    s.append("[mcp_servers.video-studio]\n");
    s.append("command = ");
    let p = toml_path(studiod_path);
    s.append(p.as_str());
    s.append("\n");
    s
}

/// `project.toml`: the bundle's own metadata. Everything inside a bundle is
/// relative, so the directory can be moved or copied at will.
pub open spec fn project_toml_text(title: Seq<char>, version: Seq<char>, core_model: Seq<char>) -> Seq<char> {
    "# 这部作品的元信息。内部一律相对路径，整个目录可以随意 mv / cp -r。\n"@
        + "title = \""@ + title + "\"\n"@
        + "created_with = \""@ + version + "\"\n"@
        + "core_model_family = \""@ + core_model + "\"\n"@
}

pub fn project_toml(title: &str, version: &str, core_model: &str) -> (r: String)
    ensures
        r@ == project_toml_text(title@, version@, core_model@),
{
    let mut s = String::from_str("# 这部作品的元信息。内部一律相对路径，整个目录可以随意 mv / cp -r。\n");
    s.append("title = \"");
    s.append(title);
    s.append("\"\n");
    s.append("created_with = \"");
    s.append(version);
    s.append("\"\n");
    s.append("core_model_family = \"");
    s.append(core_model);
    s.append("\"\n");
    s
}

/// The example runtime configuration shipped as `.env.example`.
pub open spec fn env_example_text() -> Seq<char> {
    "# video-studio 运行时配置。\n"@
        + "# bundle 里的 .env 优先级最高，其次是程序目录的 .env，然后是进程环境变量。\n\n"@
        + "# ffmpeg / ffprobe 不要求在 PATH 中，可在这里直接指向可执行文件。\n"@
        + "# FFMPEG_PATH=/usr/local/bin/ffmpeg\n"@
        + "# FFPROBE_PATH=/usr/local/bin/ffprobe\n\n"@
        + "# ComfyUI 节点。运行本程序的机器不需要 GPU，也可以指向另一台主机。\n"@
        + "# COMFY_NODES=http://127.0.0.1:9001,http://127.0.0.1:9002\n"@
        + "# COMFY_TIMEOUT_SECS=1800\n"@
        + "# COMFY_POLL_INTERVAL_SECS=3\n\n"@
        + "# 核心模型系列。\n"@
        + "# CORE_MODEL_FAMILY=minimax_h3\n"@
}

pub fn env_example() -> (r: String)
    ensures
        r@ == env_example_text(),
{
    let mut s = String::from_str("# video-studio 运行时配置。\n");
    s.append("# bundle 里的 .env 优先级最高，其次是程序目录的 .env，然后是进程环境变量。\n\n");
    s.append("# ffmpeg / ffprobe 不要求在 PATH 中，可在这里直接指向可执行文件。\n");
    s.append("# FFMPEG_PATH=/usr/local/bin/ffmpeg\n");
    s.append("# FFPROBE_PATH=/usr/local/bin/ffprobe\n\n");
    s.append("# ComfyUI 节点。运行本程序的机器不需要 GPU，也可以指向另一台主机。\n");
    s.append("# COMFY_NODES=http://127.0.0.1:9001,http://127.0.0.1:9002\n");
    s.append("# COMFY_TIMEOUT_SECS=1800\n");
    s.append("# COMFY_POLL_INTERVAL_SECS=3\n\n");
    s.append("# 核心模型系列。\n");
    s.append("# CORE_MODEL_FAMILY=minimax_h3\n");
    s
}

} // verus!
