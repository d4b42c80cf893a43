//! Reading a Codex session record (a rollout: one JSON document per line).
//!
//! The MCP server only sees what it was asked to do; what happened on the
//! Codex side (tokens spent, which SKILL.md files were read, whether the
//! agent went around MCP and ran a shell command instead) is only in Codex's
//! own record. The end-to-end report merges the two: the server's trace for
//! stages and timing, the rollout for tokens and detours.
use vstd::prelude::*;
use crate::cards::{dedup, dedup_strings};
use crate::doctor::{lines, lines_of};
use crate::json::{Json, JsonView, Number};
use crate::json_text::{json_of_raw, json_text_document, parse_json_text};
use crate::order::{sort_strings, sorted_texts};
use crate::text::{
    chars_of, first_occurrence_from, find_from, occurs_at, occurs_at_exec, seq_contains,
    seq_ends_with, seq_starts_with, str_contains, str_ends_with, str_eq, str_starts_with, views_of,
};

verus! {

broadcast use vstd::string::group_string_axioms;

// ---------------------------------------------------------------------------
// What a tool call's arguments reveal.

/// A character of a skill name: ASCII letters and digits, `-` and `_`.
pub open spec fn is_name_char(c: char) -> bool {
    ('a' <= c <= 'z') || ('A' <= c <= 'Z') || ('0' <= c <= '9') || c == '-' || c == '_'
}

/// A character of a document path: a name character, `/` or `.`.
pub open spec fn is_path_char(c: char) -> bool {
    is_name_char(c) || c == '/' || c == '.'
}

/// The length of the run of name (or path) characters starting at `from`.
pub open spec fn run_len(s: Seq<char>, from: int, path: bool) -> nat
    decreases s.len() - from,
{
    if 0 <= from < s.len() && (if path {
        is_path_char(s[from])
    } else {
        is_name_char(s[from])
    }) {
        1 + run_len(s, from + 1, path)
    } else {
        0
    }
}

/// The skill named right after a `skills/` that ends at `start`, if its name
/// is followed by `/SKILL.md`.
pub open spec fn skill_at(s: Seq<char>, start: int) -> Seq<Seq<char>> {
    let n = run_len(s, start, false);
    if n > 0 && occurs_at(s, "/SKILL.md"@, start + n) {
        seq![s.subrange(start, start + n)]
    } else {
        Seq::empty()
    }
}

/// The path that starts at `p`, if it ends in `.md`.
pub open spec fn doc_at(s: Seq<char>, p: int) -> Seq<Seq<char>> {
    let path = s.subrange(p, p + run_len(s, p, true));
    if seq_ends_with(path, ".md"@) {
        seq![path]
    } else {
        Seq::empty()
    }
}

/// The skills read from `from` on: each `skills/<name>/SKILL.md`, in order.
#[verifier::opaque]
pub open spec fn skills_from(s: Seq<char>, from: int) -> Seq<Seq<char>>
    decreases s.len() - from,
{
    if from < 0 || from > s.len() {
        Seq::empty()
    } else {
        match first_occurrence_from(s, "skills/"@, from) {
            None => Seq::empty(),
            Some(p) => {
                let start = p + 7;
                if start <= from || start > s.len() {
                    Seq::empty()
                } else {
                    skill_at(s, start) + skills_from(s, start)
                }
            },
        }
    }
}

/// The documents under `prefix` read from `from` on: each run of path
/// characters that starts with the prefix and ends in `.md`, in order.
#[verifier::opaque]
pub open spec fn docs_from(s: Seq<char>, prefix: Seq<char>, from: int) -> Seq<Seq<char>>
    decreases s.len() - from,
{
    if from < 0 || from > s.len() || prefix.len() == 0 {
        Seq::empty()
    } else {
        match first_occurrence_from(s, prefix, from) {
            None => Seq::empty(),
            Some(p) => {
                let next = p + prefix.len();
                if next <= from || next > s.len() {
                    Seq::empty()
                } else {
                    doc_at(s, p) + docs_from(s, prefix, next)
                }
            },
        }
    }
}

/// The method documents and model cards read: `doctrine/…` then `models/…`.
pub open spec fn doctrine_in(s: Seq<char>) -> Seq<Seq<char>> {
    docs_from(s, "doctrine/"@, 0) + docs_from(s, "models/"@, 0)
}

proof fn lemma_skills_step(s: Seq<char>, from: int)
    requires
        0 <= from <= s.len(),
    ensures
        first_occurrence_from(s, "skills/"@, from) is None ==> skills_from(s, from) == Seq::<
            Seq<char>,
        >::empty(),
        first_occurrence_from(s, "skills/"@, from) matches Some(p) ==> (from <= p && occurs_at(
            s,
            "skills/"@,
            p,
        ) ==> skills_from(s, from) == skill_at(s, p + 7) + skills_from(s, p + 7)),
{
    reveal(skills_from);
    reveal_strlit("skills/");
}

proof fn lemma_docs_step(s: Seq<char>, prefix: Seq<char>, from: int)
    requires
        0 <= from <= s.len(),
        prefix.len() > 0,
    ensures
        first_occurrence_from(s, prefix, from) is None ==> docs_from(s, prefix, from) == Seq::<
            Seq<char>,
        >::empty(),
        first_occurrence_from(s, prefix, from) matches Some(p) ==> (from <= p && occurs_at(
            s,
            prefix,
            p,
        ) ==> docs_from(s, prefix, from) == doc_at(s, p) + docs_from(s, prefix, p + prefix.len())),
{
    reveal(docs_from);
}

fn is_run_char(ch: char, path: bool) -> (r: bool)
    ensures
        r == (if path {
            is_path_char(ch)
        } else {
            is_name_char(ch)
        }),
{
    ('a' <= ch && ch <= 'z') || ('A' <= ch && ch <= 'Z') || ('0' <= ch && ch <= '9') || ch == '-'
        || ch == '_' || (path && (ch == '/' || ch == '.'))
}

fn run_len_exec(c: &Vec<char>, from: usize, path: bool) -> (r: usize)
    requires
        from <= c@.len(),
    ensures
        r == run_len(c@, from as int, path),
        from + r <= c@.len(),
{
    let mut j: usize = from;
    while j < c.len() && is_run_char(c[j], path)
        invariant
            from <= j <= c@.len(),
            forall|m: int| from <= m < j ==> (if path {
                is_path_char(c@[m])
            } else {
                is_name_char(c@[m])
            }),
        decreases c.len() - j,
    {
        j = j + 1;
    }
    proof {
        lemma_run_len(c@, from as int, j as int, path);
    }
    j - from
}

proof fn lemma_run_len(s: Seq<char>, from: int, j: int, path: bool)
    requires
        0 <= from <= j <= s.len(),
        forall|m: int| from <= m < j ==> (if path {
            is_path_char(s[m])
        } else {
            is_name_char(s[m])
        }),
        j < s.len() ==> !(if path {
            is_path_char(s[j])
        } else {
            is_name_char(s[j])
        }),
    ensures
        run_len(s, from, path) == j - from,
    decreases j - from,
{
    if from < j {
        lemma_run_len(s, from + 1, j, path);
    }
}

fn push_skill_at(c: &Vec<char>, tail: &Vec<char>, text: &str, start: usize, out: &mut Vec<String>)
    requires
        c@ == text@,
        tail@ == "/SKILL.md"@,
        start <= c@.len(),
    ensures
        views_of(final(out)@) == views_of(old(out)@) + skill_at(c@, start as int),
{
    let len = c.len();
    let n = run_len_exec(c, start, false);
    if n > 0 && occurs_at_exec(c, tail, start + n) {
        out.push(String::from_str(text.substring_char(start, start + n)));
    }
    assert(views_of(out@) =~= views_of(old(out)@) + skill_at(c@, start as int));
}

fn push_doc_at(c: &Vec<char>, text: &str, p: usize, out: &mut Vec<String>)
    requires
        c@ == text@,
        p <= c@.len(),
    ensures
        views_of(final(out)@) == views_of(old(out)@) + doc_at(c@, p as int),
{
    proof {
        reveal_strlit(".md");
    }
    let len = c.len();
    let n = run_len_exec(c, p, true);
    let path = text.substring_char(p, p + n);
    if str_ends_with(path, ".md") {
        out.push(String::from_str(path));
    }
    assert(views_of(out@) =~= views_of(old(out)@) + doc_at(c@, p as int));
}

/// Appends the skills that the text reads, in order.
#[verifier::rlimit(50)]
fn collect_skills(c: &Vec<char>, text: &str, out: &mut Vec<String>)
    requires
        c@ == text@,
    ensures
        views_of(final(out)@) == views_of(old(out)@) + skills_from(c@, 0),
{
    proof {
        reveal_strlit("skills/");
        reveal_strlit("/SKILL.md");
    }
    let needle = chars_of("skills/");
    let tail = chars_of("/SKILL.md");
    let ghost whole = views_of(old(out)@) + skills_from(c@, 0);
    let mut idx: usize = 0;
    loop
        invariant
            c@ == text@,
            needle@ == "skills/"@,
            needle@.len() == 7,
            tail@ == "/SKILL.md"@,
            idx <= c@.len(),
            whole == views_of(old(out)@) + skills_from(c@, 0),
            whole == views_of(out@) + skills_from(c@, idx as int),
        decreases c.len() - idx,
    {
        proof {
            lemma_skills_step(c@, idx as int);
        }
        let len = c.len();
        let found = find_from(c, &needle, idx);
        match found {
            None => {
                assert(views_of(out@) + skills_from(c@, idx as int) =~= views_of(out@));
                return;
            },
            Some(p) => {
                assert(first_occurrence_from(c@, "skills/"@, idx as int) == Some(p as int));
                assert(occurs_at(c@, needle@, p as int));
                assert(needle@.len() == 7);
                let start = p + 7;
                let ghost before = views_of(out@);
                push_skill_at(c, &tail, text, start, out);
                assert(before + skills_from(c@, idx as int) == before + (skill_at(c@, start as int)
                    + skills_from(c@, start as int)));
                assert(views_of(out@) + skills_from(c@, start as int) =~= before + skills_from(
                    c@,
                    idx as int,
                ));
                idx = start;
            },
        }
    }
}

/// Appends the documents under `prefix` that the text reads, in order.
#[verifier::rlimit(50)]
fn collect_docs(c: &Vec<char>, text: &str, prefix: &str, out: &mut Vec<String>)
    requires
        c@ == text@,
        prefix@.len() > 0,
    ensures
        views_of(final(out)@) == views_of(old(out)@) + docs_from(c@, prefix@, 0),
{
    proof {
        reveal_strlit(".md");
    }
    let needle = chars_of(prefix);
    let plen = needle.len();
    let ghost whole = views_of(old(out)@) + docs_from(c@, prefix@, 0);
    let mut idx: usize = 0;
    loop
        invariant
            c@ == text@,
            needle@ == prefix@,
            plen == prefix@.len(),
            plen > 0,
            idx <= c@.len(),
            whole == views_of(old(out)@) + docs_from(c@, prefix@, 0),
            whole == views_of(out@) + docs_from(c@, prefix@, idx as int),
        decreases c.len() - idx,
    {
        proof {
            lemma_docs_step(c@, prefix@, idx as int);
        }
        let len = c.len();
        let found = find_from(c, &needle, idx);
        match found {
            None => {
                assert(views_of(out@) + docs_from(c@, prefix@, idx as int) =~= views_of(out@));
                return;
            },
            Some(p) => {
                assert(first_occurrence_from(c@, prefix@, idx as int) == Some(p as int));
                let ghost before = views_of(out@);
                push_doc_at(c, text, p, out);
                assert(before + docs_from(c@, prefix@, idx as int) == before + (doc_at(c@, p as int)
                    + docs_from(c@, prefix@, p + plen)));
                assert(views_of(out@) + docs_from(c@, prefix@, (p + plen) as int) =~= before
                    + docs_from(c@, prefix@, idx as int));
                idx = p + plen;
            },
        }
    }
}

/// Where a tool call counts.
#[derive(Debug, Clone, Copy, PartialEq, Eq, Structural)]
pub enum CallKind {
    StudioMcp,
    OtherMcp,
    Shell,
    Web,
    Other,
}

/// The legacy records carry no tool name: only the arguments can tell.
pub open spec fn kind_by_args(a: Seq<char>) -> CallKind {
    if seq_contains(a, "studio."@) || (seq_contains(a, "studio_"@) && seq_contains(a, "mcp"@)) {
        CallKind::StudioMcp
    } else if seq_contains(a, "mcp__"@) {
        CallKind::OtherMcp
    } else if seq_contains(a, "exec_command"@) || seq_contains(a, "write_stdin"@) {
        CallKind::Shell
    } else if seq_contains(a, "web__run"@) || seq_contains(a, "web_search"@) {
        CallKind::Web
    } else {
        CallKind::Other
    }
}

/// Classifies a call by the tool's **name** and namespace, not by what its
/// arguments happen to contain: a bundle directory is called
/// `<name>.studio/`, so matching `studio.` in arguments counts every file
/// read as an MCP call, and `exec_command` appears only in the name.
pub open spec fn call_kind(name: Seq<char>, namespace: Seq<char>, args: Seq<char>) -> CallKind {
    if name.len() == 0 && namespace.len() == 0 {
        kind_by_args(args)
    } else {
        let mcp = seq_starts_with(namespace, "mcp__"@) || seq_starts_with(name, "mcp__"@);
        let studio = seq_contains(namespace, "video_studio"@) || seq_contains(
            namespace,
            "video-studio"@,
        ) || seq_starts_with(name, "studio_"@) || seq_starts_with(name, "studio."@);
        let wrapped = !mcp && seq_contains(args, "mcp__"@) && seq_contains(args, "studio"@);
        if studio || wrapped {
            CallKind::StudioMcp
        } else if mcp {
            CallKind::OtherMcp
        } else if seq_contains(name, "exec"@) || seq_contains(name, "shell"@) || seq_contains(
            name,
            "write_stdin"@,
        ) {
            CallKind::Shell
        } else if seq_contains(name, "web"@) || seq_contains(name, "search"@) {
            CallKind::Web
        } else {
            CallKind::Other
        }
    }
}

/// A named call that goes to neither the studio nor another MCP server is a
/// shell call whenever its name mentions `shell`, `exec` or `write_stdin`
/// (Codex's `shell`, `exec_command`, `write_stdin` tools); and only such a
/// name makes a named call a shell call.
pub proof fn lemma_shell_tools_are_shell_calls(name: Seq<char>, namespace: Seq<char>, args: Seq<char>)
    ensures
        ({
            let named = name.len() > 0 || namespace.len() > 0;
            let to_mcp = seq_starts_with(namespace, "mcp__"@) || seq_starts_with(name, "mcp__"@);
            let to_studio = seq_contains(namespace, "video_studio"@) || seq_contains(namespace, "video-studio"@)
                || seq_starts_with(name, "studio_"@) || seq_starts_with(name, "studio."@)
                || (seq_contains(args, "mcp__"@) && seq_contains(args, "studio"@));
            let shell_name = seq_contains(name, "shell"@) || seq_contains(name, "exec"@) || seq_contains(
                name,
                "write_stdin"@,
            );
            &&& named && !to_mcp && !to_studio && shell_name ==> call_kind(name, namespace, args)
                == CallKind::Shell
            &&& named && call_kind(name, namespace, args) == CallKind::Shell ==> shell_name
        }),
{
}

fn classify_by_args(a: &str) -> (r: CallKind)
    ensures
        r == kind_by_args(a@),
{
    if str_contains(a, "studio.") || (str_contains(a, "studio_") && str_contains(a, "mcp")) {
        CallKind::StudioMcp
    } else if str_contains(a, "mcp__") {
        CallKind::OtherMcp
    } else if str_contains(a, "exec_command") || str_contains(a, "write_stdin") {
        CallKind::Shell
    } else if str_contains(a, "web__run") || str_contains(a, "web_search") {
        CallKind::Web
    } else {
        CallKind::Other
    }
}

/// Where a tool call counts.
pub fn classify(name: &str, namespace: &str, args: &str) -> (r: CallKind)
    ensures
        r == call_kind(name@, namespace@, args@),
{
    if name.unicode_len() == 0 && namespace.unicode_len() == 0 {
        return classify_by_args(args);
    }
    let mcp = str_starts_with(namespace, "mcp__") || str_starts_with(name, "mcp__");
    let studio = str_contains(namespace, "video_studio") || str_contains(namespace, "video-studio")
        || str_starts_with(name, "studio_") || str_starts_with(name, "studio.");
    let wrapped = !mcp && str_contains(args, "mcp__") && str_contains(args, "studio");
    if studio || wrapped {
        CallKind::StudioMcp
    } else if mcp {
        CallKind::OtherMcp
    } else if str_contains(name, "exec") || str_contains(name, "shell") || str_contains(
        name,
        "write_stdin",
    ) {
        CallKind::Shell
    } else if str_contains(name, "web") || str_contains(name, "search") {
        CallKind::Web
    } else {
        CallKind::Other
    }
}

/// Signs of going around MCP, the first that matches. Going around MCP is
/// what this project was rewritten to stop, so the report names it.
pub open spec fn bypass_of(a: Seq<char>) -> Option<Seq<char>> {
    if seq_contains(a, ".studio/studio.db"@) {
        Some("直接读写状态库 .studio/studio.db"@)
    } else if seq_contains(a, ".studio/studiod.lock"@) {
        Some("直接碰锁文件"@)
    } else if seq_contains(a, "UPDATE "@) {
        Some("在会话里执行了 SQL UPDATE"@)
    } else if seq_contains(a, "sqlite3"@) {
        Some("直接使用 sqlite3"@)
    } else if seq_contains(a, "studiod submit"@) {
        Some("试图用 CLI 推进阶段"@)
    } else {
        None
    }
}

pub fn sniff_bypass(a: &str) -> (r: Option<String>)
    ensures
        match bypass_of(a@) {
            Some(d) => r matches Some(x) && x@ == d,
            None => r is None,
        },
{
    let patterns: [(&'static str, &'static str); 5] = [
        (".studio/studio.db", "直接读写状态库 .studio/studio.db"),
        (".studio/studiod.lock", "直接碰锁文件"),
        ("UPDATE ", "在会话里执行了 SQL UPDATE"),
        ("sqlite3", "直接使用 sqlite3"),
        ("studiod submit", "试图用 CLI 推进阶段"),
    ];
    if str_contains(a, patterns[0].0) {
        Some(String::from_str(patterns[0].1))
    } else if str_contains(a, patterns[1].0) {
        Some(String::from_str(patterns[1].1))
    } else if str_contains(a, patterns[2].0) {
        Some(String::from_str(patterns[2].1))
    } else if str_contains(a, patterns[3].0) {
        Some(String::from_str(patterns[3].1))
    } else if str_contains(a, patterns[4].0) {
        Some(String::from_str(patterns[4].1))
    } else {
        None
    }
}

// ---------------------------------------------------------------------------
// The session.

/// Token use. `token_count` events are cumulative: a later one replaces an
/// earlier one.
#[derive(Debug, Clone, Copy, PartialEq, Eq, Structural)]
pub struct Tokens {
    pub input: u64,
    pub cached_input: u64,
    pub output: u64,
    pub reasoning_output: u64,
    pub total: u64,
    /// The model's context window, to see how full it got.
    pub context_window: Option<u64>,
}

/// Tool calls by where they went.
#[derive(Debug, Clone, Copy, PartialEq, Eq, Structural)]
pub struct CodexCalls {
    /// Calls to this project's MCP tools.
    pub studio_mcp: usize,
    /// Other MCP servers.
    pub other_mcp: usize,
    /// Local commands.
    pub shell: usize,
    pub web: usize,
    pub other: usize,
}

/// What a Codex session record shows.
#[derive(Debug, Clone, PartialEq)]
pub struct Rollout {
    pub source: String,
    pub session_id: Option<String>,
    pub model: Option<String>,
    pub started_at: Option<String>,
    pub ended_at: Option<String>,
    pub user_messages: usize,
    pub assistant_messages: usize,
    pub reasoning_blocks: usize,
    pub tokens: Tokens,
    pub calls: CodexCalls,
    /// The SKILL.md files read: the only way to see whether a skill was used.
    pub skills_read: Vec<String>,
    /// The method documents and model cards read, likewise.
    pub doctrine_read: Vec<String>,
    /// Signs of going around MCP: touching `.studio/`, running `studiod`
    /// subcommands, editing `stages/`.
    pub bypasses: Vec<String>,
}

/// A session's record as plain values, while it is read: the skills and
/// documents in the order they were met.
pub struct RolloutView {
    pub session_id: Option<Seq<char>>,
    pub model: Option<Seq<char>>,
    pub started_at: Option<Seq<char>>,
    pub ended_at: Option<Seq<char>>,
    pub user_messages: int,
    pub assistant_messages: int,
    pub reasoning_blocks: int,
    pub tokens: Tokens,
    pub calls: (int, int, int, int, int),
    pub skills: Seq<Seq<char>>,
    pub doctrine: Seq<Seq<char>>,
    pub bypasses: Seq<Seq<char>>,
}

pub open spec fn opt_seq(o: Option<String>) -> Option<Seq<char>> {
    match o {
        Some(s) => Some(s@),
        None => None,
    }
}

/// What a session summary says of its records: every counter and list as
/// the records leave them.
pub open spec fn summarizes(r: Rollout, records: Seq<Json>) -> bool {
    let st = state_after(records);
    &&& opt_seq(r.session_id) == st.session_id
    &&& opt_seq(r.model) == st.model
    &&& opt_seq(r.started_at) == st.started_at
    &&& opt_seq(r.ended_at) == st.ended_at
    &&& r.user_messages == st.user_messages
    &&& r.assistant_messages == st.assistant_messages
    &&& r.reasoning_blocks == st.reasoning_blocks
    &&& r.tokens == st.tokens
    &&& (r.calls.studio_mcp as int, r.calls.other_mcp as int, r.calls.shell as int, r.calls.web as int, r.calls.other as int) == st.calls
    &&& views_of(r.skills_read@) == as_set(st.skills)
    &&& views_of(r.doctrine_read@) == as_set(st.doctrine)
    &&& views_of(r.bypasses@) == st.bypasses
}

/// The records of a session file: each line that is a JSON document whose
/// numbers the library holds, in order; the other lines are left out.
pub open spec fn text_records(lines: Seq<Seq<char>>, n: int) -> Seq<JsonView>
    decreases n,
{
    if n <= 0 || n > lines.len() {
        Seq::empty()
    } else {
        let rest = text_records(lines, n - 1);
        match json_text_document(lines[n - 1]) {
            Some(d) => match json_of_raw(d) {
                Some(j) => rest.push(j),
                None => rest,
            },
            None => rest,
        }
    }
}

pub open spec fn json_models(v: Seq<Json>) -> Seq<JsonView> {
    v.map_values(|j: Json| j.model())
}

/// The sum of a tally of calls.
pub open spec fn calls_total(c: (int, int, int, int, int)) -> int {
    c.0 + c.1 + c.2 + c.3 + c.4
}

/// Each tool call is counted once, under exactly one kind: the total goes up
/// by one, and only the counter of the call's kind moves.
pub proof fn lemma_one_call_one_count(st: RolloutView, payload: Json)
    ensures
        calls_total(after_tool_call(st, payload).calls) == calls_total(st.calls) + 1,
        ({
            let a = after_tool_call(st, payload).calls;
            let c = st.calls;
            (a.0 != c.0) as int + (a.1 != c.1) as int + (a.2 != c.2) as int + (a.3 != c.3) as int + (a.4
                != c.4) as int == 1
        }),
{
}

impl Rollout {
    pub open spec fn state(self) -> RolloutView {
        RolloutView {
            session_id: opt_seq(self.session_id),
            model: opt_seq(self.model),
            started_at: opt_seq(self.started_at),
            ended_at: opt_seq(self.ended_at),
            user_messages: self.user_messages as int,
            assistant_messages: self.assistant_messages as int,
            reasoning_blocks: self.reasoning_blocks as int,
            tokens: self.tokens,
            calls: (
                self.calls.studio_mcp as int,
                self.calls.other_mcp as int,
                self.calls.shell as int,
                self.calls.web as int,
                self.calls.other as int,
            ),
            skills: views_of(self.skills_read@),
            doctrine: views_of(self.doctrine_read@),
            bypasses: views_of(self.bypasses@),
        }
    }

    /// Every counter has room for one more.
    pub open spec fn has_room(self) -> bool {
        self.user_messages < usize::MAX && self.assistant_messages < usize::MAX
            && self.reasoning_blocks < usize::MAX && self.calls.studio_mcp < usize::MAX
            && self.calls.other_mcp < usize::MAX && self.calls.shell < usize::MAX
            && self.calls.web < usize::MAX && self.calls.other < usize::MAX
    }
}

/// `v[key].as_str()`.
pub open spec fn text_at(v: Json, key: Seq<char>) -> Option<Seq<char>> {
    match v.field(key) {
        Some(x) => x.str_of(),
        None => None,
    }
}

/// `v[key].as_u64()`: a non-negative integer that fits in 64 bits.
pub open spec fn u64_at(v: Json, key: Seq<char>) -> Option<u64> {
    match v.field(key) {
        Some(Json::Num(Number::Int(i))) => if 0 <= i <= u64::MAX {
            Some(i as u64)
        } else {
            None
        },
        _ => None,
    }
}

pub open spec fn or_zero(o: Option<u64>) -> u64 {
    match o {
        Some(x) => x,
        None => 0,
    }
}

/// A `token_count` payload: the context window when given, and the totals
/// when given (a missing total counts as zero).
pub open spec fn tokens_after(payload: Json, t: Tokens) -> Tokens {
    match payload.field("info"@) {
        None => t,
        Some(info) => {
            let t1 = match u64_at(info, "model_context_window"@) {
                Some(w) => Tokens { context_window: Some(w), ..t },
                None => t,
            };
            match info.field("total_token_usage"@) {
                None => t1,
                Some(total) => Tokens {
                    input: or_zero(u64_at(total, "input_tokens"@)),
                    cached_input: or_zero(u64_at(total, "cached_input_tokens"@)),
                    output: or_zero(u64_at(total, "output_tokens"@)),
                    reasoning_output: or_zero(u64_at(total, "reasoning_output_tokens"@)),
                    total: or_zero(u64_at(total, "total_tokens"@)),
                    context_window: t1.context_window,
                },
            }
        },
    }
}

/// The arguments of a tool call: `input` in older records, `arguments` in
/// newer ones. Reading only one of them files a whole session of the other
/// kind under `other`, and leaves `bypasses` empty: a false pass.
pub open spec fn args_of(payload: Json) -> Seq<char> {
    match payload.field("input"@) {
        Some(x) => match x.str_of() {
            Some(s) => s,
            None => Seq::empty(),
        },
        None => match text_at(payload, "arguments"@) {
            Some(s) => s,
            None => Seq::empty(),
        },
    }
}

pub open spec fn text_or_empty(o: Option<Seq<char>>) -> Seq<char> {
    match o {
        Some(s) => s,
        None => Seq::empty(),
    }
}

/// One tool call: counted by where it went, and read for skills, documents
/// and detours.
pub open spec fn after_tool_call(st: RolloutView, payload: Json) -> RolloutView {
    let args = args_of(payload);
    let kind = call_kind(
        text_or_empty(text_at(payload, "name"@)),
        text_or_empty(text_at(payload, "namespace"@)),
        args,
    );
    let c = st.calls;
    RolloutView {
        calls: match kind {
            CallKind::StudioMcp => (c.0 + 1, c.1, c.2, c.3, c.4),
            CallKind::OtherMcp => (c.0, c.1 + 1, c.2, c.3, c.4),
            CallKind::Shell => (c.0, c.1, c.2 + 1, c.3, c.4),
            CallKind::Web => (c.0, c.1, c.2, c.3 + 1, c.4),
            CallKind::Other => (c.0, c.1, c.2, c.3, c.4 + 1),
        },
        skills: st.skills + skills_from(args, 0),
        doctrine: st.doctrine + doctrine_in(args),
        bypasses: match bypass_of(args) {
            Some(b) => if st.bypasses.contains(b) {
                st.bypasses
            } else {
                st.bypasses.push(b)
            },
            None => st.bypasses,
        },
        ..st
    }
}

pub open spec fn is_tool_call(t: Option<Seq<char>>) -> bool {
    t == Some("custom_tool_call"@) || t == Some("function_call"@) || t == Some(
        "local_shell_call"@,
    )
}

/// One line of the record.
pub open spec fn after_record(st: RolloutView, v: Json) -> RolloutView {
    let ts = text_at(v, "timestamp"@);
    let st1 = RolloutView {
        started_at: if st.started_at is None {
            ts
        } else {
            st.started_at
        },
        ended_at: if ts is Some {
            ts
        } else {
            st.ended_at
        },
        ..st
    };
    let payload = match v.field("payload"@) {
        Some(p) => p,
        None => Json::Null,
    };
    let t = text_at(v, "type"@);
    if t == Some("session_meta"@) {
        RolloutView { session_id: text_at(payload, "session_id"@), ..st1 }
    } else if t == Some("turn_context"@) {
        if st1.model is None {
            RolloutView { model: text_at(payload, "model"@), ..st1 }
        } else {
            st1
        }
    } else if t == Some("event_msg"@) {
        if text_at(payload, "type"@) == Some("token_count"@) {
            RolloutView { tokens: tokens_after(payload, st1.tokens), ..st1 }
        } else {
            st1
        }
    } else if t == Some("response_item"@) {
        let pt = text_at(payload, "type"@);
        if pt == Some("message"@) {
            let role = text_at(payload, "role"@);
            if role == Some("user"@) {
                RolloutView { user_messages: st1.user_messages + 1, ..st1 }
            } else if role == Some("assistant"@) {
                RolloutView { assistant_messages: st1.assistant_messages + 1, ..st1 }
            } else {
                st1
            }
        } else if pt == Some("reasoning"@) {
            RolloutView { reasoning_blocks: st1.reasoning_blocks + 1, ..st1 }
        } else if is_tool_call(pt) {
            after_tool_call(st1, payload)
        } else {
            st1
        }
    } else {
        st1
    }
}


fn text_at_exec<'a>(v: &'a Json, key: &str) -> (r: Option<&'a str>)
    ensures
        match r {
            Some(x) => text_at(*v, key@) == Some(x@),
            None => text_at(*v, key@) is None,
        },
{
    match v.get(key) {
        Some(x) => x.as_str(),
        None => None,
    }
}

fn is_text(o: Option<&str>, lit: &str) -> (r: bool)
    ensures
        r == (match o {
            Some(x) => x@ == lit@,
            None => false,
        }),
{
    match o {
        Some(x) => str_eq(x, lit),
        None => false,
    }
}

fn u64_at_exec(v: &Json, key: &str) -> (r: Option<u64>)
    ensures
        r == u64_at(*v, key@),
{
    match v.get(key) {
        Some(Json::Num(Number::Int(i))) => if 0 <= *i && *i <= 0xffff_ffff_ffff_ffff {
            Some(*i as u64)
        } else {
            None
        },
        _ => None,
    }
}

fn tokens_after_exec(payload: &Json, t: Tokens) -> (r: Tokens)
    ensures
        r == tokens_after(*payload, t),
{
    let info = match payload.get("info") {
        Some(i) => i,
        None => {
            return t;
        },
    };
    let mut t1 = t;
    match u64_at_exec(info, "model_context_window") {
        Some(w) => {
            t1.context_window = Some(w);
        },
        None => {},
    }
    let total = match info.get("total_token_usage") {
        Some(x) => x,
        None => {
            return t1;
        },
    };
    let z = |o: Option<u64>| -> (r: u64)
        ensures
            r == or_zero(o),
        {
            match o {
                Some(x) => x,
                None => 0,
            }
        };
    Tokens {
        input: z(u64_at_exec(total, "input_tokens")),
        cached_input: z(u64_at_exec(total, "cached_input_tokens")),
        output: z(u64_at_exec(total, "output_tokens")),
        reasoning_output: z(u64_at_exec(total, "reasoning_output_tokens")),
        total: z(u64_at_exec(total, "total_tokens")),
        context_window: t1.context_window,
    }
}

fn args_of_exec(payload: &Json) -> (r: &str)
    ensures
        r@ == args_of(*payload),
{
    proof {
        reveal_strlit("");
    }
    match payload.get("input") {
        Some(x) => match x.as_str() {
            Some(s) => s,
            None => "",
        },
        None => match text_at_exec(payload, "arguments") {
            Some(s) => s,
            None => "",
        },
    }
}

pub(crate) fn contains_text(v: &Vec<String>, s: &str) -> (r: bool)
    ensures
        r == views_of(v@).contains(s@),
{
    let mut i: usize = 0;
    while i < v.len()
        invariant
            i <= v@.len(),
            forall|k: int| 0 <= k < i ==> v@[k]@ != s@,
        decreases v.len() - i,
    {
        if str_eq(v[i].as_str(), s) {
            assert(views_of(v@)[i as int] == s@);
            return true;
        }
        i = i + 1;
    }
    assert forall|k: int| 0 <= k < views_of(v@).len() implies views_of(v@)[k] != s@ by {
        assert(views_of(v@)[k] == v@[k]@);
    }
    false
}

fn tool_call(r: &mut Rollout, payload: &Json)
    requires
        old(r).has_room(),
    ensures
        final(r).state() == after_tool_call(old(r).state(), *payload),
        final(r).source == old(r).source,
{
    proof {
        reveal_strlit("");
        reveal_strlit("doctrine/");
        reveal_strlit("models/");
    }
    let args = args_of_exec(payload);
    let name = match text_at_exec(payload, "name") {
        Some(x) => x,
        None => "",
    };
    let namespace = match text_at_exec(payload, "namespace") {
        Some(x) => x,
        None => "",
    };
    match classify(name, namespace, args) {
        CallKind::StudioMcp => r.calls.studio_mcp = r.calls.studio_mcp + 1,
        CallKind::OtherMcp => r.calls.other_mcp = r.calls.other_mcp + 1,
        CallKind::Shell => r.calls.shell = r.calls.shell + 1,
        CallKind::Web => r.calls.web = r.calls.web + 1,
        CallKind::Other => r.calls.other = r.calls.other + 1,
    }
    let c = chars_of(args);
    collect_skills(&c, args, &mut r.skills_read);
    let ghost d0 = views_of(r.doctrine_read@);
    collect_docs(&c, args, "doctrine/", &mut r.doctrine_read);
    collect_docs(&c, args, "models/", &mut r.doctrine_read);
    assert(views_of(r.doctrine_read@) =~= d0 + doctrine_in(args@));
    match sniff_bypass(args) {
        Some(b) => {
            if !contains_text(&r.bypasses, b.as_str()) {
                let ghost b0 = views_of(r.bypasses@);
                r.bypasses.push(b);
                assert(views_of(r.bypasses@) =~= b0.push(b@));
            }
        },
        None => {},
    }
    let ghost want = after_tool_call(old(r).state(), *payload);
    assert(name@ == text_or_empty(text_at(*payload, "name"@)));
    assert(namespace@ == text_or_empty(text_at(*payload, "namespace"@)));
    assert(r.state().calls == want.calls);
    assert(r.state().skills == want.skills);
    assert(r.state().doctrine == want.doctrine);
    assert(r.state().bypasses == want.bypasses);
    assert(r.state() == want);
}

/// Takes one line of the record into account.
pub fn absorb(r: &mut Rollout, v: &Json)
    requires
        old(r).has_room(),
    ensures
        final(r).state() == after_record(old(r).state(), *v),
        final(r).source == old(r).source,
{
    let ts = text_at_exec(v, "timestamp");
    if r.started_at.is_none() {
        r.started_at = match ts {
            Some(x) => Some(String::from_str(x)),
            None => None,
        };
    }
    match ts {
        Some(x) => {
            r.ended_at = Some(String::from_str(x));
        },
        None => {},
    }
    let null = Json::Null;
    let payload = match v.get("payload") {
        Some(p) => p,
        None => &null,
    };
    let t = text_at_exec(v, "type");
    if is_text(t, "session_meta") {
        r.session_id = match text_at_exec(payload, "session_id") {
            Some(x) => Some(String::from_str(x)),
            None => None,
        };
    } else if is_text(t, "turn_context") {
        if r.model.is_none() {
            r.model = match text_at_exec(payload, "model") {
                Some(x) => Some(String::from_str(x)),
                None => None,
            };
        }
    } else if is_text(t, "event_msg") {
        if is_text(text_at_exec(payload, "type"), "token_count") {
            r.tokens = tokens_after_exec(payload, r.tokens);
        }
    } else if is_text(t, "response_item") {
        let pt = text_at_exec(payload, "type");
        if is_text(pt, "message") {
            let role = text_at_exec(payload, "role");
            if is_text(role, "user") {
                r.user_messages = r.user_messages + 1;
            } else if is_text(role, "assistant") {
                r.assistant_messages = r.assistant_messages + 1;
            }
        } else if is_text(pt, "reasoning") {
            r.reasoning_blocks = r.reasoning_blocks + 1;
        } else if is_text(pt, "custom_tool_call") || is_text(pt, "function_call") || is_text(
            pt,
            "local_shell_call",
        ) {
            tool_call(r, payload);
        }
    }
}

pub open spec fn empty_state() -> RolloutView {
    RolloutView {
        session_id: None,
        model: None,
        started_at: None,
        ended_at: None,
        user_messages: 0,
        assistant_messages: 0,
        reasoning_blocks: 0,
        tokens: Tokens {
            input: 0,
            cached_input: 0,
            output: 0,
            reasoning_output: 0,
            total: 0,
            context_window: None,
        },
        calls: (0, 0, 0, 0, 0),
        skills: Seq::empty(),
        doctrine: Seq::empty(),
        bypasses: Seq::empty(),
    }
}

/// The record read line by line.
pub open spec fn state_after(records: Seq<Json>) -> RolloutView
    decreases records.len(),
{
    if records.len() == 0 {
        empty_state()
    } else {
        after_record(state_after(records.drop_last()), records.last())
    }
}

/// A set of names as a sorted list without repeats.
pub open spec fn as_set(s: Seq<Seq<char>>) -> Seq<Seq<char>> {
    dedup(sorted_texts(s))
}

impl Rollout {
    /// Reads a session record: its lines parsed as JSON, the lines that are
    /// not JSON left out (a broken line does not spoil the rest). The skills
    /// and documents read come out sorted and without repeats.
    pub fn from_records(source: String, records: &Vec<Json>) -> (r: Rollout)
        ensures
            r.source@ == source@,
            summarizes(r, records@),
    {
        let mut r = Rollout {
            source,
            session_id: None,
            model: None,
            started_at: None,
            ended_at: None,
            user_messages: 0,
            assistant_messages: 0,
            reasoning_blocks: 0,
            tokens: Tokens {
                input: 0,
                cached_input: 0,
                output: 0,
                reasoning_output: 0,
                total: 0,
                context_window: None,
            },
            calls: CodexCalls { studio_mcp: 0, other_mcp: 0, shell: 0, web: 0, other: 0 },
            skills_read: Vec::new(),
            doctrine_read: Vec::new(),
            bypasses: Vec::new(),
        };
        let ghost src = r.source;
        assert(views_of(r.skills_read@) =~= Seq::<Seq<char>>::empty());
        assert(views_of(r.doctrine_read@) =~= Seq::<Seq<char>>::empty());
        assert(views_of(r.bypasses@) =~= Seq::<Seq<char>>::empty());
        assert(r.state() == empty_state());
        let n = records.len();
        let mut i: usize = 0;
        while i < n
            invariant
                n == records@.len(),
                i <= n,
                r.source == src,
                r.state() == state_after(records@.subrange(0, i as int)),
                r.user_messages <= i && r.assistant_messages <= i && r.reasoning_blocks <= i,
                r.calls.studio_mcp <= i && r.calls.other_mcp <= i && r.calls.shell <= i
                    && r.calls.web <= i && r.calls.other <= i,
            decreases n - i,
        {
            assert(records@.subrange(0, i + 1).drop_last() =~= records@.subrange(0, i as int));
            assert(records@.subrange(0, i + 1).last() == records@[i as int]);
            absorb(&mut r, &records[i]);
            i = i + 1;
        }
        assert(records@.subrange(0, n as int) =~= records@);
        let skills = dedup_strings(&sort_strings(r.skills_read));
        let doctrine = dedup_strings(&sort_strings(r.doctrine_read));
        Rollout { skills_read: skills, doctrine_read: doctrine, ..r }
    }
}

/// Each detour is named once, however often the session repeats it.
pub proof fn lemma_bypasses_named_once(records: Seq<Json>)
    ensures
        forall|i: int, j: int|
            0 <= i < j < state_after(records).bypasses.len() ==> state_after(records).bypasses[i]
                != state_after(records).bypasses[j],
    decreases records.len(),
{
    if records.len() > 0 {
        lemma_bypasses_named_once(records.drop_last());
        let st = state_after(records.drop_last());
        let b = state_after(records).bypasses;
        assert forall|i: int, j: int| 0 <= i < j < b.len() implies b[i] != b[j] by {
            if j >= st.bypasses.len() {
                assert(b[j] == b.last());
                if b[i] == b[j] {
                    assert(st.bypasses[i] == b[i]);
                    assert(st.bypasses.contains(b[j]));
                }
            } else {
                assert(b[i] == st.bypasses[i]);
                assert(b[j] == st.bypasses[j]);
            }
        }
    }
}

impl Rollout {
    /// Reads a session file's text: each line is parsed as JSON, a line
    /// that is not JSON is left out (a broken line does not spoil the rest).
    pub fn from_text(source: String, text: &str) -> (r: Rollout)
        ensures
            r.source@ == source@,
            exists|records: Seq<Json>|
                json_models(records) == text_records(lines_of(text@), lines_of(text@).len() as int)
                    && summarizes(r, records),
    {
        let ls = lines(text);
        let ghost lv = views_of(ls@);
        let mut recs: Vec<Json> = Vec::new();
        let mut i: usize = 0;
        while i < ls.len()
            invariant
                lv == views_of(ls@),
                lv == lines_of(text@),
                i <= ls@.len(),
                json_models(recs@) == text_records(lv, i as int),
            decreases ls.len() - i,
        {
            let ghost before = json_models(recs@);
            match parse_json_text(ls[i].as_str()) {
                Ok(raw) => match Json::from_raw(&raw) {
                    Some(j) => {
                        recs.push(j);
                        assert(json_models(recs@) =~= before.push(j.model()));
                    },
                    None => {},
                },
                Err(_) => {},
            }
            i = i + 1;
        }
        let r = Rollout::from_records(source, &recs);
        r
    }
}

} // verus!
