use video_studio::config_toml::{parse_toml, TomlValue};
use video_studio::assets::codex_config;
use video_studio::comfy::NodeHealth;
use video_studio::doctor::{
    codex_config_check, image_baselines_check, nodes_check, referenced_command, render, report,
    tool_check, tool_version, baseline_text_verified, baseline_verified, Check, CodexConfig, Level, Report, ToolStatus,
};
use video_studio::json::Json;

const DIR: &str = "/opt/studio/assets/workflows/z_image";

#[test]
fn a_missing_image_baseline_is_a_warning_not_a_failure() {
    let c = image_baselines_check(DIR, None, None);
    assert_eq!(c.level, Level::Warn, "{:?}", c);
    assert!(c.detail.contains("t2i"));
    assert_eq!(c.detail, "缺 t2i 与 edit");
    assert!(c.remedy.unwrap().contains("planned"));
}

#[test]
fn an_unverified_baseline_still_counts_as_not_ready() {
    let c = image_baselines_check(DIR, Some(true), Some(false));
    assert_eq!(c.level, Level::Warn);
    assert!(c.detail.contains("edit 未核验"), "{}", c.detail);
    let both = image_baselines_check(DIR, None, Some(false));
    assert_eq!(both.detail, "缺 t2i；edit 未核验");
}

#[test]
fn both_verified_baselines_report_ready() {
    assert_eq!(image_baselines_check(DIR, Some(true), Some(true)).level, Level::Pass);
}

#[test]
fn a_baseline_is_verified_only_when_it_says_so() {
    let doc = Json::Object(vec![(
        "_studio".to_string(),
        Json::Object(vec![
            ("bindings".to_string(), Json::Object(vec![])),
            ("bindings_verified".to_string(), Json::Bool(true)),
        ]),
    )]);
    assert!(baseline_verified(Some(&doc)));
    assert!(!baseline_verified(Some(&Json::Object(vec![]))));
    assert!(!baseline_verified(None));
}

#[test]
fn missing_codex_config_is_a_fail_with_a_fix_command() {
    let c = codex_config_check("/tmp/作品/.codex/config.toml", CodexConfig::Missing);
    assert_eq!(c.level, Level::Fail);
    assert!(c.detail.contains("config.toml"));
    assert!(c.remedy.unwrap().contains("studio-cli doctor --fix"));
}

fn check_text(text: &str, exists: bool) -> Check {
    let found = match referenced_command(text) {
        Some(command) => CodexConfig::PointsAt { command, exists },
        None => CodexConfig::Incomplete,
    };
    codex_config_check("/tmp/作品/.codex/config.toml", found)
}

#[test]
fn malformed_toml_is_treated_as_incomplete_not_a_crash() {
    let c = check_text("这不是合法的 toml {{{", true);
    assert_eq!(c.level, Level::Fail);
    assert_eq!(c.name, "作品的 Codex 配置不完整");
}

#[test]
fn missing_command_key_is_incomplete() {
    let c = check_text("[mcp_servers.video-studio]\nother = \"x\"\n", true);
    assert_eq!(c.level, Level::Fail);
    assert_eq!(c.detail, "找不到 command 行");
}

#[test]
fn stale_path_is_a_fail_that_names_the_broken_path() {
    let c = check_text(&codex_config("/definitely/not/a/real/path/studiod"), false);
    assert_eq!(c.level, Level::Fail);
    assert_eq!(c.name, "作品指向的程序不存在");
    assert!(c.detail.contains("/definitely/not/a/real/path/studiod"));
    assert!(c.remedy.unwrap().contains("studio-cli doctor --fix"));
}

#[test]
fn valid_path_passes() {
    let c = check_text(&codex_config("/usr/local/bin/studiod"), true);
    assert_eq!(c.level, Level::Pass);
    assert_eq!(c.detail, "指向 /usr/local/bin/studiod");
    assert!(c.remedy.is_none());
}

#[test]
fn windows_paths_survive_the_toml_round_trip() {
    let path = r"C:\opt\video-studio\studiod.exe";
    assert_eq!(referenced_command(&codex_config(path)).as_deref(), Some(path));
    let quoted = r"C:\it's\studiod.exe";
    assert_eq!(referenced_command(&codex_config(quoted)).as_deref(), Some(quoted));
}

fn missing_tool() -> ToolStatus {
    ToolStatus { found: false, path: None, version: None, looked_in: vec![".env".to_string(), "PATH".to_string()] }
}

fn four_checks() -> Vec<Check> {
    let unreachable = NodeHealth {
        url: "http://127.0.0.1:1".to_string(),
        reachable: false,
        queue_depth: usize::MAX,
        detail: Some("连接失败：refused".to_string()),
    };
    vec![
        tool_check("ffmpeg", &missing_tool()),
        tool_check(
            "ffprobe",
            &ToolStatus {
                found: true,
                path: Some("/usr/bin/ffprobe".to_string()),
                version: Some("6.1".to_string()),
                looked_in: vec![],
            },
        ),
        nodes_check(&vec![unreachable], &vec!["http://127.0.0.1:1".to_string()]),
        image_baselines_check(DIR, None, None),
    ]
}

#[test]
fn a_missing_tool_only_warns_and_says_where_to_configure_it() {
    let c = tool_check("ffmpeg", &missing_tool());
    assert_eq!(c.level, Level::Warn);
    assert_eq!(c.name, "ffmpeg 缺失");
    assert_eq!(c.detail, "找过：.env、PATH");
    assert!(c.remedy.unwrap().contains("FFMPEG_PATH=/你的路径/ffmpeg"));
    let found = &four_checks()[1];
    assert_eq!(found.detail, "/usr/bin/ffprobe（6.1）");
}

#[test]
fn node_reachability_is_counted() {
    let up = NodeHealth { url: "http://a".to_string(), reachable: true, queue_depth: 0, detail: None };
    let down = NodeHealth { url: "http://b".to_string(), reachable: false, queue_depth: usize::MAX, detail: None };
    let c = nodes_check(&vec![up, down], &vec!["http://a".to_string(), "http://b".to_string()]);
    assert_eq!(c.level, Level::Pass);
    assert_eq!(c.detail, "1/2 个可达");
    let none = nodes_check(&vec![], &vec!["http://a".to_string()]);
    assert_eq!(none.level, Level::Warn);
    assert_eq!(none.detail, "试过：http://a");
}

#[test]
fn run_without_a_bundle_skips_the_codex_config_check() {
    let r = report(None, None, four_checks(), vec![], vec![]);
    assert!(r.bundle.is_none());
    assert!(!r.checks.iter().any(|c| c.name.contains("Codex 配置")));
    assert_eq!(r.checks.len(), 4);
    assert!(r.healthy, "warnings alone keep the machine healthy");
}

#[test]
fn run_with_a_bundle_missing_codex_config_is_unhealthy() {
    let mut checks = four_checks();
    checks.push(codex_config_check("/tmp/作品/.codex/config.toml", CodexConfig::Missing));
    let r = report(None, Some("/tmp/作品".to_string()), checks, vec![], vec![]);
    assert!(!r.healthy);
    assert!(r.checks.iter().any(|c| c.name.contains("Codex 配置缺失")));
}

fn one(level: Level, remedy: Option<&str>) -> Report {
    Report {
        healthy: level != Level::Fail,
        program_dir: None,
        bundle: None,
        checks: vec![Check { name: "坏事".to_string(), level, detail: "详情".to_string(), remedy: remedy.map(String::from) }],
        tools: vec![],
        nodes: vec![],
    }
}

#[test]
fn render_reports_the_worst_outcome_first() {
    let text = render(&one(Level::Fail, Some("修一下")));
    assert!(text.contains("有必须先解决的问题"));
    assert!(text.contains("坏事"));
    assert!(text.contains("修一下"));
}

#[test]
fn render_distinguishes_warnings_from_a_clean_pass() {
    assert!(render(&one(Level::Warn, None)).contains("现在就可以开始创作"));
    let clean = Report { healthy: true, program_dir: None, bundle: None, checks: vec![], tools: vec![], nodes: vec![] };
    assert!(render(&clean).contains("全流程就绪"));
}

#[test]
fn render_indents_every_line_of_a_remedy() {
    let text = render(&one(Level::Warn, Some("第一行\r\n第二行\n")));
    assert_eq!(
        text,
        "video-studio 体检\n\n  当前作品  （不在作品目录里，只检查全局环境）\n\n  [注意] 坏事\n         详情\n         第一行\n         第二行\n\n结论：现在就可以开始创作。\n      上面 1 项「注意」只影响渲染和后期，可以边做边补。\n"
    );
}

#[test]
fn only_the_command_under_this_server_is_read() {
    assert_eq!(referenced_command("not = [toml"), None);
    assert_eq!(referenced_command("[mcp_servers.other]\ncommand = \"/bin/x\"\n"), None);
    assert_eq!(referenced_command("[mcp_servers.video-studio]\ncommand = 7\n"), None);
    assert_eq!(referenced_command("[mcp_servers.video-studio]\nargs = []\n"), None);
    assert_eq!(
        referenced_command("[mcp_servers.video-studio]\ncommand = \"/opt/studiod\"\n").as_deref(),
        Some("/opt/studiod")
    );
    assert_eq!(
        referenced_command("mcp_servers = { video-studio = { command = 'C:\\s\\studiod.exe' } }\n").as_deref(),
        Some("C:\\s\\studiod.exe")
    );
}

#[test]
fn a_toml_document_is_read_into_tables_and_strings() {
    let doc = parse_toml("a = \"x\"\n[b]\nc = 1\nd = true\ne = [1, 2]\nf = 1.5\n").unwrap();
    assert!(matches!(doc.get("a"), Some(TomlValue::Str(s)) if s == "x"));
    let b = doc.get("b").unwrap();
    assert!(matches!(b.get("c"), Some(TomlValue::Int(1))));
    assert!(matches!(b.get("d"), Some(TomlValue::Bool(true))));
    assert!(matches!(b.get("e"), Some(TomlValue::Array(v)) if v.len() == 2));
    assert!(matches!(b.get("f"), Some(TomlValue::Other)));
    assert!(b.get("zz").is_none());
    assert_eq!(doc.get("a").unwrap().as_str(), Some("x"));
    assert!(parse_toml("= nope").is_none());
}

#[test]
fn the_version_is_the_third_word_of_the_first_line() {
    assert_eq!(tool_version("ffmpeg version 6.1.1 Copyright (c) 2000\nbuilt with gcc\n").as_deref(), Some("6.1.1"));
    assert_eq!(tool_version("  ffprobe \t version  n7.0\r\n").as_deref(), Some("n7.0"));
    assert_eq!(tool_version("ffmpeg\nversion 6\n"), None);
    assert_eq!(tool_version(""), None);
}

#[test]
fn a_baseline_text_is_verified_only_when_it_says_so() {
    use_flag("{\"_studio\": {\"bindings_verified\": true}, \"n\": {\"inputs\": {\"cfg\": 1.5}}}", true);
    use_flag("{\"_studio\": {\"bindings_verified\": false}}", false);
    use_flag("{\"_studio\": {}}", false);
    use_flag("{ broken", false);
    use_flag("{\"_studio\": {\"bindings_verified\": \"true\"}}", false);
}

fn use_flag(text: &str, expect: bool) {
    assert_eq!(baseline_text_verified(text), expect, "{text}");
}
