use video_studio::bundle::{
    agents_md, banned_md, bundle_files, checklist_md, minimax_camera_table, vocabulary_table, error_table, model_card_md, model_cards, squeeze_ws,
    stage_table, tool_table,
};
use video_studio::error::error_codes;
use video_studio::lexicon::{BANNED_TIER1, BANNED_TIER2, CAMERA_MOTIONS};
use video_studio::stage::StageId;

fn tools() -> Vec<(&'static str, &'static str)> {
    vec![
        ("studio.status", "当前作品的状态信封：\n  下一步交什么、在等用户答什么、被什么挡住。"),
        ("studio.schema", "某个阶段的产物契约。"),
        ("studio.submit_stage", "提交一个阶段的产物。"),
        ("studio.revise", "按用户意见把某个阶段打回草稿。"),
        ("studio.stage_output", "读出某个阶段已登记的产物。"),
        ("studio.timeline", "作品的历史。"),
    ]
}

fn doctrine() -> Vec<(String, String)> {
    let mut out = vec![("doctrine/quality/checklist.md".to_string(), checklist_md())];
    for card in model_cards() {
        out.push((format!("models/{}.md", card.family), model_card_md(&card, "## 语法要点\n\n照着写。\n\n")));
    }
    out
}

fn files() -> Vec<(String, String)> {
    let d = doctrine();
    let refs: Vec<(&str, &str)> = d.iter().map(|(p, c)| (p.as_str(), c.as_str())).collect();
    bundle_files("/opt/video-studio/studiod", "千岛湖", "0.1.0", "minimax_h3", &tools(), &refs)
}

#[test]
fn agents_md_never_points_at_source_code() {
    let md = agents_md(&tools());
    for leak in ["stage_graph.rs", "mcp_server.rs", "src/", "crates/", ".py"] {
        assert!(!md.contains(leak), "AGENTS.md 不该把 Agent 指向源码：{leak}");
    }
}

#[test]
fn agents_md_never_names_the_cli_binaries() {
    let md = agents_md(&tools());
    for leak in ["studiod", "studio-cli"] {
        assert!(!md.contains(leak), "AGENTS.md 不该提到二进制名：{leak}");
    }
}

#[test]
fn agents_md_lists_every_tool_and_stage() {
    let md = agents_md(&tools());
    for (name, _) in tools() {
        assert!(md.contains(name), "AGENTS.md 缺少工具 {}", name);
    }
    for s in StageId::all() {
        assert!(md.contains(s.as_str()), "AGENTS.md 缺少阶段 {:?}", s);
    }
    for (code, _) in error_codes() {
        assert!(md.contains(code), "AGENTS.md 缺少错误码 {code}");
    }
}

#[test]
fn agents_md_states_the_rewind_rule() {
    let md = agents_md(&tools());
    assert!(md.contains("一律变回未执行"), "必须说清修订会让下游退回未执行");
    assert!(md.contains(".studio/"), "必须说清 .studio/ 不要碰");
}

#[test]
fn minimax_card_separates_rejected_params_from_inert_references() {
    let cards = model_cards();
    let card = cards.iter().find(|c| c.family == "minimax_h3").unwrap();
    let md = model_card_md(card, "");
    assert!(md.contains("写了会被挡下"), "没有点出会被挡下的参数");
    assert!(md.contains("`negative`"), "没有点名 negative");
    assert!(md.contains("schema_violation"), "没说清会当场报错");
    assert!(md.contains("`references` 可以照常写"), "references 是另一类，不该和 negative 混为一谈");
    assert!(md.contains("进不了渲染请求"), "要说清它当前不生效");
}

#[test]
fn ltx_card_warns_about_the_duration_parameter() {
    let cards = model_cards();
    let card = cards.iter().find(|c| c.family == "ltx2_5").unwrap();
    let md = model_card_md(card, "");
    assert!(md.contains("duration_seconds"));
    assert!(md.contains("`length_frames`"), "没有点名会被丢弃的参数");
}

#[test]
fn bundle_files_land_in_the_places_codex_looks() {
    let f = files();
    assert!(f.iter().any(|(p, _)| p == "AGENTS.md"));
    assert!(f.iter().any(|(p, _)| p == ".codex/config.toml"));
    assert_eq!(f.iter().filter(|(p, _)| p.starts_with(".agents/skills/")).count(), 10);
    let cfg = &f.iter().find(|(p, _)| p == ".codex/config.toml").unwrap().1;
    assert!(cfg.contains("/opt/video-studio/studiod"));
    assert!(!cfg.contains("args"), "studiod 没有子命令，不需要 args");
}

#[test]
fn no_bundle_doc_names_the_cli_binaries() {
    for (path, content) in &files() {
        if path == ".codex/config.toml" {
            continue;
        }
        for leak in ["studiod", "studio-cli"] {
            assert!(!content.contains(leak), "{path} 不该提到二进制名：{leak}");
        }
    }
}

#[test]
fn bundle_files_come_in_a_fixed_order() {
    let f = files();
    let paths: Vec<&str> = f.iter().map(|(p, _)| p.as_str()).collect();
    assert_eq!(&paths[..5], &["AGENTS.md", ".codex/config.toml", "project.toml", ".env.example", ".agents/skills/idea/SKILL.md"]);
    assert_eq!(paths[13], ".agents/skills/run-management/SKILL.md");
    assert_eq!(&paths[14..], &[".agents/doctrine/quality/checklist.md", ".agents/models/minimax_h3.md", ".agents/models/wan2_2.md", ".agents/models/ltx2_5.md"]);
    assert!(f[4].1.ends_with("- `studio.timeline`\n"), "a skill lists the tools it was given");
    assert!(f[2].1.contains("title = \"千岛湖\""));
}

#[test]
fn tool_descriptions_are_put_on_one_line() {
    assert_eq!(squeeze_ws("  a\n  b\t c  "), "a b c");
    assert_eq!(squeeze_ws(""), "");
    let t = tool_table(&tools());
    assert!(t.starts_with("| 工具 | 作用 |\n|---|---|\n| `studio.status` | 当前作品的状态信封： 下一步交什么、在等用户答什么、被什么挡住。 |\n"));
}

#[test]
fn the_stage_table_numbers_the_graph() {
    let t = stage_table();
    let lines: Vec<&str> = t.lines().collect();
    assert_eq!(lines.len(), 12);
    assert!(lines[2].starts_with("| 1 | `idea` | `idea` | creative（你产出全部内容） | "));
    assert!(lines[11].starts_with("| 10 | `review` | `review` | deterministic（控制面执行，你只观察） |"));
    assert!(error_table().contains("| `state_drift` | .studio/ 被外部改动，完整性校验失败 |\n"));
}

#[test]
fn unverified_modes_are_flagged_and_references_named_inert() {
    let cards = model_cards();
    let wan = cards.iter().find(|c| c.family == "wan2_2").unwrap();
    let md = model_card_md(wan, "要点。  \n\n");
    assert!(md.contains("| `wan2_2/i2v` | **否** | — |\n"));
    assert!(md.contains("| `wan2_2/t2v` | 是 | `positive`、`negative`、`width`、`height`、`length_frames`、`fps`、`seed` |\n"));
    assert!(md.contains("写了会被挡下**：`duration_seconds`。"));
    assert!(md.contains("标着「否」的模式"));
    assert!(md.ends_with("\n要点。\n"), "the prose is trimmed at its end");
}

#[test]
fn the_checklist_document_covers_each_stage_with_items() {
    let md = checklist_md();
    assert!(md.starts_with("# 提交前自检\n\n"));
    assert!(md.contains("## `idea`\n\n- [ ] 至少两个方案"));
    assert!(!md.contains("## `render`"));
    assert!(md.ends_with("说明写得太空\n"));
}

#[test]
fn the_banned_words_document_lists_both_tiers() {
    let md = banned_md();
    for w in BANNED_TIER1.iter().chain(BANNED_TIER2.iter()) {
        assert!(md.contains(&format!("- `{w}`\n")), "禁用词表里缺 {w}");
    }
    assert!(md.starts_with("# 禁用词\n\n"));
    assert!(md.find("## Tier 1").unwrap() < md.find("## Tier 2").unwrap());
}

#[test]
fn vocabulary_tables_come_from_the_lexicon() {
    let t = vocabulary_table("camera_motion");
    assert!(t.starts_with("| `camera_motion` 取值 | 说明 |\n|---|---|\n| `static` | 固定机位 |\n"));
    assert_eq!(t.lines().count(), 2 + CAMERA_MOTIONS.len());
    assert_eq!(vocabulary_table("nope"), "");
    let m = minimax_camera_table();
    assert!(m.contains("| `push_in` | `[Push in]` | 推近（机身前移） |\n"));
    assert_eq!(m.lines().count(), 2 + CAMERA_MOTIONS.len());
}
