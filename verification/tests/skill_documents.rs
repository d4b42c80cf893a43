use video_studio::schema::{stage_schema, Schema};
use video_studio::skills::{checklist, doctrine_files, doctrine_for, skill_docs, skill_md};
use video_studio::stage::{skill_names, StageId, StageKind};

fn no_tools() -> Vec<&'static str> {
    Vec::new()
}

#[test]
fn creative_skills_carry_doctrine_and_a_checklist() {
    for doc in skill_docs().iter() {
        let Some(stage) = doc.stage else { continue };
        if stage.kind() == StageKind::Deterministic {
            continue;
        }
        let md = skill_md(doc, &no_tools());
        assert!(!doctrine_for(doc.name).is_empty(), "{} 没有方法文档", doc.name);
        assert!(md.contains("## 方法"), "{} 的 SKILL.md 缺方法索引", doc.name);
        assert!(md.contains("## 提交前自检"), "{} 的 SKILL.md 缺自检清单", doc.name);
        for path in doctrine_for(doc.name) {
            assert!(md.contains(path), "{} 没列出 {path}", doc.name);
        }
    }
}

#[test]
fn every_referenced_doctrine_file_is_actually_shipped() {
    let shipped: Vec<String> = doctrine_files().into_iter().map(|p| format!(".agents/{p}")).collect();
    for doc in skill_docs().iter() {
        for path in doctrine_for(doc.name) {
            let ok = if let Some(dir) = path.strip_suffix('/') {
                shipped.iter().any(|s| s.starts_with(dir))
            } else {
                shipped.iter().any(|s| s == path)
            };
            assert!(ok, "{} 指向的 {path} 不在随包文件里", doc.name);
        }
    }
}

#[test]
fn every_stage_skill_lists_its_required_fields() {
    for doc in skill_docs().iter() {
        let Some(stage) = doc.stage else { continue };
        let md = skill_md(doc, &no_tools());
        assert!(
            md.contains(&format!("studio.schema(\"{}\")", stage.as_str())),
            "{} 应提示先取 schema",
            doc.name
        );
        if let Schema::Object { required, .. } = stage_schema(stage) {
            for r in required {
                assert!(md.contains(r), "{} 缺少必填项 {r}", doc.name);
            }
        }
    }
}

#[test]
fn skill_names_match_the_capability_map() {
    let mut names: Vec<&str> = skill_docs().iter().map(|s| s.name).collect();
    names.sort();
    let mut expected: Vec<&str> = skill_names().to_vec();
    expected.sort();
    assert_eq!(names, expected);
}

#[test]
fn gated_skills_explain_the_confirmation_contract() {
    for doc in skill_docs().iter() {
        let Some(stage) = doc.stage else { continue };
        let md = skill_md(doc, &no_tools());
        if let Some(gate) = stage.gate() {
            assert!(md.contains(gate), "{} 应写明确认门 {gate}", doc.name);
            assert!(md.contains("outcome"), "{} 应说明选项要声明 outcome", doc.name);
        } else {
            assert!(md.contains("没有确认门"), "{} 应说明本阶段无门", doc.name);
        }
    }
}

#[test]
fn prompt_skill_spells_out_the_model_card_directory() {
    let docs = skill_docs();
    let prompt = docs.iter().find(|d| d.name == "prompt").unwrap();
    let md = skill_md(prompt, &no_tools());
    assert!(md.contains("- `.agents/models/minimax_h3.md`\n"));
    assert!(md.contains("- `.agents/models/wan2_2.md`\n"));
    assert!(md.contains("- `.agents/models/ltx2_5.md`\n"));
    assert!(!md.contains("- `.agents/models/`\n"), "a directory is listed file by file");
}

#[test]
fn run_management_has_no_stage_section() {
    let docs = skill_docs();
    let rm = docs.last().unwrap();
    assert_eq!(rm.name, "run-management");
    assert!(rm.stage.is_none());
    let md = skill_md(rm, &no_tools());
    assert!(!md.contains("## 输入输出"));
    assert!(!md.contains("## 提交前自检"));
    assert!(md.contains("## 方法"));
    assert!(md.contains(".agents/doctrine/failure/modes.md"));
}

#[test]
fn skill_md_lists_the_tools_it_is_given_in_order() {
    let docs = skill_docs();
    let idea = &docs[0];
    let tools = vec!["studio.status", "studio.schema"];
    let md = skill_md(idea, &tools);
    assert!(md.starts_with("---\nname: idea\ndescription: "));
    assert!(md.ends_with("## Studio MCP\n\n可用工具（全部不带 run_id，当前目录就是当前作品）：\n\n- `studio.status`\n- `studio.schema`\n"));
}

#[test]
fn checklists_cover_exactly_the_creative_and_hybrid_stages() {
    for stage in StageId::all() {
        let items = checklist(stage);
        let expect = stage.kind() != StageKind::Deterministic;
        assert_eq!(!items.is_empty(), expect, "{:?}", stage);
    }
    assert_eq!(checklist(StageId::Script).len(), 4);
}

#[test]
fn unknown_skill_has_no_doctrine() {
    assert!(doctrine_for("nope").is_empty());
    assert_eq!(doctrine_for("selection").len(), 2);
}
