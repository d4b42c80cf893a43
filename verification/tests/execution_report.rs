use video_studio::exec_report::{build, dur_sum_fits, durations, render, ExecRecord, Report};

fn text(r: &Report) -> String {
    let shown: Vec<String> = durations(r).iter().map(|v| format!("{v}ms")).collect();
    render(r, &shown)
}

fn rec(stage: &str, step: &str, shot: Option<&str>, node: Option<&str>, ms: u64, ok: bool) -> ExecRecord {
    ExecRecord {
        at: "2026-09-03T00:00:00.000Z".to_string(),
        stage: stage.to_string(),
        step: step.to_string(),
        shot_id: shot.map(String::from),
        node: node.map(String::from),
        prompt_id: shot.map(|s| format!("p-{}", s)),
        duration_ms: ms,
        ok,
        error_code: if ok { None } else { Some("comfy_failed".to_string()) },
        extra: vec![],
    }
}

fn report(records: Vec<ExecRecord>) -> Report {
    build("/tmp/作品".to_string(), "2026-09-03T01:00:00Z".to_string(), &records)
}

#[test]
fn a_bundle_without_execution_says_so_instead_of_pretending() {
    let r = report(vec![]);
    assert!(!r.has_data);
    assert!(!r.passed);
    assert!(r.shots.is_empty() && r.steps.is_empty() && r.nodes.is_empty());
    let text = text(&r);
    assert!(text.contains("还没跑过确定性阶段"));
    assert!(text.contains("studiod e2e report"), "要指明另一份报告在哪");
}

#[test]
fn per_shot_timings_split_into_four_steps() {
    let r = report(vec![
        rec("render", "pick_node", Some("sh01"), None, 30, true),
        rec("render", "submit", Some("sh01"), Some("http://n1:9001"), 120, true),
        rec("render", "render", Some("sh01"), Some("http://n1:9001"), 48_000, true),
        rec("render", "download", Some("sh01"), Some("http://n1:9001"), 900, true),
    ]);
    let s = &r.shots[0];
    assert_eq!((s.pick_ms, s.submit_ms, s.render_ms, s.download_ms), (30, 120, 48_000, 900));
    assert_eq!(s.total_ms, 49_050);
    assert_eq!(s.node.as_deref(), Some("http://n1:9001"));
    assert_eq!(s.prompt_id.as_deref(), Some("p-sh01"));
    assert!(s.ok);
    assert!(r.passed);
    assert_eq!(r.total_ms, 49_050);
}

#[test]
fn render_dominates_and_is_attributed_per_node() {
    let r = report(vec![
        rec("render", "render", Some("sh01"), Some("http://n1:9001"), 40_000, true),
        rec("render", "render", Some("sh02"), Some("http://n2:9002"), 30_000, true),
        rec("render", "render", Some("sh03"), Some("http://n1:9001"), 20_000, true),
        rec("post", "concat", None, None, 3_000, true),
    ]);
    assert_eq!(r.nodes_used, 2);
    assert_eq!(r.nodes[0].node, "http://n1:9001");
    assert_eq!(r.nodes[0].shots, 2);
    assert_eq!(r.nodes[0].render_ms, 60_000);
    assert_eq!(r.render_ms, 90_000);
    assert_eq!(r.post_ms, 3_000);
    assert_eq!(r.steps[0].step, "render");
}

#[test]
fn a_failed_step_is_listed_and_marks_the_shot() {
    let r = report(vec![
        rec("render", "render", Some("sh01"), Some("http://n1:9001"), 5_000, true),
        rec("render", "render", Some("sh02"), Some("http://n2:9002"), 900, false),
    ]);
    assert!(!r.passed);
    assert_eq!(r.failures.len(), 1);
    let sh02 = r.shots.iter().find(|s| s.shot_id == "sh02").unwrap();
    assert!(!sh02.ok);
    assert_eq!(sh02.error_code.as_deref(), Some("comfy_failed"));
    assert_eq!(r.failures[0].shot_id.as_deref(), Some("sh02"));
    assert!(text(&r).contains("失败"));
}

#[test]
fn post_step_details_ride_along() {
    let mut c = rec("post", "concat", None, None, 2_500, true);
    c.extra = vec![
        ("parts".to_string(), "5".to_string()),
        ("stream_copied".to_string(), "true".to_string()),
    ];
    let r = report(vec![c]);
    let step = r.steps.iter().find(|s| s.step == "concat").unwrap();
    assert_eq!(step.detail.as_deref(), Some("parts=5 stream_copied=true"));
    assert!(text(&r).contains("stream_copied=true"));
}

#[test]
fn shots_come_by_id_and_steps_by_time_with_ties_in_key_order() {
    let r = report(vec![
        rec("render", "render", Some("sh02"), Some("http://n1:9001"), 1_000, true),
        rec("render", "render", Some("sh01"), Some("http://n2:9002"), 1_000, true),
        rec("review", "probe", None, None, 2_000, true),
        rec("post", "concat", None, None, 2_000, true),
        rec("render", "pick_node", Some("sh01"), None, 10, true),
    ]);
    let ids: Vec<&str> = r.shots.iter().map(|s| s.shot_id.as_str()).collect();
    assert_eq!(ids, vec!["sh01", "sh02"]);
    let steps: Vec<(&str, &str)> = r.steps.iter().map(|s| (s.stage.as_str(), s.step.as_str())).collect();
    assert_eq!(steps, vec![("post", "concat"), ("render", "render"), ("review", "probe"), ("render", "pick_node")]);
    let nodes: Vec<&str> = r.nodes.iter().map(|n| n.node.as_str()).collect();
    assert_eq!(nodes, vec!["http://n1:9001", "http://n2:9002"], "equal loads keep node order");
    assert_eq!(r.review_ms, 2_000);
    assert_eq!(r.steps[1].calls, 2);
}

#[test]
fn a_node_that_only_submitted_is_not_counted_as_rendering() {
    let r = report(vec![rec("render", "submit", Some("sh01"), Some("http://n1:9001"), 100, true)]);
    assert!(r.nodes.is_empty());
    assert_eq!(r.nodes_used, 0);
    assert_eq!(r.shots[0].node.as_deref(), Some("http://n1:9001"));
}

#[test]
fn a_total_time_past_u64_is_refused_before_building() {

    let ok = vec![rec("render", "render", Some("sh01"), None, 5, true)];
    assert!(dur_sum_fits(&ok));
    let huge = vec![
        rec("render", "render", Some("sh01"), None, u64::MAX, true),
        rec("render", "render", Some("sh02"), None, 1, true),
    ];
    assert!(!dur_sum_fits(&huge));
}

#[test]
fn the_report_text_lays_out_every_table() {
    let r = report(vec![
        rec("render", "pick_node", Some("sh01"), None, 30, true),
        rec("render", "render", Some("sh01"), Some("http://n1:9001"), 48_000, true),
        rec("render", "render", Some("sh02"), Some("http://n1:9001"), 900, false),
    ]);
    let d = durations(&r);
    assert_eq!(d.len(), 4 + 4 * r.shots.len() + r.nodes.len() + r.steps.len());
    assert_eq!(&d[..4], &[r.total_ms, r.render_ms, r.post_ms, r.review_ms]);
    assert_eq!(&d[4..8], &[30, 0, 48_000, 0]);
    let t = text(&r);
    assert!(t.starts_with("执行侧报告 · 2026-09-03T01:00:00Z\n\n  作品      /tmp/作品\n"));
    assert!(t.contains("  执行耗时  48930ms（渲染 48930ms · 后期 0ms · 验收 0ms）\n"));
    assert!(t.contains("  节点      用了 1 个\n\n"));
    assert!(t.contains("    sh01         30ms      0ms    48000ms       0ms  http://n1:9001\n"));
    assert!(t.contains("  ← comfy_failed\n"));
    assert!(t.contains("    http://n1:9001               2 个镜头 · 48900ms\n"));
    assert!(t.contains("    render   render           2 次    48900ms\n"));
    assert!(t.ends_with("结论：有失败，见上面「失败」。\n"));
}
