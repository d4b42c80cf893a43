use video_studio::e2e::{
    build_checked, build_report, build_with, durations, measure, render, revise_round_trips, timing_fits_exec,
    Report, TraceRecord,
};

fn text(r: &Report) -> String {
    let shown: Vec<String> = durations(r).iter().map(|v| format!("{v}ms")).collect();
    render(r, &shown)
}
use video_studio::rollout::Rollout;
use video_studio::stage::StageId;

fn rec_revised(tool: &str, stage: Option<&str>, ok: bool, code: Option<&str>, remedy: Option<bool>, revised: Option<bool>) -> TraceRecord {
    TraceRecord {
        at: "2026-09-03T00:00:00.000Z".to_string(),
        tool: tool.to_string(),
        stage: stage.map(String::from),
        capability: stage.and_then(StageId::parse).map(|s| s.capability().as_str().to_string()),
        ok,
        error_code: code.map(String::from),
        remedy_present: remedy,
        waiting_on: None,
        revised,
        duration_ms: 1,
    }
}

fn rec(tool: &str, stage: Option<&str>, ok: bool, code: Option<&str>, remedy: Option<bool>) -> TraceRecord {
    rec_revised(tool, stage, ok, code, remedy, None)
}

fn build(records: Vec<TraceRecord>) -> Report {
    let round_trips = revise_round_trips(&records);
    build_with("/tmp/作品".to_string(), "2026-09-03T01:00:00Z".to_string(), &records, round_trips, None)
}

fn verdict<'a>(r: &'a Report, needle: &str) -> &'a video_studio::e2e::Verdict {
    r.verdicts.iter().find(|v| v.name.contains(needle)).unwrap()
}

#[test]
fn a_clean_six_stage_run_passes() {
    let mut rs = Vec::new();
    for s in ["idea", "selection", "script", "storyboard", "visual_assets", "prompt_pack"] {
        rs.push(rec("studio.submit_stage", Some(s), true, None, None));
        rs.push(rec("studio.answer", Some(s), true, None, None));
    }
    let r = build(rs);
    assert!(r.passed, "{:?}", r.verdicts);
    assert_eq!(r.stages_reached.len(), 6);
    assert_eq!(r.total_calls, 12);
    assert_eq!(r.failed_calls, 0);
}

#[test]
fn a_blocking_error_without_remedy_fails_the_run() {
    let r = build(
        vec![
            rec("studio.submit_stage", Some("idea"), true, None, None),
            rec("studio.submit_stage", None, false, Some("gate_pending"), Some(false)),
        ],
    );
    assert!(!r.passed);
    let v = verdict(&r, "补救");
    assert!(!v.passed);
    assert!(v.detail.contains("gate_pending"));
    assert_eq!(r.errors.len(), 1);
    assert_eq!(r.errors[0].code, "gate_pending");
}

#[test]
fn state_drift_fails_the_run() {
    let r = build(vec![rec("studio.status", None, false, Some("state_drift"), Some(true))]);
    assert!(!verdict(&r, "外部改动").passed);
}

#[test]
fn a_one_pass_revise_is_measured_as_one_call() {
    let r = build(
        vec![
            rec("studio.submit_stage", Some("script"), true, None, None),
            rec_revised("studio.revise", Some("script"), true, None, None, Some(true)),
            rec("studio.submit_stage", Some("script"), true, None, None),
        ],
    );
    assert_eq!(r.revise_round_trips, vec![1]);
    assert!(verdict(&r, "修订").passed);
}

#[test]
fn a_revise_chosen_at_the_gate_is_counted_too() {
    let r = build(vec![
        rec("studio.submit_stage", Some("script"), true, None, None),
        rec_revised("studio.answer", Some("script"), true, None, None, Some(true)),
        rec("studio.submit_stage", Some("script"), true, None, None),
        rec_revised("studio.answer", Some("script"), true, None, None, Some(false)),
    ]);
    assert_eq!(r.revise_round_trips, vec![1], "a revision chosen among the options counts");
}

#[test]
fn an_approving_answer_is_not_a_revision() {
    let r = build(vec![
        rec("studio.submit_stage", Some("script"), true, None, None),
        rec_revised("studio.answer", Some("script"), true, None, None, Some(false)),
        rec("studio.submit_stage", Some("storyboard"), true, None, None),
    ]);
    assert!(r.revise_round_trips.is_empty(), "an approval is not a revision");
}

#[test]
fn a_failed_submission_does_not_end_a_round_trip() {
    let rs = vec![
        rec_revised("studio.revise", Some("script"), true, None, None, Some(true)),
        rec("studio.submit_stage", Some("script"), false, Some("schema_violation"), Some(true)),
        rec("studio.submit_stage", Some("script"), true, None, None),
        rec_revised("studio.revise", Some("script"), true, None, None, Some(true)),
    ];
    assert_eq!(revise_round_trips(&rs), vec![2], "the last revision has not come back yet");
}

#[test]
fn a_long_detour_after_revise_fails() {
    let mut rs = vec![
        rec("studio.submit_stage", Some("script"), true, None, None),
        rec_revised("studio.revise", Some("script"), true, None, None, Some(true)),
    ];
    for _ in 0..5 {
        rs.push(rec("studio.status", None, true, None, None));
    }
    rs.push(rec("studio.submit_stage", Some("script"), true, None, None));
    let r = build(rs);
    assert_eq!(r.revise_round_trips, vec![6]);
    assert!(!verdict(&r, "修订").passed);
    assert!(!r.passed);
}

#[test]
fn an_empty_trace_reports_missing_stages_rather_than_crashing() {
    let r = build(vec![]);
    assert_eq!(r.total_calls, 0);
    assert!(!r.passed);
    assert!(r.stages_reached.is_empty());
    assert!(text(&r).contains("未通过"));
}

#[test]
fn calls_are_counted_per_tool_and_per_stage() {
    let r = build(
        vec![
            rec("studio.submit_stage", Some("idea"), true, None, None),
            rec("studio.status", None, true, None, None),
            rec("studio.submit_stage", Some("script"), true, None, None),
        ],
    );
    assert!(r.calls_by_tool.contains(&("studio.submit_stage".to_string(), 2)), "{:?}", r.calls_by_tool);
    assert!(r.calls_by_tool.contains(&("studio.status".to_string(), 1)), "{:?}", r.calls_by_tool);
    assert!(r.calls_by_stage.contains(&("idea".to_string(), 1)), "{:?}", r.calls_by_stage);
}

fn timed(at: &str, tool: &str, duration_ms: u64, waiting_on: Option<&str>) -> TraceRecord {
    let mut r = rec(tool, Some("script"), true, None, None);
    r.at = at.to_string();
    r.duration_ms = duration_ms;
    r.waiting_on = waiting_on.map(String::from);
    r
}

#[test]
fn the_wall_clock_runs_from_the_first_call_to_the_last() {
    let rs = vec![
        timed("2026-09-03T00:00:01.000Z", "studio.submit_stage", 1000, None),
        timed("2026-09-03T00:00:11.000Z", "studio.submit_stage", 2000, Some("user")),
        timed("2026-09-03T00:01:11.000Z", "studio.answer", 500, None),
    ];
    let (t, _) = measure(&rs);
    assert_eq!(t.wall_ms, 71_000, "from the start of the first call to the end of the last");
    assert_eq!(t.server_ms, 3500);
    assert!(t.effective_ms <= t.wall_ms);
}

#[test]
fn a_rollout_that_bypassed_mcp_fails_the_run() {
    let mut rs = Vec::new();
    for s in ["idea", "selection", "script", "storyboard", "visual_assets", "prompt_pack"] {
        rs.push(rec("studio.submit_stage", Some(s), true, None, None));
    }
    let records = vec![video_studio::json::Json::Object(vec![
        ("type".to_string(), video_studio::json::Json::Str("response_item".to_string())),
        (
            "payload".to_string(),
            video_studio::json::Json::Object(vec![
                ("type".to_string(), video_studio::json::Json::Str("custom_tool_call".to_string())),
                ("name".to_string(), video_studio::json::Json::Str("exec".to_string())),
                ("input".to_string(), video_studio::json::Json::Str("sqlite3 .studio/studio.db".to_string())),
            ]),
        ),
    ])];
    let rollout = Rollout::from_records("r.jsonl".to_string(), &records);
    let r = build_with("/tmp/作品".to_string(), "now".to_string(), &rs, vec![], Some(rollout));
    assert!(!verdict(&r, "绕过 MCP").passed);
    assert!(!r.passed);
    assert!(r.rollout.is_some());
}

#[test]
fn a_trace_whose_times_do_not_fit_gets_no_report() {
    let ok = vec![rec("studio.status", None, true, None, None)];
    assert!(timing_fits_exec(&ok));
    let r = build_checked("b".to_string(), "now".to_string(), &ok, vec![], None).unwrap();
    assert_eq!(r.total_calls, 1);
    let mut huge = rec("studio.status", None, true, None, None);
    huge.duration_ms = u64::MAX;
    assert!(!timing_fits_exec(&vec![huge.clone()]));
    assert!(build_checked("b".to_string(), "now".to_string(), &vec![huge], vec![], None).is_none());
}

#[test]
fn the_session_text_names_calls_timing_and_each_check() {
    let r = build(vec![
        rec("studio.status", None, true, None, None),
        rec("studio.submit_stage", Some("idea"), false, Some("schema_violation"), Some(false)),
    ]);
    assert_eq!(durations(&r), vec![r.timing.effective_ms, r.timing.wall_ms, r.timing.waiting_user_ms]);
    let t = text(&r);
    assert!(t.starts_with("端到端报告 · 2026-09-03T01:00:00Z\n\n  作品      /tmp/作品\n  调用总数  2（失败 1）\n"));
    assert!(t.contains(&format!("  耗时      有效 {}ms（墙上 {}ms，其中等用户 {}ms）\n", r.timing.effective_ms, r.timing.wall_ms, r.timing.waiting_user_ms)));
    assert!(t.contains("    studio.status            1\n"));
    assert!(t.contains("  遇到的阻塞\n    2026-09-03T00:00:00.000Z studio.submit_stage → schema_violation（没有 remedy）\n"));
    assert!(t.contains("    [未过] "));
    assert!(!t.contains("token"), "no session log, no token line");
    assert!(t.ends_with("结论：未通过，见上面「未过」项。\n"));
}

#[test]
fn the_report_counts_round_trips_from_its_own_trace() {
    let records = vec![
        rec_revised("studio.revise", Some("script"), true, None, None, Some(true)),
        rec("studio.status", None, true, None, None),
        rec("studio.submit_stage", Some("script"), true, None, None),
    ];
    let r = build_report("/tmp/作品".to_string(), "now".to_string(), &records, None).unwrap();
    assert_eq!(r.revise_round_trips, revise_round_trips(&records));
    assert_eq!(r.revise_round_trips, vec![2]);
    assert_eq!(r.total_calls, 3);
}
