use video_studio::comfy::{
    classify_status, collect_files, queue_depth, transport_failure, upload_body,
    upload_content_type, urlencode, Comfy, Failure, PollOutcome, RemoteFile, Reply, Submission,
    SubmitStep, WaitStep, MAX_CONSECUTIVE_UNREACHABLE, SUBMIT_RETRY_BACKOFF_SECS,
};
use video_studio::error::StudioError;
use video_studio::json::{Decimal, Json, Number};

fn decimal_of(text: &str) -> Number {
    let f: f64 = text.parse().unwrap();
    let shown = if text.contains('e') || text.contains('E') { format!("{:.6}", f) } else { text.to_string() };
    let (int_part, frac_part) = match shown.split_once('.') {
        Some((a, b)) => (a.to_string(), b.to_string()),
        None => (shown.clone(), String::new()),
    };
    let digits = format!("{}{}", int_part, frac_part);
    Number::Frac(Decimal::new(digits.parse::<i64>().unwrap(), frac_part.len() as u8))
}

fn to_json(v: &serde_json::Value) -> Json {
    match v {
        serde_json::Value::Null => Json::Null,
        serde_json::Value::Bool(b) => Json::Bool(*b),
        serde_json::Value::Number(n) => {
            if let Some(i) = n.as_i64() {
                Json::Num(Number::Int(i as i128))
            } else if let Some(u) = n.as_u64() {
                Json::Num(Number::Int(u as i128))
            } else {
                Json::Num(decimal_of(&n.to_string()))
            }
        }
        serde_json::Value::String(s) => Json::Str(s.clone()),
        serde_json::Value::Array(a) => Json::Array(a.iter().map(to_json).collect()),
        serde_json::Value::Object(m) => {
            Json::Object(m.iter().map(|(k, x)| (k.clone(), to_json(x))).collect())
        }
    }
}

fn parse(text: &str) -> Json {
    to_json(&serde_json::from_str::<serde_json::Value>(text).unwrap())
}

/// The reply to a request that answered 200 with `text`.
fn ok_reply(text: &str) -> Reply {
    match serde_json::from_str::<serde_json::Value>(text) {
        Ok(v) => Reply::Json(to_json(&v), serde_json::to_string(&v).unwrap()),
        Err(e) => Reply::NotJson(e.to_string()),
    }
}

/// The reply to a request that answered an error status with `body`.
fn status_reply(code: u16, body: &str) -> Reply {
    let parsed = serde_json::from_str::<serde_json::Value>(body).ok().map(|v| to_json(&v));
    Reply::Failed(classify_status(code, parsed.as_ref()))
}

fn scripted(script: &[(u16, &str)], n: usize) -> Reply {
    let (code, body) = script[n.min(script.len() - 1)];
    if code == 200 { ok_reply(body) } else { status_reply(code, body) }
}

/// Runs the submission loop against a script of answers, counting requests.
fn submit_against(c: &Comfy, script: &[(u16, &str)]) -> (Result<Submission, StudioError>, usize) {
    let mut attempt = 0usize;
    loop {
        let reply = scripted(script, attempt);
        match c.submit_step(attempt, reply) {
            SubmitStep::Retry { after_secs } => {
                assert_eq!(after_secs, SUBMIT_RETRY_BACKOFF_SECS[attempt]);
                attempt += 1;
            }
            SubmitStep::Finished(r) => return (r, attempt + 1),
        }
    }
}

/// Runs the wait loop against a sequence of replies (the last one repeats).
fn wait_against(c: &Comfy, sub: &Submission, replies: Vec<Box<dyn Fn() -> Reply>>) -> (Result<Vec<RemoteFile>, StudioError>, usize) {
    let mut consecutive = 0u32;
    let mut n = 0usize;
    loop {
        let reply = replies[n.min(replies.len() - 1)]();
        n += 1;
        let outcome = c.poll_outcome(sub, reply);
        match c.wait_step(sub, consecutive, outcome, 0) {
            WaitStep::PollAgain { consecutive_unreachable, sleep_secs } => {
                assert_eq!(sleep_secs, c.poll_secs());
                consecutive = consecutive_unreachable;
            }
            WaitStep::Finished(r) => return (r, n),
        }
    }
}

#[test]
fn a_bad_request_is_fatal_and_a_busy_cluster_is_retryable() {
    let cases: Vec<(u16, &str, bool, &str)> = vec![
        (400, r#"{"error":"prompt is required"}"#, false, "prompt is required"),
        (401, r#"{"error":"unauthorized"}"#, false, "unauthorized"),
        (404, r#"{"error":"not found"}"#, false, "not found"),
        (503, r#"{"error":"no healthy node"}"#, true, "no healthy node"),
        (503, r#"{"error":"context deadline exceeded"}"#, true, "context deadline exceeded"),
    ];
    for (code, body, retryable, needle) in cases {
        let f = match status_reply(code, body) {
            Reply::Failed(f) => f,
            _ => unreachable!(),
        };
        assert_eq!(matches!(f, Failure::Retryable(_)), retryable, "HTTP {} misjudged: {:?}", code, f);
        assert!(f.detail().contains(needle), "the reason was dropped: {:?}", f);
    }
}

#[test]
fn only_no_healthy_node_means_the_cluster_is_down() {
    let busy = classify_status(503, Some(&parse(r#"{"error":"context deadline exceeded"}"#)));
    let down = classify_status(503, Some(&parse(r#"{"error":"no healthy node"}"#)));
    assert!(!busy.is_no_healthy_node(), "{:?}", busy);
    assert!(down.is_no_healthy_node(), "{:?}", down);
}

#[test]
fn an_error_body_that_is_not_the_proxy_shape_falls_back_to_the_status_code() {
    let f = match status_reply(400, "<html>node said no</html>") {
        Reply::Failed(f) => f,
        _ => unreachable!(),
    };
    assert_eq!(f, Failure::Fatal("HTTP 400".to_string()));
}

#[test]
fn the_exact_reason_is_written_after_the_status() {
    let f = classify_status(503, Some(&parse(r#"{"error":"no healthy node"}"#)));
    assert_eq!(f, Failure::Retryable("HTTP 503：no healthy node".to_string()));
    assert_eq!(classify_status(500, None), Failure::Retryable("HTTP 500".to_string()));
    assert_eq!(classify_status(403, None), Failure::Fatal("HTTP 403".to_string()));
    assert_eq!(transport_failure("refused"), Failure::Retryable("连接失败：refused".to_string()));
}

#[test]
fn a_submission_that_queues_behind_a_busy_cluster_eventually_succeeds() {
    let c = Comfy::new("http://proxy".to_string(), None, 5, 1);
    let (r, hits) = submit_against(
        &c,
        &[
            (503, r#"{"error":"context deadline exceeded"}"#),
            (503, r#"{"error":"context deadline exceeded"}"#),
            (200, r#"{"prompt_id":"p1","number":1}"#),
        ],
    );
    assert_eq!(r.unwrap().prompt_id, "p1");
    assert_eq!(hits, 3, "two retries before the success");
}

#[test]
fn a_bad_submission_is_not_retried() {
    let c = Comfy::new("http://proxy".to_string(), None, 5, 1);
    let (r, hits) = submit_against(&c, &[(400, r#"{"error":"prompt is required"}"#)]);
    let e = r.unwrap_err();
    assert_eq!(e.code(), "comfy_failed");
    assert!(e.message().contains("prompt is required"), "{}", e.message());
    assert_eq!(hits, 1, "a 400 is not retried");
}

#[test]
fn no_healthy_node_reports_the_cluster_as_unavailable() {
    let c = Comfy::new("http://proxy".to_string(), None, 5, 1);
    let (r, hits) = submit_against(&c, &[(503, r#"{"error":"no healthy node"}"#)]);
    let e = r.unwrap_err();
    assert_eq!(e.code(), "comfy_unavailable", "{}", e.message());
    assert!(e.remedy().contains("COMFY_NODE"), "{}", e.remedy());
    assert_eq!(hits, SUBMIT_RETRY_BACKOFF_SECS.len(), "retried until the backoff runs out");
}

#[test]
fn a_cluster_that_stays_busy_reports_a_failed_run_not_a_broken_config() {
    let c = Comfy::new("http://proxy".to_string(), None, 5, 1);
    let (r, _) = submit_against(&c, &[(503, r#"{"error":"context deadline exceeded"}"#)]);
    let e = r.unwrap_err();
    assert_eq!(e.code(), "comfy_failed", "{}", e.message());
    assert!(e.remedy().contains("retry_stage"), "{}", e.remedy());
}

#[test]
fn a_submission_reply_without_a_prompt_id_is_a_failure() {
    let c = Comfy::new("http://proxy".to_string(), None, 5, 1);
    match c.submit_step(0, ok_reply(r#"{"number":1}"#)) {
        SubmitStep::Finished(Err(StudioError::ComfyFailed { node, detail })) => {
            assert_eq!(node, "http://proxy");
            assert_eq!(detail, "提交返回里没有 prompt_id：{\"number\":1}");
        }
        _ => panic!("expected a failure"),
    }
}

#[test]
fn the_submit_timeout_is_clamped_not_inherited() {
    let tiny = Comfy::new("http://x".to_string(), None, 10, 1);
    assert_eq!(tiny.submit_timeout(), 60, "lower bound");
    let huge = Comfy::new("http://x".to_string(), None, 36000, 1);
    assert_eq!(huge.submit_timeout(), 600, "upper bound");
    let mid = Comfy::new("http://x".to_string(), None, 600, 1);
    assert_eq!(mid.submit_timeout(), 300, "half inside the range");
    let default = Comfy::new("http://x".to_string(), None, 1800, 1);
    assert_eq!(default.submit_timeout(), 600);
}

#[test]
fn a_node_url_loses_its_trailing_slashes_and_settings_are_clamped() {
    let c = Comfy::new("http://x//".to_string(), Some("tok".to_string()), 0, 600);
    assert_eq!(c.node(), "http://x");
    assert_eq!(c.timeout_secs(), 1);
    assert_eq!(c.poll_secs(), 60);
    assert_eq!(c.authorization(), Some("Bearer tok".to_string()));
    assert_eq!(c.queue_url(), "http://x/queue");
    assert_eq!(c.prompt_url(), "http://x/prompt");
    assert_eq!(c.upload_url(), "http://x/upload/image");
    let sub = Submission { node: "http://x".to_string(), prompt_id: "abc".to_string() };
    assert_eq!(c.history_url(&sub), "http://x/history/abc");
}

#[test]
fn no_authorization_header_when_token_is_absent() {
    let c = Comfy::new("http://x".to_string(), None, 5, 1);
    assert_eq!(c.authorization(), None);
}

#[test]
fn a_history_lookup_that_is_rejected_fails_immediately() {
    let c = Comfy::new("http://proxy".to_string(), None, 30, 1);
    let sub = Submission { node: "http://proxy".to_string(), prompt_id: "p1".to_string() };
    let (r, hits) = wait_against(&c, &sub, vec![Box::new(|| status_reply(404, r#"{"error":"not found"}"#))]);
    let e = r.unwrap_err();
    assert_eq!(e.code(), "comfy_failed");
    assert!(e.message().contains("重试没有意义"), "{}", e.message());
    assert_eq!(hits, 1, "a 404 does not wait out the grace rounds");
}

#[test]
fn an_unreachable_entrypoint_blocks_instead_of_degrading() {
    let c = Comfy::new("http://127.0.0.1:1".to_string(), None, 1, 1);
    let h = c.health(Reply::Failed(transport_failure("Connection refused")));
    assert!(!h.reachable);
    let e = c.ensure_reachable(&h).unwrap_err();
    assert_eq!(e.code(), "comfy_unavailable");
    assert!(e.remedy().contains("COMFY_NODE"));
    assert!(e.remedy().contains("不要降级"), "{}", e.remedy());
}

#[test]
fn health_reports_queue_depth() {
    let c = Comfy::new("http://x".to_string(), None, 5, 1);
    let h = c.health(ok_reply(r#"{ "queue_running": [1], "queue_pending": [1, 2] }"#));
    assert!(h.reachable);
    assert_eq!(h.queue_depth, 3);
    assert!(c.ensure_reachable(&h).is_ok());
    assert_eq!(queue_depth(&parse("{}")), 0);
}

#[test]
fn submit_returns_the_prompt_id_for_traceability() {
    let c = Comfy::new("http://x".to_string(), None, 5, 1);
    match c.submit_step(0, ok_reply(r#"{ "prompt_id": "abc-123", "number": 1 }"#)) {
        SubmitStep::Finished(Ok(sub)) => {
            assert_eq!(sub.prompt_id, "abc-123");
            assert_eq!(sub.node, "http://x");
        }
        _ => panic!("expected a submission"),
    }
    let body = c.submit_body(parse(r#"{ "1": { "class_type": "X", "inputs": {} } }"#), "cid");
    assert_eq!(body.get_str("client_id"), Some("cid"));
    assert!(body.get("prompt").unwrap().get("1").is_some());
}

fn history_of(c: &Comfy, sub: &Submission, text: &str) -> Result<Option<Vec<RemoteFile>>, StudioError> {
    c.try_history(c.poll_outcome(sub, ok_reply(text)))
}

#[test]
fn history_collects_output_files() {
    let c = Comfy::new("http://x".to_string(), None, 5, 1);
    let sub = Submission { node: "http://x".to_string(), prompt_id: "abc-123".to_string() };
    let files = history_of(
        &c,
        &sub,
        r#"{ "abc-123": {
            "status": { "status_str": "success", "completed": true },
            "outputs": { "9": { "videos": [ { "filename": "sh01.mp4", "subfolder": "", "type": "output" } ] } }
        }}"#,
    )
    .unwrap()
    .unwrap();
    assert_eq!(files.len(), 1);
    assert_eq!(files[0].filename, "sh01.mp4");
    assert_eq!(c.view_url(&files[0]), "http://x/view?filename=sh01.mp4&subfolder=&type=output");
}

#[test]
fn a_still_running_prompt_is_not_an_error() {
    let c = Comfy::new("http://x".to_string(), None, 5, 1);
    let sub = Submission { node: "http://x".to_string(), prompt_id: "abc-123".to_string() };
    assert!(history_of(&c, &sub, "{}").unwrap().is_none());
}

#[test]
fn try_history_treats_a_connection_hiccup_as_still_pending() {
    let c = Comfy::new("http://x".to_string(), None, 5, 1);
    let sub = Submission { node: "http://x".to_string(), prompt_id: "abc-123".to_string() };
    let outcome = c.poll_outcome(&sub, Reply::Failed(transport_failure("reset")));
    assert!(matches!(outcome, PollOutcome::Unreachable(_)));
    assert!(c.try_history(outcome).unwrap().is_none());
}

#[test]
fn an_isolated_connection_hiccup_does_not_fail_a_wait_that_eventually_succeeds() {
    let c = Comfy::new("http://x".to_string(), None, 30, 1);
    let sub = Submission { node: "http://x".to_string(), prompt_id: "abc-123".to_string() };
    let (r, hits) = wait_against(
        &c,
        &sub,
        vec![
            Box::new(|| Reply::Failed(transport_failure("timed out"))),
            Box::new(|| Reply::Failed(transport_failure("timed out"))),
            Box::new(|| {
                ok_reply(
                    r#"{ "abc-123": {
                    "status": { "status_str": "success", "completed": true },
                    "outputs": { "9": { "videos": [ { "filename": "sh01.mp4" } ] } }
                }}"#,
                )
            }),
        ],
    );
    assert_eq!(r.unwrap()[0].filename, "sh01.mp4");
    assert_eq!(hits, 3);
}

#[test]
fn wait_gives_up_after_too_many_consecutive_unreachable_polls() {
    let c = Comfy::new("http://127.0.0.1:1".to_string(), None, 120, 1);
    let sub = Submission { node: "http://127.0.0.1:1".to_string(), prompt_id: "abc-123".to_string() };
    let (r, hits) = wait_against(&c, &sub, vec![Box::new(|| Reply::Failed(transport_failure("refused")))]);
    let e = r.unwrap_err();
    assert_eq!(e.code(), "comfy_failed");
    assert!(e.message().contains("联系不上"));
    assert_eq!(hits, MAX_CONSECUTIVE_UNREACHABLE as usize + 1);
}

#[test]
fn a_wait_past_its_timeout_gives_up() {
    let c = Comfy::new("http://x".to_string(), None, 2, 1);
    let sub = Submission { node: "http://x".to_string(), prompt_id: "p9".to_string() };
    match c.wait_step(&sub, 0, PollOutcome::Running, 3_000_000_000) {
        WaitStep::Finished(Err(StudioError::ComfyFailed { detail, .. })) => {
            assert_eq!(detail, "等待 p9 超过 2 秒仍无结果");
        }
        _ => panic!("expected a timeout"),
    }
    assert!(matches!(
        c.wait_step(&sub, 4, PollOutcome::Running, 1_000_000_000),
        WaitStep::PollAgain { consecutive_unreachable: 0, sleep_secs: 1 }
    ));
}

const EXECUTION_ERROR: &str = r#"{ "abc-123": { "status": { "status_str": "error", "completed": false,
    "messages": [["execution_error", { "node_type": "KSampler",
                                       "exception_message": "CUDA out of memory" }]] } }}"#;

#[test]
fn a_structured_comfy_error_still_fails_immediately() {
    let c = Comfy::new("http://x".to_string(), None, 30, 1);
    let sub = Submission { node: "http://x".to_string(), prompt_id: "abc-123".to_string() };
    let (r, hits) = wait_against(&c, &sub, vec![Box::new(|| ok_reply(EXECUTION_ERROR))]);
    let e = r.unwrap_err();
    assert_eq!(e.code(), "comfy_failed");
    assert!(e.message().contains("KSampler"));
    assert_eq!(hits, 1);
}

#[test]
fn execution_errors_name_the_node_and_reason() {
    let c = Comfy::new("http://x".to_string(), None, 5, 1);
    let sub = Submission { node: "http://x".to_string(), prompt_id: "abc-123".to_string() };
    let e = history_of(&c, &sub, EXECUTION_ERROR).unwrap_err();
    assert_eq!(e.code(), "comfy_failed");
    assert!(e.message().contains("KSampler"));
    assert!(e.message().contains("CUDA out of memory"));
    assert!(e.remedy().contains("studio.timeline"));
}

#[test]
fn urlencoding_handles_chinese_filenames() {
    assert_eq!(urlencode("a b.mp4"), "a%20b.mp4");
    assert!(urlencode("千岛湖.mp4").starts_with('%'));
}

#[test]
fn urlencoding_keeps_unreserved_characters_and_encodes_bytes() {
    assert_eq!(urlencode("A-z_0.9~"), "A-z_0.9~");
    assert_eq!(urlencode("湖"), "%E6%B9%96");
    assert_eq!(urlencode("a/b&c"), "a%2Fb%26c");
}

#[test]
fn output_grouping_covers_images_videos_and_audio() {
    let outputs = parse(
        r#"{
        "1": { "images": [{ "filename": "c01.png" }] },
        "2": { "videos": [{ "filename": "sh01.mp4" }] },
        "3": { "audio":  [{ "filename": "amb.wav" }] },
        "4": { "ui": { "ignored": true } }
    }"#,
    );
    assert_eq!(collect_files(&outputs).len(), 3);
}

#[test]
fn an_echoed_input_file_is_not_a_product() {
    let outputs = parse(
        r#"{
        "guide1_src_load": {
            "images": [{ "filename": "anchor.mp4", "subfolder": "", "type": "input" }]
        },
        "save_video": {
            "images": [{ "filename": "sh01_00001_.mp4", "subfolder": "", "type": "output" }]
        }
    }"#,
    );
    let files = collect_files(&outputs);
    assert_eq!(files.len(), 1, "an echoed input is not a product");
    assert_eq!(files[0].filename, "sh01_00001_.mp4");
}

#[test]
fn a_file_without_a_type_still_counts_as_a_product() {
    let files = collect_files(&parse(r#"{ "9": { "videos": [{ "filename": "sh01.mp4" }] } }"#));
    assert_eq!(files.len(), 1);
    assert_eq!(files[0].file_type, "output");
}

#[test]
fn upload_image_returns_the_name_comfyui_assigned() {
    let c = Comfy::new("http://x".to_string(), None, 5, 1);
    let name = c.uploaded_name("参考图.png", ok_reply(r#"{ "name": "已改名.png" }"#)).unwrap();
    assert_eq!(name, "已改名.png");
}

#[test]
fn upload_image_falls_back_to_the_given_name_when_the_response_omits_it() {
    let c = Comfy::new("http://x".to_string(), None, 5, 1);
    let name = c.uploaded_name("参考图.png", ok_reply("{}")).unwrap();
    assert_eq!(name, "参考图.png");
}

#[test]
fn download_from_an_unreachable_node_fails_with_the_node_named() {
    let c = Comfy::new("http://127.0.0.1:1".to_string(), None, 1, 1);
    let e = c.request_failed(&transport_failure("Connection refused"));
    assert_eq!(e.code(), "comfy_failed");
    assert!(e.message().contains("127.0.0.1:1"));
}

#[test]
fn an_upload_body_frames_the_bytes_between_boundaries() {
    let body = upload_body("a.png", b"xyz");
    let text = String::from_utf8(body).unwrap();
    assert_eq!(
        text,
        "------videostudioboundary\r\nContent-Disposition: form-data; name=\"image\"; filename=\"a.png\"\r\nContent-Type: application/octet-stream\r\n\r\nxyz\r\n------videostudioboundary--\r\n"
    );
    assert_eq!(upload_content_type(), "multipart/form-data; boundary=----videostudioboundary");
}
