use video_studio::json::{Decimal, Json, Number};
use video_studio::rollout::{classify, sniff_bypass, CallKind, Rollout};

fn decimal_of(text: &str) -> Number {
    let (int_part, frac_part) = match text.split_once('.') {
        Some((a, b)) => (a.to_string(), b.to_string()),
        None => (text.to_string(), String::new()),
    };
    let digits = format!("{}{}", int_part, frac_part);
    Number::Frac(Decimal::new(digits.parse::<i64>().unwrap(), frac_part.len() as u8))
}

fn to_json(v: &serde_json::Value) -> Json {
    match v {
        serde_json::Value::Null => Json::Null,
        serde_json::Value::Bool(b) => Json::Bool(*b),
        serde_json::Value::Number(n) => {
            if let Some(i) = n.as_i64() {
                Json::Num(Number::Int(i as i128))
            } else if let Some(u) = n.as_u64() {
                Json::Num(Number::Int(u as i128))
            } else {
                Json::Num(decimal_of(&n.to_string()))
            }
        }
        serde_json::Value::String(s) => Json::Str(s.clone()),
        serde_json::Value::Array(a) => Json::Array(a.iter().map(to_json).collect()),
        serde_json::Value::Object(m) => {
            Json::Object(m.iter().map(|(k, x)| (k.clone(), to_json(x))).collect())
        }
    }
}

fn lines(ls: &[&str]) -> String {
    ls.join("\n")
}

/// Reads a session record the way the command does: one JSON document per
/// line, the lines that do not parse left out.
fn parse(text: &str) -> Rollout {
    Rollout::from_text("rollout.jsonl".to_string(), text)
}

#[test]
fn tokens_take_the_latest_cumulative_value() {
    let r = parse(&lines(&[
        r#"{"timestamp":"2026-09-03T00:00:00Z","type":"event_msg","payload":{"type":"token_count","info":{"model_context_window":258400,"total_token_usage":{"input_tokens":100,"cached_input_tokens":10,"output_tokens":20,"reasoning_output_tokens":5,"total_tokens":120}}}}"#,
        r#"{"timestamp":"2026-09-03T00:01:00Z","type":"event_msg","payload":{"type":"token_count","info":{"model_context_window":258400,"total_token_usage":{"input_tokens":900,"cached_input_tokens":300,"output_tokens":80,"reasoning_output_tokens":40,"total_tokens":980}}}}"#,
    ]));
    assert_eq!(r.tokens.input, 900);
    assert_eq!(r.tokens.cached_input, 300);
    assert_eq!(r.tokens.output, 80);
    assert_eq!(r.tokens.reasoning_output, 40);
    assert_eq!(r.tokens.total, 980);
    assert_eq!(r.tokens.context_window, Some(258400));
    assert_eq!(r.started_at.as_deref(), Some("2026-09-03T00:00:00Z"));
    assert_eq!(r.ended_at.as_deref(), Some("2026-09-03T00:01:00Z"));
    assert_eq!(r.source, "rollout.jsonl");
}

#[test]
fn skill_reads_are_detected() {
    let r = parse(
        r#"{"type":"response_item","payload":{"type":"custom_tool_call","name":"exec","input":"sed -n '1,200p' .agents/skills/script/SKILL.md; cat .agents/skills/director/SKILL.md"}}"#,
    );
    assert_eq!(r.skills_read, vec!["director", "script"]);
}

#[test]
fn the_arguments_field_is_read_and_tools_are_classified_by_name() {
    let r = parse(&lines(&[
        r#"{"type":"response_item","payload":{"type":"function_call","name":"studio_status","namespace":"mcp__video_studio","arguments":"{}"}}"#,
        r#"{"type":"response_item","payload":{"type":"function_call","name":"exec_command","arguments":"{\"cmd\":\"cat .agents/skills/director/SKILL.md\",\"workdir\":\"/x/千岛湖.studio\"}"}}"#,
    ]));
    assert_eq!(r.calls.studio_mcp, 1, "an MCP call is known by its name");
    assert_eq!(r.calls.shell, 1);
    assert_eq!(r.calls.other, 0);
    assert_eq!(r.skills_read, vec!["director"]);
}

#[test]
fn a_path_containing_dot_studio_is_not_mistaken_for_an_mcp_call() {
    let r = parse(
        r#"{"type":"response_item","payload":{"type":"function_call","name":"exec_command","arguments":"{\"cmd\":\"cat /home/me/千岛湖.studio/AGENTS.md\"}"}}"#,
    );
    assert_eq!(r.calls.studio_mcp, 0);
    assert_eq!(r.calls.shell, 1);
}

#[test]
fn doctrine_and_model_card_reads_are_detected() {
    let r = parse(
        r#"{"type":"response_item","payload":{"type":"function_call","name":"exec_command","arguments":"{\"cmd\":\"cat .agents/doctrine/camera/grammar.md .agents/doctrine/exemplars/storyboard.md && cat .agents/models/minimax_h3.md\"}"}}"#,
    );
    assert_eq!(
        r.doctrine_read,
        vec!["doctrine/camera/grammar.md", "doctrine/exemplars/storyboard.md", "models/minimax_h3.md"]
    );
}

#[test]
fn the_legacy_input_field_still_works() {
    let r = parse(r#"{"type":"response_item","payload":{"type":"custom_tool_call","input":"exec_command cat foo"}}"#);
    assert_eq!(r.calls.shell, 1);
}

#[test]
fn bypassing_mcp_is_called_out() {
    let r = parse(&lines(&[
        r#"{"type":"response_item","payload":{"type":"custom_tool_call","name":"exec","input":"python -c 'con.execute(\"UPDATE questions SET status=1\")'"}}"#,
        r#"{"type":"response_item","payload":{"type":"custom_tool_call","name":"exec","input":"sqlite3 .studio/studio.db 'select * from stages'"}}"#,
    ]));
    assert_eq!(r.bypasses.len(), 2);
    assert!(r.bypasses.iter().any(|b| b.contains("SQL UPDATE")));
    assert!(r.bypasses.iter().any(|b| b.contains("状态库")));
}

#[test]
fn a_clean_session_reports_no_bypass() {
    let r = parse(
        r#"{"type":"response_item","payload":{"type":"custom_tool_call","name":"exec","input":"tools.mcp__video_studio__studio.submit_stage({outputs: {...}})"}}"#,
    );
    assert!(r.bypasses.is_empty());
    assert_eq!(r.calls.studio_mcp, 1);
}

#[test]
fn message_and_reasoning_counts() {
    let r = parse(&lines(&[
        r#"{"type":"response_item","payload":{"type":"message","role":"user"}}"#,
        r#"{"type":"response_item","payload":{"type":"message","role":"assistant"}}"#,
        r#"{"type":"response_item","payload":{"type":"message","role":"assistant"}}"#,
        r#"{"type":"response_item","payload":{"type":"reasoning"}}"#,
    ]));
    assert_eq!((r.user_messages, r.assistant_messages, r.reasoning_blocks), (1, 2, 1));
}

#[test]
fn a_malformed_line_does_not_abort_the_parse() {
    let r = parse("{ 坏行\n{\"type\":\"response_item\",\"payload\":{\"type\":\"reasoning\"}}\n");
    assert_eq!(r.reasoning_blocks, 1);
}

#[test]
fn the_same_bypass_is_named_once() {
    let line = r#"{"type":"response_item","payload":{"type":"custom_tool_call","name":"exec","input":"sqlite3 .studio/studio.db 'select 1'"}}"#;
    let r = parse(&format!("{}\n{}\n", line, line));
    assert_eq!(r.bypasses.len(), 1, "{:?}", r.bypasses);
}

#[test]
fn calls_are_classified_by_name_then_by_arguments() {
    assert_eq!(classify("studio_status", "mcp__video_studio", "{}"), CallKind::StudioMcp);
    assert_eq!(classify("exec_command", "", "{}"), CallKind::Shell);
    assert!(sniff_bypass("ls -la").is_none());
    assert!(sniff_bypass("sqlite3 .studio/studio.db").is_some());
}

#[test]
fn session_metadata_is_taken_from_the_session_record() {
    let r = parse(&lines(&[
        r#"{"type":"session_meta","payload":{"session_id":"abc"}}"#,
        r#"{"type":"turn_context","payload":{"model":"gpt-y"}}"#,
        r#"{"type":"turn_context","payload":{"model":"gpt-z"}}"#,
    ]));
    assert_eq!(r.session_id.as_deref(), Some("abc"));
    assert_eq!(r.model.as_deref(), Some("gpt-y"), "the first model named is kept");
}
