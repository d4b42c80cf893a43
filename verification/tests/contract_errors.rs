use video_studio::contract::{
    AnswerOption, Blocked, Envelope, Outcome, Progress, ProjectInfo, ProjectStatus, Question,
    SelectionType, WaitingOn,
};
use video_studio::error::{error_codes, StudioError, Violation};
use video_studio::lexicon::{
    banned_tier1_hits, banned_tier2_hits, minimax_camera_command, values, vocabulary, ANGLES,
    BANNED_TIER1, BANNED_TIER2, BEAT_TYPES, CAMERA_MOTIONS, CAMERA_MOTION_LABELS,
    LIGHTING_KEYS, LIGHTING_SOURCES, MINIMAX_CAMERA_COMMANDS, SHOT_FUNCTIONS, SHOT_SIZES,
    VOCABULARIES,
};
use video_studio::stage::StageId;

fn q() -> Question {
    Question {
        question_id: "script.approval".to_string(),
        stage: StageId::Script,
        prompt: "确认剧本？".to_string(),
        selection_type: SelectionType::Single,
        options: vec![
            AnswerOption::new("approve".to_string(), "确认".to_string()),
            AnswerOption::new("revise".to_string(), "修改".to_string()),
        ],
    }
}

#[test]
fn question_validates_answers() {
    assert!(q().accepts("approve"));
    assert!(!q().accepts("nope"));
    assert_eq!(q().option_ids(), vec!["approve", "revise"]);
}

#[test]
fn blocked_from_error_always_has_remedy() {
    let e = StudioError::ConfirmationRequired { stage: StageId::Script, gate: "script.approval" };
    let b = Blocked::from_error(&e);
    assert_eq!(b.code, "confirmation_required");
    assert!(!b.remedy.is_empty());
}

fn envelope(pending: Option<Question>) -> Envelope {
    Envelope {
        project: ProjectInfo {
            title: "t".to_string(),
            stage: StageId::Script,
            status: ProjectStatus::Active,
        },
        waiting_on: WaitingOn::User,
        blocked_by: None,
        pending_question: pending,
        next_action: None,
        progress: Progress { completed: 2, total: 9 },
    }
}

#[test]
fn envelope_rejects_waiting_on_user_without_question() {
    assert!(envelope(None).assert_consistent().is_err());
}

#[test]
fn envelope_accepts_waiting_on_user_with_question() {
    assert!(envelope(Some(q())).assert_consistent().is_ok());
}

#[test]
fn an_answer_maps_to_the_outcome_of_its_option() {
    let mut question = q();
    question.options[1] = AnswerOption::revise("revise".to_string(), "修改".to_string());
    assert_eq!(question.outcome_of("approve"), Some(Outcome::Approve));
    assert_eq!(question.outcome_of("revise"), Some(Outcome::Revise));
    assert_eq!(question.outcome_of("nope"), None);
}

fn one_of_each() -> Vec<StudioError> {
    vec![
        StudioError::SchemaViolation {
            stage: StageId::Script,
            violations: vec![Violation::new("script.title".to_string(), "缺失".to_string())],
        },
        StudioError::InvalidTransition {
            stage: StageId::Script,
            current: "awaiting_confirmation",
            attempted: "submit",
            allowed: vec!["answer", "revise"],
        },
        StudioError::ConfirmationRequired { stage: StageId::Script, gate: "script.approval" },
        StudioError::GatePending { stage: StageId::Script, question_id: "script.approval".to_string() },
        StudioError::UnknownAnswer {
            question_id: "script.approval".to_string(),
            given: "x".to_string(),
            options: vec!["approve".to_string()],
        },
        StudioError::StageNotReady { stage: StageId::Render, blocked_on: StageId::PromptPack },
        StudioError::StateDrift { detail: "digest 不匹配".to_string() },
        StudioError::ProjectBusy { pid: Some(42), since: Some("2026-09-03T00:00:00Z".to_string()) },
        StudioError::ProjectBusy { pid: None, since: None },
        StudioError::NotAProject { path: "/tmp/x".to_string() },
        StudioError::ComfyUnavailable { tried: vec!["127.0.0.1:9001".to_string()] },
        StudioError::ComfyUnavailable { tried: vec![] },
        StudioError::ComfyFailed { node: "9001".to_string(), detail: "OOM".to_string() },
        StudioError::ModelContractViolation { detail: "缺 vae".to_string() },
        StudioError::ArtifactMissing { path: "media/sh01.mp4".to_string() },
        StudioError::ToolUnavailable { tool: "ffmpeg".to_string(), looked_in: vec![".env".to_string()] },
        StudioError::ToolUnavailable { tool: "ffprobe".to_string(), looked_in: vec![] },
        StudioError::RetryLimitExceeded { stage: StageId::Render, limit: 3 },
        StudioError::RetryStageMismatch { requested: StageId::Render, current: Some(StageId::Preview) },
        StudioError::RetryStageMismatch { requested: StageId::Render, current: None },
        StudioError::Internal { detail: "boom".to_string() },
    ]
}

#[test]
fn every_error_carries_a_remedy() {
    for e in one_of_each() {
        let r = e.remedy();
        assert!(r.len() > 10, "{} remedy is too short: {:?}", e.code(), r);
        assert!(!e.message().is_empty(), "{} has no message", e.code());
    }
}

#[test]
fn remedy_points_at_a_tool_or_command() {
    for e in one_of_each() {
        let r = e.remedy();
        let actionable = r.contains("studio.") || r.contains("studiod ") || r.contains(".env");
        assert!(actionable, "{} remedy gives no next step: {}", e.code(), r);
    }
}

#[test]
fn codes_are_unique_and_documented() {
    let mut seen = std::collections::HashSet::new();
    for (code, desc) in error_codes() {
        assert!(seen.insert(code), "duplicate code {}", code);
        assert!(!desc.is_empty());
    }
    for e in one_of_each() {
        assert!(seen.contains(e.code()), "{} is not registered", e.code());
    }
}

#[test]
fn an_error_renders_as_code_and_message() {
    let e = StudioError::NotAProject { path: "/tmp/x".to_string() };
    assert_eq!(e.code(), "not_a_project");
    assert!(e.to_string().contains("/tmp/x"));
    assert_eq!(StudioError::internal("boom".to_string()), StudioError::Internal { detail: "boom".to_string() });
}

#[test]
fn every_camera_motion_has_a_minimax_command_and_a_label() {
    for m in CAMERA_MOTIONS {
        assert!(minimax_camera_command(m).is_some(), "{} has no command", m);
        assert!(CAMERA_MOTION_LABELS.iter().any(|(k, _)| *k == m), "{} has no label", m);
    }
    assert_eq!(MINIMAX_CAMERA_COMMANDS.len(), CAMERA_MOTIONS.len());
    assert_eq!(CAMERA_MOTION_LABELS.len(), CAMERA_MOTIONS.len());
}

#[test]
fn every_vocabulary_value_has_a_label() {
    for name in VOCABULARIES {
        let vals = values(name).unwrap_or_else(|| panic!("{} has no values", name));
        let labels = vocabulary(name).unwrap_or_else(|| panic!("{} has no labels", name));
        assert_eq!(vals.len(), labels.len(), "{} values and labels differ in number", name);
        for v in vals {
            assert!(labels.iter().any(|(k, _)| k == v), "{}: {} has no label", name, v);
        }
        for (k, text) in labels {
            assert!(vals.contains(k), "{}: extra label {}", name, k);
            assert!(!text.is_empty(), "{}.{} has an empty label", name, k);
        }
    }
}

#[test]
fn no_duplicates_in_any_vocabulary() {
    for (name, words) in [
        ("shot_size", SHOT_SIZES.to_vec()),
        ("angle", ANGLES.to_vec()),
        ("camera_motion", CAMERA_MOTIONS.to_vec()),
        ("lighting_source", LIGHTING_SOURCES.to_vec()),
        ("lighting_key", LIGHTING_KEYS.to_vec()),
        ("shot_function", SHOT_FUNCTIONS.to_vec()),
        ("beat_type", BEAT_TYPES.to_vec()),
        ("banned_tier1", BANNED_TIER1.to_vec()),
        ("banned_tier2", BANNED_TIER2.to_vec()),
    ] {
        let mut sorted = words.clone();
        sorted.sort_unstable();
        let before = sorted.len();
        sorted.dedup();
        assert_eq!(before, sorted.len(), "{} has a duplicate", name);
    }
}

#[test]
fn banned_words_are_found_case_insensitively() {
    assert_eq!(banned_tier1_hits("A CINEMATIC shot"), vec!["cinematic"]);
    assert!(banned_tier1_hits("很有电影感的画面").contains(&"电影感"));
    assert!(banned_tier1_hits("船头切开湖面，她抬手别过碎发").is_empty());
    assert!(banned_tier2_hits("氛围感拉满，质感很好").len() >= 2);
}

#[test]
fn an_unknown_motion_or_vocabulary_has_no_entry() {
    assert_eq!(minimax_camera_command("teleport"), None);
    assert!(values("nope").is_none());
    assert!(vocabulary("nope").is_none());
}
