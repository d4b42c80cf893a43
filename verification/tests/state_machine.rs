use video_studio::contract::{AnswerOption, Confirmation, SelectionType};
use video_studio::error::StudioError;
use video_studio::json::{Json, Outputs};
use video_studio::stage::StageId;
use video_studio::state::{
    confirmation_violations, Draft, LoadedStage, Stage, StageState, Submitted,
};

fn conf() -> Confirmation {
    Confirmation {
        prompt: "是否确认这版剧本？".to_string(),
        selection_type: SelectionType::Single,
        options: vec![
            AnswerOption::new("approve".to_string(), "确认剧本，进入分镜".to_string()),
            AnswerOption::revise("revise".to_string(), "继续修改".to_string()),
        ],
    }
}

fn outs(k: &str) -> Outputs {
    let mut m = Outputs::new();
    m.insert(k.to_string(), Json::Object(vec![("ok".to_string(), Json::Bool(true))]));
    m
}

fn awaiting_script() -> Stage<video_studio::state::AwaitingConfirmation> {
    match Stage::<Draft>::new(StageId::Script).submit(outs("script"), Some(conf())).unwrap() {
        Submitted::AwaitingConfirmation(s) => s,
        _ => panic!("expected a pending stage"),
    }
}

#[test]
fn gated_stage_requires_confirmation() {
    let s = Stage::<Draft>::new(StageId::Script);
    let e = s.submit(outs("script"), None).unwrap_err();
    assert_eq!(e.code(), "confirmation_required");
    assert!(e.remedy().contains("confirmation"));
}

#[test]
fn gateless_stage_approves_directly() {
    let s = Stage::<Draft>::new(StageId::Idea);
    let r = s.submit(outs("brief"), None).unwrap();
    assert_eq!(r.state(), StageState::Approved);
    assert!(r.question().is_none());
}

#[test]
fn gated_stage_hangs_the_gate() {
    let s = Stage::<Draft>::new(StageId::Script);
    let r = s.submit(outs("script"), Some(conf())).unwrap();
    assert_eq!(r.state(), StageState::AwaitingConfirmation);
    assert_eq!(r.question().unwrap().question_id, "script.approval");
    assert!(r.outputs().is_some());
}

#[test]
fn bad_confirmation_is_a_schema_violation() {
    let mut c = conf();
    c.options.clear();
    let e = Stage::<Draft>::new(StageId::Script).submit(outs("script"), Some(c)).unwrap_err();
    assert_eq!(e.code(), "schema_violation");
}

#[test]
fn single_select_needs_two_options() {
    let mut c = conf();
    c.options.truncate(1);
    let e = Stage::<Draft>::new(StageId::Script).submit(outs("script"), Some(c)).unwrap_err();
    assert_eq!(e.code(), "schema_violation");
}

#[test]
fn duplicate_option_ids_rejected() {
    let mut c = conf();
    c.options[1] = AnswerOption::new("approve".to_string(), "又一个 approve".to_string());
    let e = Stage::<Draft>::new(StageId::Script).submit(outs("script"), Some(c)).unwrap_err();
    assert_eq!(e.code(), "schema_violation");
}

#[test]
fn a_good_confirmation_has_no_violations() {
    assert!(confirmation_violations(&conf()).is_empty());
    let mut c = conf();
    c.prompt = "  ".to_string();
    c.options.clear();
    let v = confirmation_violations(&c);
    assert!(v.len() >= 2, "{:?}", v);
    assert!(v.iter().any(|x| x.path == "confirmation.prompt"), "{:?}", v);
}

#[test]
fn unknown_answer_is_rejected_with_options() {
    let e = awaiting_script().approve("怎么都行").unwrap_err();
    assert_eq!(e.code(), "unknown_answer");
    assert!(e.remedy().contains("approve"));
}

#[test]
fn revise_then_resubmit_works_in_one_pass() {
    let awaiting = awaiting_script();
    assert_eq!(awaiting.attempt(), 1);
    let draft = awaiting.revise("不要固定2秒，要根据镜头内容智能分配");
    assert_eq!(draft.attempt(), 2);
    let again = draft.submit(outs("script"), Some(conf())).unwrap();
    assert_eq!(again.state(), StageState::AwaitingConfirmation);
    let approved = match again {
        Submitted::AwaitingConfirmation(s) => s.approve("approve").unwrap(),
        _ => panic!("expected a pending stage"),
    };
    assert_eq!(approved.id().next(), Some(StageId::Storyboard));
    assert_eq!(approved.attempt(), 2);
}

#[test]
fn choosing_a_revise_option_is_not_an_approval() {
    let e = awaiting_script().approve("revise").unwrap_err();
    assert_eq!(e.code(), "unknown_answer");
    match &e {
        StudioError::UnknownAnswer { options, .. } => {
            assert_eq!(options, &vec!["approve".to_string()], "only approving options are listed");
        }
        other => panic!("got {:?}", other),
    }
}

#[test]
fn a_gate_with_no_approving_option_is_rejected() {
    let c = Confirmation {
        prompt: "改还是改？".to_string(),
        selection_type: SelectionType::Single,
        options: vec![
            AnswerOption::revise("revise_a".to_string(), "这样改".to_string()),
            AnswerOption::revise("revise_b".to_string(), "那样改".to_string()),
        ],
    };
    let e = Stage::<Draft>::new(StageId::Script).submit(outs("script"), Some(c)).unwrap_err();
    assert_eq!(e.code(), "schema_violation");
}

#[test]
fn undo_returns_to_draft_and_bumps_attempt() {
    let approved = match Stage::<Draft>::new(StageId::Idea).submit(outs("brief"), None).unwrap() {
        Submitted::Approved(s) => s,
        _ => panic!(),
    };
    let d = approved.undo();
    assert_eq!(d.attempt(), 2);
    assert!(d.outputs().is_some(), "the draft keeps the previous outputs");
}

#[test]
fn loaded_stage_rejects_awaiting_without_question() {
    let e = LoadedStage::load(StageId::Script, StageState::AwaitingConfirmation, 1, Some(outs("script")), None)
        .unwrap_err();
    assert_eq!(e.code(), "state_drift");
}

#[test]
fn allowed_actions_match_state() {
    let d = LoadedStage::load(StageId::Script, StageState::Draft, 1, None, None).unwrap();
    assert_eq!(d.allowed_actions(), vec!["studio.submit_stage"]);
    let a = LoadedStage::load(StageId::Idea, StageState::Approved, 1, None, None).unwrap();
    assert!(a.allowed_actions().contains(&"studio.undo"));
    assert_eq!(a.state(), StageState::Approved);
    assert_eq!(a.id(), StageId::Idea);
    assert_eq!(a.attempt(), 1);
    assert_eq!(StageState::AwaitingConfirmation.as_str(), "awaiting_confirmation");
}

#[test]
fn a_resumed_gate_can_still_be_answered() {
    let q = awaiting_script().question().clone();
    let l = LoadedStage::load(StageId::Script, StageState::AwaitingConfirmation, 3, Some(outs("script")), Some(q))
        .unwrap();
    match l {
        LoadedStage::Awaiting(s) => {
            let a = s.approve("approve").unwrap();
            assert_eq!(a.attempt(), 3);
        }
        _ => panic!("expected a pending stage"),
    }
}
