use video_studio::stage::{stage_graph, StageId};

#[test]
fn index_matches_graph_order() {
    for (i, spec) in stage_graph().iter().enumerate() {
        assert_eq!(spec.id.index(), i, "{:?} index disagrees with the graph order", spec.id);
        assert_eq!(spec.id.spec().id, spec.id);
    }
}

#[test]
fn parse_roundtrip() {
    for stage in StageId::all() {
        assert_eq!(StageId::parse(stage.as_str()), Some(stage));
    }
    assert_eq!(StageId::parse("nope"), None);
}

#[test]
fn six_gates_on_the_expected_stages() {
    let gated: Vec<StageId> = StageId::all().into_iter().filter(|s| s.gate().is_some()).collect();
    assert_eq!(
        gated,
        vec![
            StageId::Selection,
            StageId::Script,
            StageId::Storyboard,
            StageId::VisualAssets,
            StageId::PromptPack,
            StageId::Preview,
        ]
    );
}

#[test]
fn preview_revises_back_to_prompt_pack() {
    assert_eq!(StageId::Preview.revise_target(), StageId::PromptPack);
    for stage in StageId::all() {
        if stage != StageId::Preview {
            assert_eq!(stage.revise_target(), stage, "{:?} must not be redirected", stage);
        }
    }
}

#[test]
fn idea_and_review_have_no_gate() {
    assert!(StageId::Idea.gate().is_none());
    assert!(StageId::Review.gate().is_none());
}

#[test]
fn chain_is_linear_and_terminates() {
    let mut s = StageId::first();
    let mut n = 1;
    while let Some(next) = s.next() {
        s = next;
        n += 1;
    }
    assert_eq!(n, 10);
    assert_eq!(s, StageId::Review);
}

#[test]
fn every_stage_names_its_output_key_and_parses_back() {
    assert_eq!(StageId::Script.output_key(), "script");
    assert_eq!(StageId::VisualAssets.as_str(), "visual_assets");
    assert_eq!(StageId::parse("visual_assets"), Some(StageId::VisualAssets));
    assert_eq!(StageId::parse("Script"), None);
    assert_eq!(StageId::Script.gate(), Some("script.approval"));
}
