use video_studio::assembly::{is_on_frame_grid, parse_shot_segment, split_target};

#[test]
fn the_shot_segment_rule_parses_every_documented_form() {
    let bare = parse_shot_segment("sh01.tail").unwrap();
    assert_eq!(bare.shot_id, "sh01");
    assert!(bare.from_tail);
    assert_eq!(bare.frames, None, "no frame count means a still");

    let clip = parse_shot_segment("S02.tail22").unwrap();
    assert_eq!(clip.shot_id, "S02");
    assert!(clip.from_tail);
    assert_eq!(clip.frames, Some(22), "a frame count means a clip");

    let head = parse_shot_segment("S02.head5").unwrap();
    assert!(!head.from_tail);
    assert_eq!(head.frames, Some(5));

    for not_a_segment in ["C01.front", "C01", "SC02.key_angle", "sh01.", "sh01.tails"] {
        assert!(parse_shot_segment(not_a_segment).is_none(), "{} is not a segment", not_a_segment);
    }
}

#[test]
fn the_frame_grid_is_eight_k_plus_one_shaped() {
    for ok in [5i64, 22, 39, 56, 73] {
        assert!(is_on_frame_grid(ok), "{}", ok);
    }
    for off in [0i64, 4, 6, 21, 23, -12] {
        assert!(!is_on_frame_grid(off), "{}", off);
    }
}

#[test]
fn a_target_path_names_a_node_and_an_input() {
    assert_eq!(split_target("sampler.inputs.seed").unwrap(), ("sampler".to_string(), "seed".to_string()));
    assert!(split_target("nodot").is_err());
    assert!(split_target("sampler.widgets.seed").is_err());
    assert!(split_target(".inputs.seed").is_err());
}
