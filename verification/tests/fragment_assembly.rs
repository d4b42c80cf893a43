use video_studio::assemble::{assemble, assemble_as, AssembledGraph, Combination};
use video_studio::assembly::{
    is_on_frame_grid, validate_shot, AutogrowSlot, Fragment, FragmentSet, Guide, GuideKind,
    Medium, Reference, ShotDeclaration,
};
use video_studio::error::Violation;
use video_studio::fragment::FragmentKind;
use video_studio::json::{Decimal, Json, Number};
use video_studio::json_text::{number_from_text, parse_json_text};

fn decimal_of(text: &str) -> Number {
    let (int_part, frac_part) = match text.split_once('.') {
        Some((a, b)) => (a.to_string(), b.to_string()),
        None => (text.to_string(), String::new()),
    };
    let digits = format!("{}{}", int_part, frac_part);
    Number::Frac(Decimal::new(digits.parse::<i64>().unwrap(), frac_part.len() as u8))
}

fn to_json(v: &serde_json::Value) -> Json {
    match v {
        serde_json::Value::Null => Json::Null,
        serde_json::Value::Bool(b) => Json::Bool(*b),
        serde_json::Value::Number(n) => {
            if let Some(i) = n.as_i64() {
                Json::Num(Number::Int(i as i128))
            } else if let Some(u) = n.as_u64() {
                Json::Num(Number::Int(u as i128))
            } else {
                Json::Num(decimal_of(&n.to_string()))
            }
        }
        serde_json::Value::String(s) => Json::Str(s.clone()),
        serde_json::Value::Array(a) => Json::Array(a.iter().map(to_json).collect()),
        serde_json::Value::Object(m) => {
            Json::Object(m.iter().map(|(k, x)| (k.clone(), to_json(x))).collect())
        }
    }
}

fn from_json(v: &Json) -> serde_json::Value {
    match v {
        Json::Null => serde_json::Value::Null,
        Json::Bool(b) => serde_json::Value::Bool(*b),
        Json::Num(Number::Int(i)) => {
            if *i >= 0 {
                serde_json::Value::from(*i as u64)
            } else {
                serde_json::Value::from(*i as i64)
            }
        }
        Json::Num(Number::Frac(d)) => {
            serde_json::Value::from(d.mantissa as f64 / 10f64.powi(d.scale as i32))
        }
        Json::Str(s) => serde_json::Value::String(s.clone()),
        Json::Array(a) => serde_json::Value::Array(a.iter().map(from_json).collect()),
        Json::Object(e) => {
            let mut m = serde_json::Map::new();
            for (k, x) in e {
                m.insert(k.clone(), from_json(x));
            }
            serde_json::Value::Object(m)
        }
    }
}

fn val(text: &str) -> serde_json::Value {
    serde_json::from_str(text).unwrap()
}

fn parse(text: &str) -> Json {
    Json::from_raw(&parse_json_text(text).unwrap()).unwrap()
}

fn entries(text: &str) -> Vec<(String, Json)> {
    match parse(text) {
        Json::Object(e) => e,
        _ => panic!("not an object"),
    }
}

fn places(v: &[&str]) -> Vec<String> {
    v.iter().map(|s| s.to_string()).collect()
}

fn bind(f: &mut Fragment, param: &str, targets: &[&str]) {
    f.bindings.push((param.to_string(), places(targets)));
}

fn slot(target: &str, prefix: &str, max: usize) -> AutogrowSlot {
    AutogrowSlot { target: target.to_string(), prefix: prefix.to_string(), max, verified: true, unverified_reason: None }
}

fn entry_mut<'a, V>(v: &'a mut Vec<(String, V)>, key: &str) -> &'a mut V {
    &mut v.iter_mut().find(|(k, _)| k == key).unwrap().1
}

/// A small but complete fragment library, shaped like the real one.
fn fragments() -> FragmentSet {
    let mut backbone = Fragment::new(
        "minimax_h3".to_string(),
        entries(
            r#"{
            "load_unet": { "class_type": "UNETLoader", "inputs": { "unet_name": "PLACEHOLDER" } },
            "sigmashift": { "class_type": "MiniMaxH3SigmaShift", "inputs": { "model": ["load_unet", 0] } },
            "load_clip": { "class_type": "CLIPLoader", "inputs": {} },
            "vae_video": { "class_type": "VAELoader", "inputs": {} },
            "vae_audio": { "class_type": "VAELoader", "inputs": {} },
            "noise": { "class_type": "RandomNoise", "inputs": {} },
            "scheduler": { "class_type": "BasicScheduler", "inputs": { "scheduler": "PLACEHOLDER", "steps": 20 } },
            "guider": { "class_type": "BasicGuider", "inputs": { "model": ["sigmashift", 0] } },
            "sampler": { "class_type": "SamplerCustomAdvanced", "inputs": { "guider": ["guider", 0] } },
            "create_video": { "class_type": "CreateVideo", "inputs": {} },
            "save_video": { "class_type": "SaveVideo", "inputs": {} }
        }"#,
        ),
    );
    bind(&mut backbone, "fps", &["create_video.inputs.fps"]);
    bind(&mut backbone, "output_prefix", &["save_video.inputs.filename_prefix"]);
    bind(&mut backbone, "seed", &["noise.inputs.noise_seed"]);
    backbone.must_be_filled = places(&[
        "guider.inputs.conditioning",
        "sampler.inputs.latent_image",
        "save_video.inputs.filename_prefix",
    ]);

    let mut head_ref = Fragment::new(
        "reference".to_string(),
        entries(r#"{ "h3_ref": { "class_type": "MiniMaxH3ReferenceToVideo", "inputs": {} } }"#),
    );
    head_ref.backbone_overrides = entries(
        r#"{ "load_unet.inputs.unet_name": "minimax_h3_ref2va_int8_convrot.safetensors",
             "scheduler.inputs.scheduler": "beta" }"#,
    );
    head_ref.outputs = entries(r#"{ "conditioning": ["h3_ref", 0], "latent": ["h3_ref", 1] }"#);
    head_ref.wires_from_backbone = entries(r#"{ "h3_ref.inputs.clip": ["load_clip", 0] }"#);
    bind(&mut head_ref, "height", &["h3_ref.inputs.height"]);
    bind(&mut head_ref, "length_frames", &["h3_ref.inputs.length"]);
    bind(&mut head_ref, "positive", &["h3_ref.inputs.prompt"]);
    bind(&mut head_ref, "width", &["h3_ref.inputs.width"]);
    head_ref.autogrow = vec![
        ("image".to_string(), slot("h3_ref.inputs.ref_images", "ref_image_", 9)),
        ("video".to_string(), slot("h3_ref.inputs.ref_videos", "ref_video_", 3)),
        ("video_audio".to_string(), slot("h3_ref.inputs.ref_video_audios", "ref_video_audio_", 3)),
    ];

    let mut head_img = Fragment::new(
        "image".to_string(),
        entries(r#"{ "h3_i2v": { "class_type": "MiniMaxH3ImageToVideo", "inputs": {} } }"#),
    );
    head_img.backbone_overrides = entries(
        r#"{ "load_unet.inputs.unet_name": "minimax_h3_fl2va_int8_convrot.safetensors",
             "scheduler.inputs.scheduler": "simple" }"#,
    );
    head_img.outputs = entries(r#"{ "conditioning": ["h3_i2v", 0], "latent": ["h3_i2v", 1] }"#);
    bind(&mut head_img, "height", &["h3_i2v.inputs.height"]);
    bind(&mut head_img, "length_frames", &["h3_i2v.inputs.length"]);
    bind(&mut head_img, "positive", &["h3_i2v.inputs.prompt"]);
    bind(&mut head_img, "width", &["h3_i2v.inputs.width"]);
    head_img.frames = vec![
        ("first".to_string(), "h3_i2v.inputs.first_frame".to_string()),
        ("last".to_string(), "h3_i2v.inputs.last_frame".to_string()),
    ];

    let guide = |id: &str| {
        let mut g = Fragment::new(
            id.to_string(),
            entries(r#"{ "add_guide": { "class_type": "MiniMaxH3AddGuide", "inputs": {} } }"#),
        );
        g.media_input = Some("add_guide.inputs.image".to_string());
        bind(&mut g, "at_frame", &["add_guide.inputs.frame_idx"]);
        g.chain = entries(
            r#"{ "latent_in": "add_guide.inputs.latent",
                 "positive_in": "add_guide.inputs.positive",
                 "positive_out": ["add_guide", 0] }"#,
        );
        g
    };

    let mut input_img = Fragment::new(
        "image".to_string(),
        entries(r#"{ "load": { "class_type": "LoadImage", "inputs": {} } }"#),
    );
    bind(&mut input_img, "filename", &["load.inputs.image"]);
    input_img.input_outputs = entries(r#"{ "image": ["load", 0] }"#);

    let mut input_video = Fragment::new(
        "video".to_string(),
        entries(
            r#"{ "load": { "class_type": "LoadVideo", "inputs": {} },
                 "split": { "class_type": "GetVideoComponents", "inputs": { "video": ["load", 0] } } }"#,
        ),
    );
    bind(&mut input_video, "filename", &["load.inputs.file"]);
    input_video.input_outputs = entries(r#"{ "audio": ["split", 1], "image": ["split", 0] }"#);

    let mut overlay_ref = Fragment::new(
        "reference".to_string(),
        entries(
            r#"{ "lora": { "class_type": "LoraLoaderModelOnly",
                           "inputs": { "lora_name": "ref2v_turbo_4step.safetensors", "strength_model": 1.0 } } }"#,
        ),
    );
    overlay_ref.wires_from_backbone = entries(r#"{ "lora.inputs.model": ["load_unet", 0] }"#);
    overlay_ref.backbone_overrides = entries(
        r#"{ "scheduler.inputs.scheduler": "simple",
             "scheduler.inputs.steps": 4,
             "sigmashift.inputs.model": ["lora", 0] }"#,
    );

    FragmentSet {
        backbone: Some(backbone),
        heads: vec![("image".to_string(), head_img), ("reference".to_string(), head_ref)],
        guides: vec![("clip".to_string(), guide("clip")), ("image".to_string(), guide("image"))],
        inputs: vec![("image".to_string(), input_img), ("video".to_string(), input_video)],
        overlays: vec![("reference".to_string(), overlay_ref)],
    }
}

fn shot(head: &str) -> ShotDeclaration {
    ShotDeclaration {
        shot_id: "S01".to_string(),
        head: head.to_string(),
        positive: "一位女性走过红土球场".to_string(),
        width: 1344,
        height: 768,
        length_frames: 73,
        fps: Number::Frac(Decimal::new(240, 1)),
        seed: 101,
        references: vec![],
        guides: vec![],
        first_frame: None,
        last_frame: None,
    }
}

fn img_ref(asset: &str) -> Reference {
    Reference { kind: Medium::Image, asset_id: asset.to_string(), with_audio: false }
}

fn guide_at(kind: GuideKind, at_frame: i64, asset: &str) -> Guide {
    Guide { kind, at_frame, asset_id: asset.to_string() }
}

fn graph(out: &AssembledGraph) -> serde_json::Value {
    from_json(&out.graph)
}

fn assets() -> Vec<String> {
    places(&["C01.front", "C01.anchor", "SC02.key", "S02.tail"])
}

fn find<'a>(vs: &'a [Violation], needle: &str) -> Option<&'a Violation> {
    vs.iter().find(|v| v.message.contains(needle))
}

#[test]
fn a_bare_image_shot_wires_head_straight_into_the_guider() {
    let mut s = shot("image");
    s.first_frame = Some("plate.png".to_string());
    let out = assemble(&fragments(), &s, "media/S01").unwrap();
    let g = graph(&out);
    assert_eq!(g["guider"]["inputs"]["conditioning"], val(r#"["h3_i2v", 0]"#));
    assert_eq!(g["sampler"]["inputs"]["latent_image"], val(r#"["h3_i2v", 1]"#));
    assert_eq!(g["scheduler"]["inputs"]["scheduler"], val(r#""simple""#));
    assert_eq!(g["load_unet"]["inputs"]["unet_name"], val(r#""minimax_h3_fl2va_int8_convrot.safetensors""#));
    assert_eq!(g["h3_i2v"]["inputs"]["first_frame"], val(r#"["first_frame_load", 0]"#));
    assert_eq!(g["first_frame_load"]["inputs"]["image"], val(r#""plate.png""#));
    assert_eq!(g["save_video"]["inputs"]["filename_prefix"], val(r#""media/S01""#));
    assert_eq!(g["noise"]["inputs"]["noise_seed"], val("101"));
    assert_eq!(g["h3_i2v"]["inputs"]["length"], val("73"));
}

#[test]
fn chained_guides_thread_positive_but_always_take_latent_from_the_head() {
    let mut s = shot("reference");
    s.references = vec![img_ref("C01.front"), img_ref("SC02.key")];
    s.guides = vec![guide_at(GuideKind::Image, 0, "S02.tail"), guide_at(GuideKind::Image, -1, "C01.profile")];
    let out = assemble(&fragments(), &s, "media/S03").unwrap();
    let g = graph(&out);
    assert_eq!(g["guide1_add_guide"]["inputs"]["positive"], val(r#"["h3_ref", 0]"#));
    assert_eq!(g["guide2_add_guide"]["inputs"]["positive"], val(r#"["guide1_add_guide", 0]"#));
    assert_eq!(g["guider"]["inputs"]["conditioning"], val(r#"["guide2_add_guide", 0]"#));
    assert_eq!(g["guide1_add_guide"]["inputs"]["latent"], val(r#"["h3_ref", 1]"#));
    assert_eq!(g["guide2_add_guide"]["inputs"]["latent"], val(r#"["h3_ref", 1]"#));
    assert_eq!(g["sampler"]["inputs"]["latent_image"], val(r#"["h3_ref", 1]"#));
    assert_eq!(g["guide2_add_guide"]["inputs"]["frame_idx"], val("-1"));
    assert_eq!(
        g["h3_ref"]["inputs"]["ref_images"],
        val(r#"{ "ref_image_1": ["ref1_load", 0], "ref_image_2": ["ref2_load", 0] }"#)
    );
    assert_eq!(g["scheduler"]["inputs"]["scheduler"], val(r#""beta""#));
}

#[test]
fn the_preview_turbo_combination_swaps_in_the_lora_and_its_steps() {
    let out = assemble_as(&fragments(), &shot("reference"), "media/S01", Combination::PreviewTurbo).unwrap();
    let g = graph(&out);
    assert_eq!(g["lora"]["class_type"], val(r#""LoraLoaderModelOnly""#));
    assert_eq!(g["lora"]["inputs"]["model"], val(r#"["load_unet", 0]"#));
    assert_eq!(g["sigmashift"]["inputs"]["model"], val(r#"["lora", 0]"#));
    assert_eq!(g["scheduler"]["inputs"]["steps"], val("4"));
    assert_eq!(g["scheduler"]["inputs"]["scheduler"], val(r#""simple""#));
    assert!(out.used.contains(&"overlay/reference".to_string()));
    assert!(out.notes.is_empty(), "no fallback note when the overlay is used");
}

#[test]
fn the_standard_combination_has_no_lora() {
    let out = assemble(&fragments(), &shot("reference"), "media/S01").unwrap();
    let g = graph(&out);
    assert!(g.get("lora").is_none());
    assert_eq!(g["scheduler"]["inputs"]["steps"], val("20"));
    assert_eq!(g["scheduler"]["inputs"]["scheduler"], val(r#""beta""#));
    assert_eq!(out.used[0], "backbone/minimax_h3");
    assert_eq!(out.used[1], "head/reference");
}

#[test]
fn an_unverified_overlay_falls_back_and_says_so() {
    let mut set = fragments();
    let o = entry_mut(&mut set.overlays, "reference");
    o.verified = false;
    o.unavailable_reason = Some("没在真机上出过片".to_string());
    let out = assemble_as(&set, &shot("reference"), "m/S01", Combination::PreviewTurbo).unwrap();
    let g = graph(&out);
    assert!(g.get("lora").is_none());
    assert_eq!(g["scheduler"]["inputs"]["steps"], val("20"));
    assert_eq!(out.notes.len(), 1);
    assert!(out.notes[0].contains("没在真机上出过片"), "{:?}", out.notes);
}

#[test]
fn a_head_without_an_overlay_falls_back_quietly() {
    let mut set = fragments();
    set.overlays.clear();
    let out = assemble_as(&set, &shot("image"), "m/S01", Combination::PreviewTurbo).unwrap();
    assert!(graph(&out).get("lora").is_none());
    assert_eq!(out.notes.len(), 1);
    assert!(out.notes[0].contains("没有 turbo 叠加层"), "{:?}", out.notes);
}

#[test]
fn a_clip_guide_loads_a_frame_sequence_not_a_still() {
    let mut s = shot("reference");
    s.guides = vec![guide_at(GuideKind::Clip, 0, "S02.tail22")];
    let g = graph(&assemble(&fragments(), &s, "media/S03").unwrap());
    assert_eq!(g["guide1_src_load"]["class_type"], val(r#""LoadVideo""#));
    assert_eq!(g["guide1_add_guide"]["inputs"]["image"], val(r#"["guide1_src_split", 0]"#));
    let mut s2 = shot("reference");
    s2.guides = vec![guide_at(GuideKind::Image, 0, "C01.front")];
    let g2 = graph(&assemble(&fragments(), &s2, "media/S03").unwrap());
    assert_eq!(g2["guide1_src_load"]["class_type"], val(r#""LoadImage""#));
}

#[test]
fn a_crowd_shot_numbers_every_reference_slot_in_order() {
    let mut s = shot("reference");
    s.references = (0..5).map(|i| img_ref(&format!("A{}", i))).collect();
    let g = graph(&assemble(&fragments(), &s, "media/S07").unwrap());
    let slots = g["h3_ref"]["inputs"]["ref_images"].as_object().unwrap();
    assert_eq!(slots.len(), 5);
    for n in 1..=5 {
        assert!(slots.contains_key(&format!("ref_image_{}", n)), "missing ref_image_{}", n);
    }
}

#[test]
fn assembling_the_same_declaration_twice_is_byte_identical() {
    let mut s = shot("reference");
    s.references = vec![img_ref("C01"), img_ref("C02"), img_ref("C03")];
    s.guides = vec![guide_at(GuideKind::Image, 5, "G")];
    let a = assemble(&fragments(), &s, "media/S01").unwrap();
    let b = assemble(&fragments(), &s, "media/S01").unwrap();
    assert_eq!(a.graph, b.graph);
    assert_eq!(a.used, b.used);
}

#[test]
fn a_video_reference_with_audio_takes_the_same_numbered_slot() {
    let mut s = shot("reference");
    s.references = vec![Reference { kind: Medium::Video, asset_id: "C01.anchor".to_string(), with_audio: true }];
    let g = graph(&assemble(&fragments(), &s, "media/S01").unwrap());
    assert_eq!(g["ref1_split"]["inputs"]["video"], val(r#"["ref1_load", 0]"#));
    assert_eq!(g["h3_ref"]["inputs"]["ref_videos"], val(r#"{ "ref_video_1": ["ref1_split", 0] }"#));
    assert_eq!(g["h3_ref"]["inputs"]["ref_video_audios"], val(r#"{ "ref_video_audio_1": ["ref1_split", 1] }"#));
}

#[test]
fn exceeding_a_slot_cap_is_a_schema_violation_not_a_silent_drop() {
    let mut s = shot("reference");
    s.references = (0..10).map(|i| img_ref(&format!("A{}", i))).collect();
    let e = assemble(&fragments(), &s, "media/S01").unwrap_err();
    assert_eq!(e.code(), "schema_violation");
    assert!(e.message().contains("最多挂 9"), "{}", e.message());
}

#[test]
fn an_unknown_head_names_what_is_available() {
    let e = assemble(&fragments(), &shot("teleport"), "media/S01").unwrap_err();
    assert_eq!(e.code(), "model_contract_violation");
    assert!(e.message().contains("image"), "{}", e.message());
    assert!(e.message().contains("reference"), "{}", e.message());
}

#[test]
fn an_image_head_refuses_references_instead_of_dropping_them() {
    let mut s = shot("image");
    s.references = vec![img_ref("C01")];
    let e = assemble(&fragments(), &s, "media/S01").unwrap_err();
    assert_eq!(e.code(), "model_contract_violation");
    assert!(e.message().contains("不接"), "{}", e.message());
}

#[test]
fn an_unverified_fragment_blocks_rendering() {
    let mut set = fragments();
    let v = entry_mut(&mut set.inputs, "image");
    v.verified = false;
    v.unavailable_reason = Some("没在真机上跑通过".to_string());
    let mut s = shot("reference");
    s.references = vec![img_ref("C01")];
    let e = assemble(&set, &s, "media/S01").unwrap_err();
    assert_eq!(e.code(), "model_contract_violation");
    assert!(e.message().contains("尚未核验"), "{}", e.message());
    assert!(e.message().contains("没在真机上跑通过"), "{}", e.message());
}

#[test]
fn a_backbone_hole_left_unfilled_is_reported() {
    let mut set = fragments();
    set.backbone.as_mut().unwrap().bindings.retain(|(k, _)| k != "output_prefix");
    let e = assemble(&set, &shot("image"), "media/S01").unwrap_err();
    assert_eq!(e.code(), "model_contract_violation");
    assert!(e.message().contains("filename_prefix"), "{}", e.message());
}

#[test]
fn a_library_without_a_backbone_cannot_assemble() {
    let mut set = fragments();
    set.backbone = None;
    let e = assemble(&set, &shot("image"), "media/S01").unwrap_err();
    assert_eq!(e.code(), "model_contract_violation");
    assert!(e.message().contains("backbone"), "{}", e.message());
}

#[test]
fn v4_frames_off_the_grid_are_rejected_with_the_nearest_legal_values() {
    assert!(is_on_frame_grid(5) && is_on_frame_grid(22) && is_on_frame_grid(73));
    assert!(!is_on_frame_grid(50) && !is_on_frame_grid(0));
    let mut s = shot("reference");
    s.length_frames = 50;
    let v = validate_shot(&fragments(), &s, &[], &[], 0);
    let hit = find(&v, "帧数网格").expect("the frame grid must be reported");
    assert!(hit.message.contains("39") && hit.message.contains("56"), "{}", hit.message);
    assert_eq!(hit.path, "prompt_pack.shots[0].length_frames");
}

#[test]
fn v8_dimensions_must_be_multiples_of_32_and_within_the_native_canvas() {
    let mut s = shot("reference");
    s.width = 1000;
    s.height = 900;
    let v = validate_shot(&fragments(), &s, &[], &[], 0);
    assert!(find(&v, "32 的倍数").is_some(), "{:?}", v);
    assert!(find(&v, "原生画布").is_some(), "{:?}", v);
}

#[test]
fn v1_too_many_references_are_caught_at_submit_time() {
    let mut s = shot("reference");
    s.references = (0..10).map(|i| img_ref(&format!("A{}", i))).collect();
    let v = validate_shot(&fragments(), &s, &[], &[], 0);
    assert!(find(&v, "最多 9 个").is_some(), "{:?}", v);
}

#[test]
fn v2_an_image_head_takes_neither_references_nor_arbitrary_frame_guides() {
    let mut s = shot("image");
    s.references = vec![img_ref("C01.front")];
    s.guides = vec![guide_at(GuideKind::Image, 30, "S02.tail")];
    let v = validate_shot(&fragments(), &s, &[], &[], 0);
    assert!(find(&v, "不接参考").is_some(), "{:?}", v);
    assert!(find(&v, "只能锚首帧").is_some(), "{:?}", v);
}

#[test]
fn v3_guide_frames_must_fall_inside_the_shot() {
    let mut s = shot("reference");
    s.length_frames = 22;
    s.guides = vec![guide_at(GuideKind::Image, 22, "S02.tail"), guide_at(GuideKind::Image, -1, "S02.tail")];
    let v = validate_shot(&fragments(), &s, &[], &["S02".to_string()], 0);
    assert_eq!(v.len(), 1, "only the first is out of range: {:?}", v);
    assert!(v[0].message.contains("[-22, 22)"), "{}", v[0].message);
}

#[test]
fn v6_only_a_video_reference_may_carry_audio() {
    let mut s = shot("reference");
    s.references = vec![Reference { kind: Medium::Image, asset_id: "C01.front".to_string(), with_audio: true }];
    let v = validate_shot(&fragments(), &s, &[], &[], 0);
    assert!(find(&v, "只有 video").is_some(), "{:?}", v);
}

#[test]
fn v7_an_unknown_asset_id_lists_what_is_available() {
    let mut s = shot("reference");
    s.references = vec![img_ref("C99.nope")];
    let v = validate_shot(&fragments(), &s, &assets(), &[], 0);
    let hit = find(&v, "C99.nope").expect("the unknown asset is named");
    assert!(hit.message.contains("C01.front"), "{}", hit.message);
}

#[test]
fn an_unverified_autogrow_slot_is_refused_with_its_reason() {
    let mut set = fragments();
    {
        let head = entry_mut(&mut set.heads, "reference");
        let slot = entry_mut(&mut head.autogrow, "image");
        slot.verified = false;
        slot.unverified_reason = Some("挂上去输出里量不到影响".to_string());
    }
    let mut s = shot("reference");
    s.references = vec![img_ref("C01")];
    let v = validate_shot(&set, &s, &assets(), &[], 0);
    let hit = find(&v, "尚未核验").expect("reported at submit time");
    assert!(hit.message.contains("量不到影响"), "{}", hit.message);
    let e = assemble(&set, &s, "m/S01").unwrap_err();
    assert_eq!(e.code(), "model_contract_violation");
    assert!(e.message().contains("量不到影响"), "{}", e.message());
}

#[test]
fn a_slot_without_an_explicit_flag_counts_as_verified() {
    let (kind, frag) = Fragment::parse_text(
        r#"{"h": {"class_type":"X","inputs":{}},
            "_studio": {"kind":"head","id":"h","bindings_verified":true,
              "outputs":{"conditioning":["h",0],"latent":["h",1]},
              "autogrow":{"image":{"target":"h.inputs.refs","prefix":"r_","max":9}}}}"#,
        "test",
    )
    .unwrap();
    assert_eq!(kind, FragmentKind::Head);
    assert!(frag.autogrow.iter().find(|(k, _)| k == "image").unwrap().1.verified);
}

#[test]
fn v5_an_anchor_as_long_as_the_shot_is_rejected() {
    let mut s = shot("reference");
    s.shot_id = "S03".to_string();
    s.length_frames = 22;
    s.guides = vec![guide_at(GuideKind::Clip, 0, "S02.tail22")];
    let v = validate_shot(&fragments(), &s, &assets(), &["S02".to_string()], 1);
    let hit = find(&v, "钉死").expect("the anchor pins the shot");
    assert!(hit.message.contains("复现"), "{}", hit.message);
    assert!(hit.message.contains("tail5"), "{}", hit.message);
}

#[test]
fn v5_a_short_anchor_is_fine() {
    let mut s = shot("reference");
    s.shot_id = "S03".to_string();
    s.length_frames = 39;
    s.guides = vec![guide_at(GuideKind::Clip, 0, "S02.tail5")];
    assert_eq!(validate_shot(&fragments(), &s, &assets(), &["S02".to_string()], 1), vec![]);
}

#[test]
fn v5_an_anchor_off_the_frame_grid_is_rejected() {
    let mut s = shot("reference");
    s.shot_id = "S03".to_string();
    s.length_frames = 56;
    s.guides = vec![guide_at(GuideKind::Clip, 0, "S02.tail10")];
    let v = validate_shot(&fragments(), &s, &assets(), &["S02".to_string()], 1);
    let hit = find(&v, "锚点长度").expect("the anchor length is off the grid");
    assert!(hit.message.contains("5") && hit.message.contains("22"), "{}", hit.message);
}

#[test]
fn v9_a_prior_shots_tail_is_a_legal_reference() {
    let mut s = shot("reference");
    s.shot_id = "S03".to_string();
    s.guides = vec![guide_at(GuideKind::Clip, 0, "S02.tail22")];
    let prior = vec!["S01".to_string(), "S02".to_string()];
    assert_eq!(validate_shot(&fragments(), &s, &assets(), &prior, 2), vec![]);
}

#[test]
fn v9_referring_to_a_later_shot_is_rejected() {
    let mut s = shot("reference");
    s.shot_id = "S01".to_string();
    s.guides = vec![guide_at(GuideKind::Clip, 0, "S05.tail")];
    let v = validate_shot(&fragments(), &s, &assets(), &[], 0);
    let hit = find(&v, "S05").expect("the later shot is named");
    assert!(hit.message.contains("还没渲出来"), "{}", hit.message);
    assert!(hit.message.contains("更靠前"), "{}", hit.message);
}

#[test]
fn v9_does_not_swallow_asset_ids_that_merely_contain_a_dot() {
    let mut s = shot("reference");
    s.references = vec![img_ref("C01.front")];
    assert_eq!(validate_shot(&fragments(), &s, &assets(), &[], 0), vec![]);
}

#[test]
fn v2_a_frame_slot_on_a_head_without_one_is_rejected() {
    let mut s = shot("reference");
    s.first_frame = Some("C01.front".to_string());
    let v = validate_shot(&fragments(), &s, &assets(), &[], 0);
    let hit = find(&v, "first_frame").expect("the frame slot is named");
    assert!(hit.message.contains("没有 first 帧槽位"), "{}", hit.message);
    assert!(hit.message.contains("image"), "{}", hit.message);
}

#[test]
fn v7_covers_the_frame_slots_too() {
    let mut s = shot("image");
    s.first_frame = Some("C99.nope".to_string());
    s.last_frame = Some("C01.front".to_string());
    let v = validate_shot(&fragments(), &s, &assets(), &[], 0);
    assert_eq!(v.len(), 1, "only first_frame is unknown: {:?}", v);
    assert!(find(&v, "C99.nope").is_some(), "{:?}", v);
}

#[test]
fn v9_a_frame_slot_may_point_at_a_prior_shots_tail() {
    let mut s = shot("image");
    s.shot_id = "S02".to_string();
    s.first_frame = Some("S01.tail".to_string());
    assert_eq!(validate_shot(&fragments(), &s, &assets(), &["S01".to_string()], 1), vec![]);
}

#[test]
fn v7_is_skipped_when_the_asset_list_is_not_available_yet() {
    let mut s = shot("reference");
    s.references = vec![img_ref("C99.nope")];
    assert!(validate_shot(&fragments(), &s, &[], &[], 0).is_empty());
}

#[test]
fn a_valid_shot_produces_no_violations() {
    let mut s = shot("reference");
    s.references = vec![img_ref("C01.front"), img_ref("SC02.key")];
    s.guides = vec![guide_at(GuideKind::Image, 0, "S02.tail")];
    assert_eq!(validate_shot(&fragments(), &s, &assets(), &["S02".to_string()], 0), vec![]);
}

#[test]
fn every_violation_carries_an_addressable_path() {
    let mut s = shot("reference");
    s.length_frames = 50;
    s.width = 1000;
    s.references = vec![Reference { kind: Medium::Image, asset_id: "nope".to_string(), with_audio: true }];
    let v = validate_shot(&fragments(), &s, &assets(), &[], 3);
    assert!(v.len() >= 3, "{:?}", v);
    for one in &v {
        assert!(one.path.starts_with("prompt_pack.shots[3]."), "{}", one.path);
    }
}

const GOLDEN_PACK: &str = r##"
{
 "prompt_pack": {
  "core_model_family": "minimax_h3",
  "identity_lock": {
   "character": "20岁东亚女性，长黑发及胸，白色无袖连衣裙，低帮白色板鞋，奶油色小斜挎包",
   "environment": "千岛湖清透湖面、层叠群岛、远山",
   "typography": "画面中不出现任何文字、标志或水印"
  },
  "shots": [
   {
    "shot_id": "sh01",
    "head": "reference",
    "width": 768,
    "height": 1344,
    "length_frames": 56,
    "fps": 24,
    "seed": 101001,
    "references": [
     {
      "kind": "image",
      "asset_id": "C01"
     },
     {
      "kind": "image",
      "asset_id": "SC01"
     }
    ],
    "positive": "船头切开清透湖面，一位20岁东亚女性，长黑发及胸，白色无袖连衣裙，低帮白色板鞋，奶油色小斜挎包，以约30度侧脸快速入画并转头露出笑容。船行的风把碎发吹到她嘴角，她抬手把碎发别到耳后。层叠群岛与远山在后景。上午冷白自然光，柔光顺照，低对比。[Push in] 镜头缓慢前推。一镜到底，不切场景，人物保持在画面中央，画面中不出现任何文字、标志或水印。",
    "audio": "环境声：湖水拍打船身的持续哗声，低频风声。拟音：碎发拂过脸颊、衣料轻响。无对白，无音乐。"
   },
   {
    "shot_id": "sh02",
    "head": "reference",
    "width": 768,
    "height": 1344,
    "length_frames": 39,
    "fps": 24,
    "seed": 101002,
    "references": [
     {
      "kind": "image",
      "asset_id": "C01"
     },
     {
      "kind": "image",
      "asset_id": "SC02"
     }
    ],
    "guides": [
     {
      "kind": "image",
      "at_frame": 0,
      "asset_id": "sh01.tail"
     }
    ],
    "positive": "一位20岁东亚女性，长黑发及胸，白色无袖连衣裙，低帮白色板鞋，奶油色小斜挎包，沿湖边木质步道轻快小跑两步。湖风从左侧推来，裙摆和发梢一起向右扬；落地时脚踝先内扣再蹬直，重心前倾半步。顺光明亮，低对比，背景是湖面与远岛。[Tracking shot] 镜头横向跟移，与她同速。一镜到底，不切场景，人物保持在画面中央，画面中不出现任何文字、标志或水印。",
    "audio": "环境声：开阔湖面的风声。拟音：板鞋踩在木板上的两声闷响、裙摆抖动。无对白，无音乐。"
   },
   {
    "shot_id": "sh03",
    "head": "reference",
    "width": 768,
    "height": 1344,
    "length_frames": 56,
    "fps": 24,
    "seed": 101003,
    "references": [
     {
      "kind": "image",
      "asset_id": "C01"
     },
     {
      "kind": "image",
      "asset_id": "SC03"
     },
     {
      "kind": "image",
      "asset_id": "P01"
     }
    ],
    "positive": "一位20岁东亚女性，长黑发及胸，白色无袖连衣裙，低帮白色板鞋，奶油色小斜挎包，在观景台举起一部无品牌手机取景，眯了一下眼，拇指在快门键上停半秒后按下。正午硬光，手机屏幕反着湖面的白，高对比。[Pan right] 镜头向右缓慢横摇，从她的侧脸摇到湖中群岛。一镜到底，不切场景，画面中不出现任何文字、标志或水印。",
    "audio": "环境声：观景台上的风与零星人声。拟音：手机快门声，随后远处游船汽笛。无对白，无音乐。"
   },
   {
    "shot_id": "sh04",
    "head": "reference",
    "width": 768,
    "height": 1344,
    "length_frames": 39,
    "fps": 24,
    "seed": 101004,
    "references": [
     {
      "kind": "image",
      "asset_id": "C01"
     },
     {
      "kind": "image",
      "asset_id": "P01"
     }
    ],
    "positive": "近景：一位20岁东亚女性，长黑发及胸，白色无袖连衣裙，低帮白色板鞋，奶油色小斜挎包，举起一只无品牌透明冷饮杯，与画外伸入的另一只杯子轻碰。杯壁的冷凝水滑到虎口，指节收紧握住杯身，笑的时候肩膀轻轻一耸。下午暖金侧光，背景的湖岛虚化。[Static shot] 固定机位，镜头不移动。一镜到底，不切场景，画面中不出现任何文字、标志或水印。",
    "audio": "环境声：湖风与远处水声。拟音：两只玻璃杯轻碰的一声脆响、短促笑声。无对白，无音乐。"
   },
   {
    "shot_id": "sh05",
    "head": "reference",
    "width": 768,
    "height": 1344,
    "length_frames": 56,
    "fps": 24,
    "seed": 101005,
    "references": [
     {
      "kind": "image",
      "asset_id": "C01"
     },
     {
      "kind": "image",
      "asset_id": "SC03"
     }
    ],
    "positive": "夕阳逆光下，一位20岁东亚女性，长黑发及胸，白色无袖连衣裙，低帮白色板鞋，奶油色小斜挎包，转身回头向镜头挥手，先动眼神再动脖子，抬手挥到肩高。逆光把发丝勾出暖金边，风把裙摆吹成一道弧，湖面与远山在身后。[Pedestal up] 镜头缓慢升高。一镜到底，不切场景，画面中不出现任何文字、标志或水印。",
    "audio": "环境声：傍晚的风与远处水浪低频。拟音：衣料摩擦、手臂划过空气。无对白，无音乐。"
   }
  ]
 }
}"##;

fn golden_shots() -> Vec<serde_json::Value> {
    val(GOLDEN_PACK)["prompt_pack"]["shots"].as_array().unwrap().clone()
}

#[test]
fn the_golden_prompt_pack_satisfies_every_validator() {
    let shots = golden_shots();
    assert_eq!(shots.len(), 5);
    let set = fragments();
    for (i, raw) in shots.iter().enumerate() {
        let shot = ShotDeclaration::from_json(&to_json(raw)).unwrap_or_else(|| panic!("shot {} is not a declaration", i));
        assert!(is_on_frame_grid(shot.length_frames), "{} is off the grid", shot.shot_id);
        let assets: Vec<String> = shot
            .references
            .iter()
            .map(|r| r.asset_id.clone())
            .chain(shot.guides.iter().map(|g| g.asset_id.clone()))
            .collect();
        let prior: Vec<String> = shots[..i].iter().map(|s| s["shot_id"].as_str().unwrap().to_string()).collect();
        let v = validate_shot(&set, &shot, &assets, &prior, i);
        assert_eq!(v, vec![], "{} has violations", shot.shot_id);
    }
}

#[test]
fn every_golden_shot_assembles_into_a_graph() {
    let set = fragments();
    for raw in golden_shots() {
        let shot = ShotDeclaration::from_json(&to_json(&raw)).unwrap();
        let out = assemble(&set, &shot, &format!("media/{}", shot.shot_id))
            .unwrap_or_else(|e| panic!("{} failed: {}", shot.shot_id, e.message()));
        for path in ["guider", "sampler", "save_video"] {
            assert!(out.graph.get(path).is_some(), "missing {}", path);
        }
    }
}

// ---------------------------------------------------------------------------
// Reconciling a prompt pack with the machine's capabilities.

use video_studio::capability::{CapabilitySet, WorkflowCapability, DECLARATIVE_FIELDS};
use video_studio::error::StudioError;
use video_studio::json::Outputs;
use video_studio::schema::stage_schema_document;
use video_studio::stage::StageId;

fn caps(name: &str, params: &[&str], verified: bool, reason: Option<&str>) -> WorkflowCapability {
    WorkflowCapability {
        name: name.to_string(),
        params: places(params),
        verified,
        unavailable_reason: reason.map(|r| r.to_string()),
    }
}

/// A machine with whole-graph baselines only: two verified, one not.
fn set() -> CapabilitySet {
    CapabilitySet::new(vec![
        caps("wan2_2/t2v", &["positive", "width", "height", "length_frames", "fps", "seed"], true, None),
        caps("ltx2_5/t2v", &["positive", "negative", "width", "height", "duration_seconds", "fps", "seed"], true, None),
        caps("wan2_2/i2v", &["seed"], false, Some("正负提示词与尺寸走的连线尚未确认")),
    ])
}

/// The same machine with the `minimax_h3` fragment library.
fn mixed() -> CapabilitySet {
    set().with_fragments(vec![("minimax_h3".to_string(), fragments())])
}

fn pack(family: &str, shot: serde_json::Value) -> Outputs {
    let mut doc = serde_json::Map::new();
    doc.insert("core_model_family".to_string(), serde_json::Value::String(family.to_string()));
    doc.insert("shots".to_string(), serde_json::Value::Array(vec![shot]));
    let mut o = Outputs::new();
    o.insert("prompt_pack".to_string(), to_json(&serde_json::Value::Object(doc)));
    o
}

fn check(c: &CapabilitySet, o: &Outputs, known: &[String]) -> Result<(), StudioError> {
    assert!(c.pack_in_range(o));
    c.check_prompt_pack(o, known)
}

fn whole_graph_shot() -> serde_json::Value {
    val(
        r#"{ "shot_id": "sh01", "workflow": "wan2_2/t2v",
        "positive": "船头切开湖面", "width": 1080, "height": 1920,
        "length_frames": 42, "fps": 30, "seed": 101001,
        "audio": "湖水拍打船身" }"#,
    )
}

fn declarative_shot() -> serde_json::Value {
    val(
        r#"{ "shot_id": "sh01", "head": "reference",
        "positive": "船头切开湖面", "width": 768, "height": 1344,
        "length_frames": 56, "fps": 24, "seed": 101001,
        "audio": "湖水拍打船身" }"#,
    )
}

#[test]
fn a_pack_matching_the_baseline_passes() {
    check(&set(), &pack("wan2_2", whole_graph_shot()), &[]).unwrap();
}

#[test]
fn writing_negative_on_a_baseline_without_it_is_rejected() {
    let mut shot = whole_graph_shot();
    shot["negative"] = val(r#""文字, 水印""#);
    let e = check(&set(), &pack("wan2_2", shot), &[]).unwrap_err();
    assert_eq!(e.code(), "schema_violation");
    let msg = e.message();
    assert!(msg.contains("prompt_pack.shots[0].negative"), "{}", msg);
    assert!(msg.contains("静默丢弃"), "{}", msg);
    assert!(msg.contains("正向"), "{}", msg);
}

#[test]
fn the_wrong_duration_parameter_is_caught_both_ways() {
    let shot = val(
        r#"{ "shot_id": "sh01", "workflow": "ltx2_5/t2v",
        "positive": "p", "negative": "n", "width": 1088, "height": 1920,
        "length_frames": 42, "fps": 30, "seed": 1 }"#,
    );
    let msg = check(&set(), &pack("ltx2_5", shot), &[]).unwrap_err().message();
    assert!(msg.contains("length_frames"), "{}", msg);
    assert!(msg.contains("按秒收时长"), "{}", msg);
    assert!(msg.contains("duration_seconds"), "{}", msg);
}

#[test]
fn a_missing_parameter_is_reported_with_the_default_warning() {
    let mut shot = whole_graph_shot();
    shot.as_object_mut().unwrap().remove("seed");
    let e = check(&set(), &pack("wan2_2", shot), &[]).unwrap_err();
    assert!(e.message().contains("seed"), "{}", e.message());
    assert!(e.message().contains("默认值"), "{}", e.message());
}

#[test]
fn an_unverified_baseline_is_rejected_at_submit_time() {
    let shot = val(r#"{ "shot_id": "sh01", "workflow": "wan2_2/i2v", "seed": 1 }"#);
    let msg = check(&set(), &pack("wan2_2", shot), &[]).unwrap_err().message();
    assert!(msg.contains("尚未真机核验"), "{}", msg);
    assert!(msg.contains("连线尚未确认"), "{}", msg);
    assert!(msg.contains("wan2_2/t2v"), "{}", msg);
}

#[test]
fn an_unknown_baseline_lists_the_available_ones() {
    let shot = val(r#"{ "shot_id": "sh01", "workflow": "made_up/t2v" }"#);
    let msg = check(&set(), &pack("made_up", shot), &[]).unwrap_err().message();
    assert!(msg.contains("没有名为 made_up/t2v"), "{}", msg);
    assert!(msg.contains("ltx2_5/t2v"), "{}", msg);
}

#[test]
fn non_injectable_fields_are_not_flagged() {
    let mut shot = whole_graph_shot();
    shot["audio"] = val(r#""环境声：湖水""#);
    shot["shot_id"] = val(r#""sh01""#);
    check(&set(), &pack("wan2_2", shot), &[]).unwrap();
}

#[test]
fn declarative_fields_on_a_whole_graph_baseline_are_rejected() {
    let mut shot = whole_graph_shot();
    shot["references"] = val(r#"[{ "kind": "image", "asset_id": "C01" }]"#);
    let msg = check(&mixed(), &pack("wan2_2", shot), &[]).unwrap_err().message();
    assert!(msg.contains("prompt_pack.shots[0].references"), "{}", msg);
    assert!(msg.contains("不会以后自动生效"), "{}", msg);
    assert!(msg.contains("minimax_h3"), "{}", msg);
}

#[test]
fn without_any_fragment_family_the_remedy_falls_back_to_the_prompt() {
    let mut shot = whole_graph_shot();
    shot["head"] = val(r#""reference""#);
    let msg = check(&set(), &pack("wan2_2", shot), &[]).unwrap_err().message();
    assert!(msg.contains("没有片段化的系列"), "{}", msg);
    assert!(msg.contains("positive"), "{}", msg);
}

#[test]
fn a_declarative_pack_matching_the_fragment_library_passes() {
    check(&mixed(), &pack("minimax_h3", declarative_shot()), &[]).unwrap();
}

#[test]
fn writing_workflow_on_a_fragment_family_is_rejected() {
    let mut shot = declarative_shot();
    shot["workflow"] = val(r#""minimax_h3/t2v""#);
    let msg = check(&mixed(), &pack("minimax_h3", shot), &[]).unwrap_err().message();
    assert!(msg.contains("prompt_pack.shots[0].workflow"), "{}", msg);
    assert!(msg.contains("现场组装"), "{}", msg);
    assert!(msg.contains("reference"), "{}", msg);
}

#[test]
fn negative_is_dropped_on_the_fragment_family_too() {
    let mut shot = declarative_shot();
    shot["negative"] = val(r#""文字, 水印""#);
    let msg = check(&mixed(), &pack("minimax_h3", shot), &[]).unwrap_err().message();
    assert!(msg.contains("prompt_pack.shots[0].negative"), "{}", msg);
    assert!(msg.contains("静默丢弃"), "{}", msg);
}

#[test]
fn a_missing_parameter_on_the_fragment_family_is_reported() {
    let mut shot = declarative_shot();
    shot.as_object_mut().unwrap().remove("length_frames");
    let e = check(&mixed(), &pack("minimax_h3", shot), &[]).unwrap_err();
    assert!(e.message().contains("length_frames"), "{}", e.message());
    assert!(e.message().contains("默认值"), "{}", e.message());
}

#[test]
fn a_missing_seed_does_not_mask_the_combination_rules() {
    let mut shot = declarative_shot();
    shot.as_object_mut().unwrap().remove("seed");
    shot["length_frames"] = val("50");
    let msg = check(&mixed(), &pack("minimax_h3", shot), &[]).unwrap_err().message();
    assert!(msg.contains("seed"), "{}", msg);
    assert!(msg.contains("帧数网格"), "{}", msg);
}

#[test]
fn combination_rules_run_on_the_fragment_family() {
    let mut shot = declarative_shot();
    shot["length_frames"] = val("50");
    let e = check(&mixed(), &pack("minimax_h3", shot), &[]).unwrap_err();
    assert!(e.message().contains("帧数网格"), "{}", e.message());
}

#[test]
fn a_reference_to_an_unregistered_asset_is_rejected() {
    let mut shot = declarative_shot();
    shot["references"] = val(r#"[{ "kind": "image", "asset_id": "C99" }]"#);
    let known = vec!["C01".to_string(), "SC01".to_string()];
    let msg = check(&mixed(), &pack("minimax_h3", shot), &known).unwrap_err().message();
    assert!(msg.contains("C99"), "{}", msg);
    assert!(msg.contains("C01"), "{}", msg);
}

#[test]
fn an_incomplete_fragment_library_is_not_accepted() {
    let mut half = fragments();
    half.backbone = None;
    let c = set().with_fragments(vec![("minimax_h3".to_string(), half)]);
    assert!(c.fragment_families().is_empty());
    assert!(c.fragments_for("minimax_h3").is_none());
    assert_eq!(mixed().fragment_families(), vec!["minimax_h3".to_string()]);
}

fn shot_props(doc: &serde_json::Value) -> serde_json::Map<String, serde_json::Value> {
    doc.pointer("/properties/prompt_pack/properties/shots/items/properties").unwrap().as_object().unwrap().clone()
}

#[test]
fn narrowing_the_schema_lists_only_the_verified_baselines() {
    let mut doc = stage_schema_document(StageId::PromptPack);
    set().narrow_schema(&mut doc, None);
    let props = shot_props(&from_json(&doc));
    let field = &props["workflow"];
    assert_eq!(field["enum"], val(r#"["ltx2_5/t2v", "wan2_2/t2v"]"#));
    assert!(field["description"].as_str().unwrap().contains("静默丢弃"));
}

#[test]
fn a_fragment_family_gets_only_the_declarative_shape() {
    let mut doc = stage_schema_document(StageId::PromptPack);
    mixed().narrow_schema(&mut doc, Some("minimax_h3"));
    let props = shot_props(&from_json(&doc));
    assert!(!props.contains_key("workflow"));
    assert!(!props.contains_key("duration_seconds"));
    assert_eq!(props["head"]["enum"], val(r#"["image", "reference"]"#));
    assert!(props.contains_key("references"));
    assert!(props.contains_key("guides"));
}

#[test]
fn a_whole_graph_family_gets_only_the_workflow_shape() {
    let mut doc = stage_schema_document(StageId::PromptPack);
    mixed().narrow_schema(&mut doc, Some("ltx2_5"));
    let props = shot_props(&from_json(&doc));
    for f in DECLARATIVE_FIELDS {
        assert!(!props.contains_key(f), "{} is not for a whole-graph baseline", f);
    }
    assert_eq!(props["workflow"]["enum"], val(r#"["ltx2_5/t2v"]"#));
}

#[test]
fn an_empty_capability_set_leaves_the_schema_alone() {
    let before = stage_schema_document(StageId::PromptPack);
    let mut doc = stage_schema_document(StageId::PromptPack);
    CapabilitySet::new(vec![]).narrow_schema(&mut doc, None);
    assert_eq!(doc, before);
    assert!(CapabilitySet::new(vec![]).is_empty());
}

#[test]
fn verified_names_exclude_the_unverified_ones() {
    assert_eq!(set().verified_names(), vec!["ltx2_5/t2v".to_string(), "wan2_2/t2v".to_string()]);
    assert!(set().get("wan2_2/t2v").unwrap().accepts("seed"));
    assert!(!set().get("wan2_2/t2v").unwrap().accepts("negative"));
    assert!(set().get("nope").is_none());
}

#[test]
fn a_malformed_pack_is_left_to_the_schema_check() {
    let mut o = Outputs::new();
    o.insert("prompt_pack".to_string(), parse(r#"{ "shots": "不是数组" }"#));
    check(&set(), &o, &[]).unwrap();
    check(&set(), &Outputs::new(), &[]).unwrap();
}

#[test]
fn fragment_text_that_is_not_json_is_refused_with_the_parser_message() {
    let e = Fragment::parse_text("{ not json", "heads/x.json").unwrap_err();
    assert_eq!(e.code(), "model_contract_violation");
    let d = e.message();
    assert!(d.contains("片段 heads/x.json 不是合法 JSON："), "{d}");
    let e = Fragment::parse_text("[1, 2]", "heads/x.json").unwrap_err();
    assert!(e.message().contains("顶层必须是对象"), "{}", e.message());
}

#[test]
fn fragment_text_keeps_fractions_exact() {
    let (_, frag) = Fragment::parse_text(
        r#"{"k": {"class_type":"KSampler","inputs":{"cfg":1.5,"denoise":0.75,"seed":18446744073709551615}},
            "_studio": {"kind":"backbone","id":"bb","bindings_verified":false,
              "outputs":{"latent":["k",0]}}}"#,
        "bb.json",
    )
    .unwrap();
    assert!(!frag.verified);
    let k = &frag.nodes.iter().find(|(n, _)| n == "k").unwrap().1;
    let inputs = k.get("inputs").unwrap();
    assert_eq!(inputs.get("cfg"), Some(&Json::Num(Number::Frac(Decimal { mantissa: 15, scale: 1 }))));
    assert_eq!(inputs.get("denoise"), Some(&Json::Num(Number::Frac(Decimal { mantissa: 75, scale: 2 }))));
    assert_eq!(inputs.get("seed"), Some(&Json::Num(Number::Int(18446744073709551615))));
}

#[test]
fn number_text_is_read_exactly_or_not_at_all() {
    assert_eq!(number_from_text("42"), Some(Number::Int(42)));
    assert_eq!(number_from_text("-9223372036854775808"), Some(Number::Int(-9223372036854775808)));
    assert_eq!(number_from_text("18446744073709551616"), None);
    assert_eq!(number_from_text("-0.25"), Some(Number::Frac(Decimal { mantissa: -25, scale: 2 })));
    assert_eq!(number_from_text("2.0"), Some(Number::Frac(Decimal { mantissa: 20, scale: 1 })));
    assert_eq!(number_from_text("1e20"), None);
    assert_eq!(number_from_text("1."), None);
    assert_eq!(number_from_text(""), None);
}

#[test]
fn a_number_the_library_cannot_hold_is_named() {
    let e = Fragment::parse_text(r#"{"a": 1e300}"#, "x.json").unwrap_err();
    assert!(e.message().contains("超出可表示范围"), "{}", e.message());
}
