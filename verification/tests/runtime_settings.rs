use video_studio::env_config::{first_node, lookup_setting, parse_env, parse_env_line};

#[test]
fn env_lines_are_read_as_trimmed_settings() {
    let text = "# comment\n\nCOMFY_NODE = http://a:1\r\nCOMFY_TOKEN=\"abc\"\nnot a setting\n  FFMPEG_PATH=/usr/bin/ffmpeg  \nEMPTY=\n";
    let e = parse_env(text);
    let pairs: Vec<(&str, &str)> = e.iter().map(|(k, v)| (k.as_str(), v.as_str())).collect();
    assert_eq!(
        pairs,
        vec![
            ("COMFY_NODE", "http://a:1"),
            ("COMFY_TOKEN", "abc"),
            ("FFMPEG_PATH", "/usr/bin/ffmpeg"),
            ("EMPTY", ""),
        ]
    );
}

#[test]
fn only_the_first_equals_sign_splits() {
    assert_eq!(parse_env_line("A=b=c"), Some(("A".to_string(), "b=c".to_string())));
    assert_eq!(parse_env_line("#A=b"), None);
    assert_eq!(parse_env_line("X=\"\"\"q\"\""), Some(("X".to_string(), "q".to_string())));
}

#[test]
fn the_bundle_file_wins_over_the_program_file() {
    let bundle = parse_env("COMFY_NODE=http://bundle:1\n");
    let program = parse_env("COMFY_NODE=http://program:1\nCOMFY_TOKEN=t\n");
    let files = vec![bundle, program];
    assert_eq!(lookup_setting(&files, "COMFY_NODE").as_deref(), Some("http://bundle:1"));
    assert_eq!(lookup_setting(&files, "COMFY_TOKEN").as_deref(), Some("t"));
    assert_eq!(lookup_setting(&files, "MISSING"), None);
}

#[test]
fn the_first_listed_node_is_the_entry_point() {
    assert_eq!(first_node(" , http://n1:9001 , http://n2:9002").as_deref(), Some("http://n1:9001"));
    assert_eq!(first_node("http://only"), Some("http://only".to_string()));
    assert_eq!(first_node(" , ,"), None);
    assert_eq!(first_node(""), None);
}
