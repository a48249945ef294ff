use tikclip::sidecar::{build_sidecar_env, parse_sideline, parses_as_f64, sidecar_status};

fn settings(pairs: &[(&str, &str)]) -> Vec<(String, String)> {
    pairs.iter().map(|(k, v)| (k.to_string(), v.to_string())).collect()
}

#[test]
fn sideline_announces_the_port() {
    assert_eq!(parse_sideline("SIDECAR_PORT=8765"), Some(8765));
    assert_eq!(parse_sideline("SIDECAR_PORT= 8765 "), Some(8765));
    assert_eq!(parse_sideline("SIDECAR_PORT=99999"), None);
    assert_eq!(parse_sideline("INFO starting"), None);
}

#[test]
fn status_is_connected_only_with_a_reachable_port() {
    assert!(sidecar_status(Some(1), true).connected);
    assert!(!sidecar_status(Some(1), false).connected);
    assert!(!sidecar_status(None, true).connected);
    assert_eq!(sidecar_status(Some(7), false).port, Some(7));
}

#[test]
fn float_syntax_matches_std_parse() {
    for t in ["1", "1.5", ".5", "5.", "-2e3", "+1E-2", "inf", "-infinity", "NaN"] {
        let c: Vec<char> = t.chars().collect();
        assert!(parses_as_f64(&c), "{t}");
        assert!(t.parse::<f64>().is_ok(), "{t}");
    }
    for t in ["", ".", "e5", "1e", "1.2.3", "abc", " 1"] {
        let c: Vec<char> = t.chars().collect();
        assert!(!parses_as_f64(&c), "{t}");
        assert!(t.parse::<f64>().is_err(), "{t}");
    }
}

#[test]
fn sidecar_env_starts_with_storage_path_and_follows_settings() {
    let env = build_sidecar_env(
        &settings(&[
            ("poll_interval", " 30 "),
            ("max_storage_gb", "12.5"),
            ("auto_process_after_record", "YES"),
            ("product_vector_enabled", "nope"),
            ("gemini_api_key", "k"),
            ("recording_max_hours", "2"),
        ]),
        "/data",
    )
    .unwrap();
    assert_eq!(
        env,
        settings(&[
            ("TIKCLIP_STORAGE_PATH", "/data"),
            ("TIKCLIP_POLL_INTERVAL_SECONDS", "30"),
            ("TIKCLIP_MAX_DURATION_MINUTES", "120"),
            ("TIKCLIP_STORAGE_QUOTA_GB", "12.5"),
            ("TIKCLIP_AUTO_PROCESS_AFTER_RECORD", "true"),
            ("TIKCLIP_PRODUCT_VECTOR_ENABLED", "false"),
            ("TIKCLIP_GEMINI_API_KEY", "k"),
        ])
    );
}

#[test]
fn minutes_setting_wins_over_hours() {
    let env = build_sidecar_env(
        &settings(&[("recording_max_minutes", "45"), ("recording_max_hours", "x")]),
        "/d",
    )
    .unwrap();
    assert_eq!(env[1], ("TIKCLIP_MAX_DURATION_MINUTES".to_string(), "45".to_string()));
    let none = build_sidecar_env(&settings(&[("recording_max_hours", "0")]), "/d").unwrap();
    assert_eq!(none.len(), 1);
}

#[test]
fn bad_numbers_are_errors() {
    assert_eq!(
        build_sidecar_env(&settings(&[("max_concurrent", "two")]), "/d").unwrap_err(),
        "max_concurrent must be an integer, got \"two\""
    );
    assert_eq!(
        build_sidecar_env(&settings(&[("auto_tag_clip_max_score", "0.x")]), "/d").unwrap_err(),
        "auto_tag_clip_max_score must be a number, got \"0.x\""
    );
    assert_eq!(
        build_sidecar_env(&settings(&[("recording_max_hours", "1h")]), "/d").unwrap_err(),
        "recording_max_hours must be an integer, got \"1h\""
    );
}

#[test]
fn sidecar_env_sets_each_variable_once() {
    let env = build_sidecar_env(
        &settings(&[
            ("poll_interval", "10"),
            ("poll_interval", "20"),
            ("max_concurrent", "2"),
            ("clip_min_duration", "5"),
            ("clip_max_duration", "60"),
            ("TIKCLIP_RAW_RETENTION_DAYS", "3"),
            ("gemini_embedding_dimensions", "768"),
        ]),
        "/data",
    )
    .unwrap();
    assert_eq!(env[0], ("TIKCLIP_STORAGE_PATH".to_string(), "/data".to_string()));
    assert_eq!(env[1], ("TIKCLIP_POLL_INTERVAL_SECONDS".to_string(), "10".to_string()));
    let mut keys: Vec<&String> = env.iter().map(|(k, _)| k).collect();
    let n = keys.len();
    keys.sort();
    keys.dedup();
    assert_eq!(keys.len(), n);
    assert_eq!(n, 7);
}
