use ovd_transcribe::config::{
    apply_path_defaults, default_proxy_switch, Config, NetworkSettings, TRANSCRIPT_DIR_NAME,
};
use ovd_transcribe::secrets::{
    api_key_from_raw, auth_secrets_from_raw, master_key_text, parse_auth_headers,
    recreate_failure_message, secret_from_raw, startup_action, RecreateReason, StartupAction,
    AI_API_KEY,
};
use std::path::{Path, PathBuf};

#[test]
fn ai_api_key_name_is_stable() {
    assert_eq!(AI_API_KEY, "ai.apiKey");
    assert_ne!(AI_API_KEY, "auth.bearer");
}

#[test]
fn api_key_from_raw_trims_and_blank_is_missing() {
    assert!(api_key_from_raw(None).expect("none is valid").is_none());
    assert!(api_key_from_raw(Some(Vec::new())).expect("empty is valid").is_none());
    assert!(api_key_from_raw(Some(b"  \n\t ".to_vec())).expect("blank is valid").is_none());
}

#[test]
fn api_key_from_raw_keeps_trimmed_secret() {
    let key = api_key_from_raw(Some(b"  sk-test-DO-NOT-LEAK\n".to_vec()))
        .expect("utf-8 is valid")
        .expect("non-blank is configured");
    assert_eq!(key.expose(), b"sk-test-DO-NOT-LEAK");
}

#[test]
fn raw_values_that_are_not_utf8_are_errors() {
    assert!(api_key_from_raw(Some(vec![0xff, 0xfe])).is_err());
    assert!(secret_from_raw(Some(vec![0xc3])).is_err());
    assert_eq!(secret_from_raw(Some(" user ".as_bytes().to_vec())), Ok(Some("user".to_string())));
}

#[test]
fn auth_headers_keep_trimmed_lines_with_a_colon() {
    assert_eq!(
        parse_auth_headers(" X-A: 1 \n\nbroken\r\nX-B:2\n"),
        vec!["X-A: 1".to_string(), "X-B:2".to_string()]
    );
    let secrets = auth_secrets_from_raw(
        Some(b"user".to_vec()),
        None,
        Some(b"  ".to_vec()),
        Some(b"tok".to_vec()),
        Some(b"X-A: 1\nno".to_vec()),
    )
    .expect("valid");
    assert_eq!(secrets.username.as_deref(), Some("user"));
    assert_eq!(secrets.password, None);
    assert_eq!(secrets.video_password, None);
    assert_eq!(secrets.bearer_token.as_deref(), Some("tok"));
    assert_eq!(secrets.headers, vec!["X-A: 1".to_string()]);
    assert!(auth_secrets_from_raw(None, Some(vec![0xff]), None, None, None).is_err());
}

#[test]
fn startup_opens_recreates_or_reports() {
    assert!(matches!(startup_action(false, Ok(Some("AAAA".into()))), StartupAction::Skip));
    assert!(matches!(startup_action(true, Ok(None)), StartupAction::Skip));
    match startup_action(true, Ok(Some(master_key_text(&[7u8; 4])))) {
        StartupAction::Open(key) => assert_eq!(key, vec![7u8; 4]),
        other => panic!("unexpected {other:?}"),
    }
    assert!(matches!(
        startup_action(true, Ok(Some("not base64!".into()))),
        StartupAction::Recreate(RecreateReason::MalformedKey)
    ));
    match startup_action(true, Err("locked".into())) {
        StartupAction::KeyringUnavailable(message) => {
            assert_eq!(message, "Secure keyring unavailable: locked")
        }
        other => panic!("unexpected {other:?}"),
    }
    assert_eq!(master_key_text(b"hello"), "aGVsbG8=");
    assert_eq!(
        recreate_failure_message(RecreateReason::BadKey, "x"),
        "Recreate vault failed after bad key: x"
    );
}

#[test]
fn apply_path_defaults_fills_only_missing_paths() {
    let mut config = Config::default();
    apply_path_defaults(&mut config, &PathBuf::from("D:/Downloads"));

    assert_eq!(config.output.download_dir.as_deref(), Some("D:/Downloads"));
    assert_eq!(
        config.output.root_dir.as_deref(),
        Path::new("D:/Downloads").join(TRANSCRIPT_DIR_NAME).to_str()
    );

    let mut configured = Config::default();
    configured.output.download_dir = Some("E:/keep".into());
    configured.output.root_dir = Some("E:/keep/transcripts".into());
    apply_path_defaults(&mut configured, &PathBuf::from("D:/Downloads"));

    assert_eq!(configured.output.download_dir.as_deref(), Some("E:/keep"));
    assert_eq!(configured.output.root_dir.as_deref(), Some("E:/keep/transcripts"));
}

#[test]
fn the_proxy_switch_defaults_to_whether_a_proxy_is_set() {
    let mut network = NetworkSettings { proxy: Some("http://p".into()), ..NetworkSettings::default() };
    default_proxy_switch(&mut network);
    assert_eq!(network.enable_proxy, Some(true));

    let mut blank = NetworkSettings { proxy: Some(String::new()), ..NetworkSettings::default() };
    default_proxy_switch(&mut blank);
    assert_eq!(blank.enable_proxy, Some(false));

    let mut explicit = NetworkSettings { enable_proxy: Some(false), proxy: Some("http://p".into()), ..NetworkSettings::default() };
    default_proxy_switch(&mut explicit);
    assert_eq!(explicit.enable_proxy, Some(false));
}
