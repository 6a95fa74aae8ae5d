use ovd_transcribe::config::TranslationSettings;
use ovd_transcribe::deepseek::{
    authorization_header, next_retry, parse_retry_after, parse_u64, retry_after_from_value,
    retry_delay, status_error, DeepseekClient, DeepseekError,
};
use ovd_transcribe::secrets::ApiKey;

#[test]
fn endpoint_joins_the_base_url_without_doubling_slashes() {
    assert_eq!(
        DeepseekClient::endpoint("https://api.deepseek.com"),
        "https://api.deepseek.com/chat/completions"
    );
    assert_eq!(
        DeepseekClient::endpoint("https://api.deepseek.com/"),
        "https://api.deepseek.com/chat/completions"
    );
}

#[test]
fn status_mapping_and_retryability_match_the_policy() {
    assert_eq!(status_error(401), DeepseekError::AuthFailed);
    assert_eq!(status_error(403), DeepseekError::AuthFailed);
    assert_eq!(status_error(429), DeepseekError::RateLimited);
    assert_eq!(status_error(400), DeepseekError::RequestRejected { status: 400 });
    assert_eq!(status_error(503), DeepseekError::ServerError { status: 503 });

    assert!(status_error(429).is_retryable());
    assert!(status_error(503).is_retryable());
    assert!(!status_error(400).is_retryable());
    assert!(!status_error(401).is_retryable());
    assert!(!DeepseekError::AuthFailed.is_retryable());
}

#[test]
fn backoff_honours_retry_after_then_doubles_and_caps() {
    let base = 100;

    assert_eq!(retry_delay(0, Some(3_000), base), 3_000);
    assert_eq!(retry_delay(0, Some(600_000), base), 60_000);
    assert_eq!(retry_delay(0, None, base), 100);
    assert_eq!(retry_delay(1, None, base), 200);
    assert_eq!(retry_delay(2, None, base), 400);
    assert_eq!(retry_delay(9, None, base), 8_000);
}

#[test]
fn backoff_stops_doubling_after_ten_steps_and_handles_huge_bases() {
    assert_eq!(retry_delay(40, None, 1), 1_024);
    assert_eq!(retry_delay(3, None, u64::MAX), 8_000);
    assert_eq!(retry_delay(0, None, 0), 0);
}

#[test]
fn retries_stop_at_the_limit_and_for_final_errors() {
    assert_eq!(next_retry(&DeepseekError::ServerError { status: 500 }, 0, 2, None, 100), Some(100));
    assert_eq!(next_retry(&DeepseekError::ServerError { status: 500 }, 1, 2, None, 100), Some(200));
    assert_eq!(next_retry(&DeepseekError::ServerError { status: 500 }, 2, 2, None, 100), None);
    assert_eq!(next_retry(&DeepseekError::AuthFailed, 0, 2, None, 100), None);
    assert_eq!(next_retry(&DeepseekError::RateLimited, 0, 2, Some(0), 100), Some(0));
}

#[test]
fn retry_after_parsing_rejects_junk_and_caps_the_value() {
    let mut headers = reqwest::header::HeaderMap::new();
    headers.insert(reqwest::header::RETRY_AFTER, "2".parse().expect("header"));
    assert_eq!(parse_retry_after(&headers), Some(2_000));

    headers.insert(
        reqwest::header::RETRY_AFTER,
        "Wed, 21 Oct 2015 07:28:00 GMT".parse().expect("header"),
    );
    assert_eq!(parse_retry_after(&headers), None);

    assert_eq!(parse_retry_after(&reqwest::header::HeaderMap::new()), None);
}

#[test]
fn retry_after_values_are_whole_seconds() {
    assert_eq!(retry_after_from_value(" 5 "), Some(5_000));
    assert_eq!(retry_after_from_value("+5"), Some(5_000));
    assert_eq!(retry_after_from_value("600"), Some(60_000));
    assert_eq!(retry_after_from_value("-1"), None);
    assert_eq!(retry_after_from_value("1.5"), None);
    assert_eq!(parse_u64("18446744073709551615"), Some(u64::MAX));
    assert_eq!(parse_u64("18446744073709551616"), None);
    assert_eq!(parse_u64("+"), None);
    assert_eq!(parse_u64(""), None);
}

#[test]
fn error_messages_match_the_display_text() {
    assert_eq!(
        DeepseekError::ServerError { status: 502 }.message(),
        "deepseek request failed (HTTP 502)"
    );
    assert_eq!(
        DeepseekError::RequestRejected { status: 404 }.message(),
        "deepseek rejected the request (HTTP 404)"
    );
    assert_eq!(
        DeepseekError::InvalidResponse { reason: "no choices".into() }.message(),
        "deepseek returned an invalid response: no choices"
    );
    assert_eq!(DeepseekError::Timeout.message(), "deepseek request timed out");
}

#[test]
fn the_key_only_goes_into_a_bearer_header() {
    let header = authorization_header(&ApiKey::new(b"sk-test".to_vec())).expect("valid");
    assert_eq!(header.as_bytes(), b"Bearer sk-test");
    assert_eq!(
        authorization_header(&ApiKey::new(b"sk\ntest".to_vec())).err(),
        Some(DeepseekError::AuthFailed)
    );
}

#[test]
fn a_client_keeps_its_settings_and_backoff() {
    let settings = TranslationSettings { max_retries: 1, ..TranslationSettings::default() };
    let client = DeepseekClient::new(&settings).expect("client").with_base_delay(0);

    assert_eq!(client.base_delay_ms(), 0);
    assert_eq!(client.translation_settings().max_retries, 1);
    assert_eq!(client.next_retry_delay(&DeepseekError::Timeout, 0, None), Some(0));
    assert_eq!(client.next_retry_delay(&DeepseekError::Timeout, 1, None), None);
}
