use speaktype_cloud::error::AppError;
use speaktype_cloud::providers::{
    api_key_from_environment, endpoint, http_error_message, network_message, nonempty_transcript, openai_endpoint,
    openai_form_fields, retryable_http_status, retryable_transport_error, sanitized_error_body, supports_xai_formatting, xai_endpoint, xai_form_fields, ProviderRequest,
};

#[test]
fn chinese_is_sent_without_formatting_language() {
    assert!(!supports_xai_formatting("zh"));
    assert!(supports_xai_formatting("ja"));
}

#[test]
fn formatting_languages_are_matched_in_any_case() {
    assert!(supports_xai_formatting("EN"));
    assert!(supports_xai_formatting("Fil"));
    assert!(!supports_xai_formatting("en-US"));
    assert!(!supports_xai_formatting(""));
}

fn field_names(fields: &[(String, String)]) -> Vec<&str> {
    fields.iter().map(|(name, _)| name.as_str()).collect()
}

#[test]
fn multipart_file_field_is_last() {
    let fields = xai_form_fields(true, Some("en".to_string()), &["alpha".to_string(), "beta".to_string()]);
    assert_eq!(field_names(&fields), vec!["format", "language", "keyterm", "keyterm"]);
    assert_eq!(fields[1].1, "en");
    assert_eq!(fields[3].1, "beta");
    assert!(!field_names(&fields).contains(&"file"));
}

#[test]
fn xai_fields_drop_unsupported_languages_and_blank_keyterms() {
    let fields = xai_form_fields(true, Some("zh".to_string()), &["  ".to_string(), "term".to_string()]);
    assert_eq!(field_names(&fields), vec!["keyterm"]);
    let many: Vec<String> = (0..150).map(|i| format!("k{i}")).collect();
    let fields = xai_form_fields(false, Some("en".to_string()), &many);
    assert_eq!(fields.len(), 101);
    assert_eq!(fields[0].0, "language");
    assert_eq!(fields[100].1, "k99");
}

#[test]
fn openai_fields_put_language_and_prompt_after_the_file() {
    let (before, after) = openai_form_fields("whisper-1", Some("zh".to_string()), Some("  ".to_string()));
    assert_eq!(field_names(&before), vec!["model", "response_format"]);
    assert_eq!(before[1].1, "json");
    assert_eq!(field_names(&after), vec!["language"]);
    let (_, after) = openai_form_fields("whisper-1", None, Some("names".to_string()));
    assert_eq!(field_names(&after), vec!["prompt"]);
}

#[test]
fn xai_rejects_empty_transcript() {
    let error = nonempty_transcript("   ".to_string()).expect_err("empty transcript must fail").to_text();
    assert!(error.contains("空白"), "unexpected error: {error}");
    assert_eq!(nonempty_transcript("hello".to_string()).expect("text"), "hello");
}

#[test]
fn xai_http_error_does_not_expose_api_key() {
    let api_key = "provider-test-secret-error-redaction";
    let body = format!(r#"{{"error":"denied {api_key}"}}"#);
    let error = http_error_message("xAI", "429 Too Many Requests", &body, api_key);
    assert!(error.contains("429"), "unexpected error: {error}");
    assert!(!error.contains(api_key));
    assert_eq!(error, r#"xAI HTTP 429 Too Many Requests: {"error":"denied [REDACTED]"}"#);
}

#[test]
fn xai_timeout_is_classified() {
    let error = network_message("xAI", true, false, "operation timed out");
    assert!(error.contains("逾時"), "unexpected error: {error}");
    assert_eq!(network_message("xAI", false, true, "refused"), "無法連線 xAI API");
    assert_eq!(network_message("OpenAI", false, false, "broken pipe"), "broken pipe");
}

#[test]
fn error_bodies_are_cut_after_800_characters() {
    let body = "字".repeat(1000);
    assert_eq!(sanitized_error_body(&body, "").chars().count(), 800);
    assert_eq!(sanitized_error_body("short", "key"), "short");
}

#[test]
fn endpoints_drop_trailing_slashes() {
    assert_eq!(openai_endpoint("https://api.openai.com//"), "https://api.openai.com/v1/audio/transcriptions");
    assert_eq!(xai_endpoint("https://api.x.ai"), "https://api.x.ai/v1/stt");
    assert_eq!(endpoint("", "/x"), "/x");
}

#[test]
fn empty_api_key_environment_value_is_rejected() {
    let variable = "SPEAKTYPE_TEST_EMPTY_API_KEY";
    let error = api_key_from_environment(variable, Some(String::new())).err().expect("empty key must fail").to_text();
    assert!(error.contains(variable));
    let missing = api_key_from_environment(variable, None).err().expect("missing key must fail");
    assert!(matches!(missing, AppError::Configuration(ref m) if m.starts_with("找不到環境變數")));
    assert_eq!(api_key_from_environment(variable, Some("secret".to_string())).expect("key"), "secret");
}

#[test]
fn provider_request_holds_the_recording() {
    let request = ProviderRequest { wav_bytes: b"wav".to_vec(), language: None, prompt: Some("p".to_string()) };
    let copy = request.clone();
    assert_eq!(copy.wav_bytes, b"wav".to_vec());
    assert_eq!(copy.prompt.as_deref(), Some("p"));
}

#[test]
fn timeouts_rate_limits_and_server_errors_are_retried() {
    assert!(retryable_http_status(408));
    assert!(retryable_http_status(429));
    assert!(retryable_http_status(500));
    assert!(retryable_http_status(503));
    assert!(retryable_http_status(599));
    assert!(!retryable_http_status(400));
    assert!(!retryable_http_status(401));
    assert!(!retryable_http_status(404));
    assert!(!retryable_http_status(600));
}

#[test]
fn only_timeouts_and_connection_failures_are_retried() {
    assert!(retryable_transport_error(true, false));
    assert!(retryable_transport_error(false, true));
    assert!(!retryable_transport_error(false, false));
}
