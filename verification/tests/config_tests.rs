use speaktype_cloud::config::{
    is_environment_variable_name, AppConfig, ChineseVariant, DictionaryEntry, OpenAiTranscriptionDelay, OpenRouterConfig,
    ProviderKind, TranscriptionMode, VoiceCommand, VoiceCommandAction,
};

#[test]
fn openai_realtime_delay_uses_only_official_enum_values() {
    for (delay, encoded) in [
        (OpenAiTranscriptionDelay::Minimal, "minimal"),
        (OpenAiTranscriptionDelay::Low, "low"),
        (OpenAiTranscriptionDelay::Medium, "medium"),
        (OpenAiTranscriptionDelay::High, "high"),
        (OpenAiTranscriptionDelay::XHigh, "xhigh"),
    ] {
        assert_eq!(delay.as_api_str(), encoded);
    }
}

#[test]
fn default_config_is_valid() {
    assert!(AppConfig::default().validate().is_ok());
    assert!(!AppConfig::default().launch_at_login);
    assert_eq!(
        AppConfig::default().transcription_mode,
        TranscriptionMode::BatchPtt
    );
}

#[test]
fn realtime_settings_are_bounded_and_opt_in() {
    let mut config = AppConfig {
        transcription_mode: TranscriptionMode::ContinuousDictation,
        ..AppConfig::default()
    };
    config.realtime.xai_smart_turn_threshold_bits = 1.1_f32.to_bits();
    assert!(config.validate().is_err());
    config.realtime.xai_smart_turn_threshold_bits = 0.7_f32.to_bits();
    config.realtime.xai_smart_turn_timeout_ms = 5_001;
    assert!(config.validate().is_err());
    config.realtime.xai_smart_turn_timeout_ms = 5_000;
    assert!(config.validate().is_ok());
}

#[test]
fn recording_duration_cannot_exceed_capture_ring_capacity() {
    let mut config = AppConfig::default();
    config.recording.max_duration_secs = 121;
    assert!(config.validate().is_err());
    config.recording.max_duration_secs = 120;
    assert!(config.validate().is_ok());
}

#[test]
fn api_key_env_switches_with_provider() {
    let mut config = AppConfig::default();
    assert_eq!(config.api_key_env(), "OPENAI_API_KEY");
    config.provider = ProviderKind::Xai;
    assert_eq!(config.api_key_env(), "XAI_API_KEY");
    config.provider = ProviderKind::OpenRouter;
    assert_eq!(config.api_key_env(), "OPENROUTER_API_KEY");
}

#[test]
fn openrouter_defaults_are_reasonable() {
    let config = OpenRouterConfig::default();
    assert_eq!(config.base_url, "https://openrouter.ai/api");
    assert_eq!(config.model, "openai/gpt-4o-mini-transcribe");
    assert_eq!(config.api_key_env, "OPENROUTER_API_KEY");
}

#[test]
fn openrouter_realtime_is_rejected() {
    let mut config = AppConfig {
        provider: ProviderKind::OpenRouter,
        transcription_mode: TranscriptionMode::RealtimePtt,
        ..AppConfig::default()
    };
    assert!(config.validate().is_err());
    config.transcription_mode = TranscriptionMode::ContinuousDictation;
    assert!(config.validate().is_err());
    config.transcription_mode = TranscriptionMode::BatchPtt;
    assert!(config.validate().is_ok());
}

#[test]
fn openrouter_empty_model_is_rejected() {
    let config = AppConfig {
        provider: ProviderKind::OpenRouter,
        openrouter: OpenRouterConfig {
            model: "".to_string(),
            ..OpenRouterConfig::default()
        },
        ..AppConfig::default()
    };
    assert!(config.validate().is_err());
}

#[test]
fn api_key_fields_must_be_environment_variable_names() {
    let mut config = AppConfig::default();
    config.openai.api_key_env = "provider-test-secret-invalid-one".to_string();
    assert!(config.validate().is_err());

    config.openai.api_key_env = "OPENAI_API_KEY".to_string();
    config.xai.api_key_env = "provider-test-secret-invalid-two".to_string();
    assert!(config.validate().is_err());

    config.xai.api_key_env = "XAI_API_KEY".to_string();
    config.openrouter.api_key_env = "provider-test-secret-invalid-three".to_string();
    assert!(config.validate().is_err());
}

#[test]
fn dictionary_rejects_empty_source() {
    let mut config = AppConfig::default();
    config.text_processing.dictionary.push(DictionaryEntry {
        source: "   ".to_string(),
        replacement: "ignored".to_string(),
    });

    assert!(config.validate().is_err());
}

#[test]
fn voice_commands_are_disabled_by_default_and_reject_empty_phrases() {
    let mut config = AppConfig::default();
    assert!(!config.text_processing.voice_commands_enabled);
    config.text_processing.voice_commands.push(VoiceCommand {
        phrase: "".to_string(),
        action: VoiceCommandAction::Discard,
    });

    assert!(config.validate().is_err());
}

#[test]
fn environment_variable_names_follow_the_usual_rules() {
    assert!(is_environment_variable_name("OPENAI_API_KEY"));
    assert!(is_environment_variable_name("_KEY1"));
    assert!(!is_environment_variable_name(""));
    assert!(!is_environment_variable_name("1KEY"));
    assert!(!is_environment_variable_name("MY-KEY"));
}

#[test]
fn labels_are_the_display_names() {
    assert_eq!(ProviderKind::OpenAi.label(), "OpenAI");
    assert_eq!(ProviderKind::Xai.label(), "xAI");
    assert!(TranscriptionMode::RealtimePtt.is_realtime());
    assert!(TranscriptionMode::ContinuousDictation.is_realtime());
    assert!(!TranscriptionMode::BatchPtt.is_realtime());
    assert_eq!(ChineseVariant::Preserve.label(), "保留原文");
    assert_eq!(ChineseVariant::Traditional.label(), "台灣繁體");
    assert_eq!(ChineseVariant::Simplified.label(), "簡體中文");
    assert_eq!(TranscriptionMode::BatchPtt.label(), "Batch / PTT");
    assert_eq!(OpenAiTranscriptionDelay::XHigh.label(), "xhigh");
}
