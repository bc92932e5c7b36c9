use speaktype_cloud::error::AppError;
use speaktype_cloud::config::OpenAiTranscriptionDelay;
use speaktype_cloud::realtime::openai::{
    audio_append_message, session_update_message, OpenAiEventParser, RunInput, COMMIT_MESSAGE,
};
use speaktype_cloud::realtime::xai::FINALIZE_MESSAGE;
use speaktype_cloud::realtime::xai::{check_created, query_pairs, reconcile_locked, XaiEventParser};
use speaktype_cloud::realtime::{check_audio_frame, pcm16_le_bytes, sanitized_protocol_error, validate_ws_endpoint, RealtimeEvent};

#[test]
fn completed_items_emit_in_commit_order_even_when_server_completes_in_reverse() {
    let mut parser = OpenAiEventParser::default();
    parser.register_commit();
    parser.register_commit();
    assert!(parser
        .parse(
            r#"{"type":"input_audio_buffer.committed","item_id":"item-1"}"#,
            "secret"
        )
        .is_empty());
    assert!(parser
        .parse(
            r#"{"type":"input_audio_buffer.committed","item_id":"item-2"}"#,
            "secret"
        )
        .is_empty());
    assert_eq!(
        parser.parse(r#"{"type":"conversation.item.input_audio_transcription.delta","item_id":"item-2","delta":"second"}"#, "secret"),
        vec![RealtimeEvent::Partial("second".to_string())]
    );
    assert!(parser.parse(r#"{"type":"conversation.item.input_audio_transcription.completed","item_id":"item-2","transcript":"second"}"#, "secret").is_empty());
    assert_eq!(
        parser.parse(r#"{"type":"conversation.item.input_audio_transcription.completed","item_id":"item-1","transcript":"first"}"#, "secret"),
        vec![
            RealtimeEvent::Final("first".to_string()),
            RealtimeEvent::Final("second".to_string()),
        ]
    );
}

#[test]
fn completed_item_removes_accumulated_delta_even_with_server_transcript() {
    let mut parser = OpenAiEventParser::default();
    parser.register_commit();
    parser.parse(
        r#"{"type":"input_audio_buffer.committed","item_id":"item-1"}"#,
        "secret",
    );
    parser.parse(r#"{"type":"conversation.item.input_audio_transcription.delta","item_id":"item-1","delta":"draft"}"#, "secret");
    assert_eq!(parser.deltas.len(), 1);
    assert_eq!(
        parser.parse(r#"{"type":"conversation.item.input_audio_transcription.completed","item_id":"item-1","transcript":"final"}"#, "secret"),
        vec![RealtimeEvent::Final("final".to_string())]
    );
    assert!(parser.deltas.is_empty());
}

#[test]
fn completion_before_commit_waits_for_its_item() {
    let mut parser = OpenAiEventParser::default();
    parser.register_commit();
    assert!(parser.parse(r#"{"type":"conversation.item.input_audio_transcription.completed","item_id":"item-9","transcript":"early"}"#, "k").is_empty());
    assert_eq!(
        parser.parse(r#"{"type":"input_audio_buffer.committed","item_id":"item-9"}"#, "k"),
        vec![RealtimeEvent::Final("early".to_string())]
    );
    assert!(parser.completed_before_commit.is_empty());
}

#[test]
fn deltas_accumulate_and_empty_transcripts_fall_back_to_them() {
    let mut parser = OpenAiEventParser::default();
    parser.register_commit();
    parser.parse(r#"{"type":"input_audio_buffer.committed","item_id":"a"}"#, "k");
    assert_eq!(
        parser.parse(r#"{"type":"conversation.item.input_audio_transcription.delta","item_id":"a","delta":"he"}"#, "k"),
        vec![RealtimeEvent::Partial("he".to_string())]
    );
    assert_eq!(
        parser.parse(r#"{"type":"conversation.item.input_audio_transcription.delta","item_id":"a","delta":"llo"}"#, "k"),
        vec![RealtimeEvent::Partial("hello".to_string())]
    );
    assert_eq!(
        parser.parse(r#"{"type":"conversation.item.input_audio_transcription.completed","item_id":"a","transcript":""}"#, "k"),
        vec![RealtimeEvent::Final("hello".to_string())]
    );
}

#[test]
fn openai_protocol_errors_are_redacted() {
    let mut parser = OpenAiEventParser::default();
    assert_eq!(parser.parse(r#"{"type":"session.updated"}"#, "k"), vec![RealtimeEvent::Created]);
    let events = parser.parse(r#"{"type":"error","message":"bad key sk-123"}"#, "sk-123");
    assert_eq!(events.len(), 1);
    match &events[0] {
        RealtimeEvent::Error(message) => {
            assert!(!message.contains("sk-123"));
            assert!(message.contains("[REDACTED]"));
        }
        other => panic!("unexpected event {other:?}"),
    }
    let events = parser.parse("not json sk-123", "sk-123");
    assert!(matches!(&events[..], [RealtimeEvent::Error(m)] if m.starts_with("OpenAI realtime JSON 錯誤：") && !m.contains("sk-123")));
    assert!(parser.parse(r#"{"type":"something.else"}"#, "k").is_empty());
}

#[test]
fn smart_turn_locks_chunks_until_speech_final_without_duplicate_final() {
    let mut parser = XaiEventParser::new(true);
    assert_eq!(
        parser.parse(
            r#"{"type":"transcript","text":"hello ","is_final":true,"speech_final":false}"#,
            "secret"
        ),
        Some(RealtimeEvent::Partial("hello ".to_string()))
    );
    assert_eq!(
        parser.parse(
            r#"{"type":"transcript","text":"world","is_final":false,"speech_final":false}"#,
            "secret"
        ),
        Some(RealtimeEvent::Partial("hello world".to_string()))
    );
    assert_eq!(
        parser.parse(
            r#"{"type":"transcript","text":"world","is_final":true,"speech_final":true}"#,
            "secret"
        ),
        Some(RealtimeEvent::Final("hello world".to_string()))
    );
    assert_eq!(parser.locked_text(), "");
}

#[test]
fn non_smart_turn_also_locks_is_final_until_speech_final() {
    let mut parser = XaiEventParser::new(false);
    assert_eq!(
        parser.parse(
            r#"{"type":"transcript","text":"locked ","is_final":true,"speech_final":false}"#,
            "secret"
        ),
        Some(RealtimeEvent::Partial("locked ".to_string()))
    );
    assert_eq!(
        parser.parse(
            r#"{"type":"transcript","text":"utterance","is_final":true,"speech_final":true}"#,
            "secret"
        ),
        Some(RealtimeEvent::Final("locked utterance".to_string()))
    );
}

#[test]
fn locked_text_is_not_repeated_when_the_server_already_includes_it() {
    assert_eq!(reconcile_locked("hello ", "hello world"), "hello world");
    assert_eq!(reconcile_locked("hello ", "world"), "hello world");
    assert_eq!(reconcile_locked("", "world"), "world");
}

#[test]
fn refuses_audio_before_transcript_created() {
    let error = check_created(r#"{"type":"transcript.partial","text":"too early"}"#)
        .err()
        .expect("created ordering error")
        .to_text();
    assert!(error.contains("transcript.created"));
    assert!(!error.contains("xai-secret"));
    assert!(check_created(r#"{"type":"transcript.created"}"#).is_ok());
    assert!(matches!(check_created("{"), Err(AppError::Transcription(m)) if m.starts_with("xAI realtime JSON 錯誤：")));
}

#[test]
fn xai_query_names_the_stream_format_and_turn_settings() {
    let pairs = query_pairs(true, "0.7", 3_000);
    let rendered: Vec<String> = pairs.iter().map(|(k, v)| format!("{k}={v}")).collect();
    assert_eq!(
        rendered.join("&"),
        "sample_rate=16000&encoding=pcm&interim_results=true&smart_turn=0.7&smart_turn_timeout=3000"
    );
    assert_eq!(query_pairs(false, "0.7", 3_000).len(), 3);
}

#[test]
fn protocol_error_never_exposes_authorization_secret() {
    assert_eq!(sanitized_protocol_error("Bearer abc failed for abc", "abc"), "Bearer [REDACTED] failed for [REDACTED]");
    assert_eq!(sanitized_protocol_error("nothing to hide", ""), "nothing to hide");
}

#[test]
fn realtime_endpoints_must_be_secure_or_local() {
    assert!(validate_ws_endpoint("wss://api.openai.com/v1/realtime").is_ok());
    assert!(validate_ws_endpoint("ws://127.0.0.1:9000/v1/stt").is_ok());
    assert!(validate_ws_endpoint("ws://localhost/x").is_ok());
    assert!(validate_ws_endpoint("ws://example.com/x").is_err());
    assert!(validate_ws_endpoint("not a url").is_err());
}

#[test]
fn audio_frames_are_little_endian_pcm_within_bounds() {
    assert_eq!(pcm16_le_bytes(&[1, -1, 256]), vec![1, 0, 255, 255, 0, 1]);
    assert!(check_audio_frame(1, 2400).is_ok());
    assert!(check_audio_frame(2400, 2400).is_ok());
    assert!(check_audio_frame(0, 2400).is_err());
    match check_audio_frame(2401, 2400) {
        Err(AppError::Audio(m)) => assert_eq!(m, "Realtime 音訊 frame 必須介於 1 與 2400 samples"),
        _ => panic!("oversized frame must fail"),
    }
}

#[test]
fn a_replayed_session_delivers_finals_in_commit_order() {
    let message = |s: &str| RunInput::Message(s.to_string());
    let inputs = vec![
        RunInput::Commit,
        RunInput::Commit,
        RunInput::Commit,
        message(r#"{"type":"input_audio_buffer.committed","item_id":"a"}"#),
        message(r#"{"type":"conversation.item.input_audio_transcription.completed","item_id":"c","transcript":"third"}"#),
        message(r#"{"type":"input_audio_buffer.committed","item_id":"b"}"#),
        message(r#"{"type":"conversation.item.input_audio_transcription.completed","item_id":"b","transcript":"second"}"#),
        message(r#"{"type":"input_audio_buffer.committed","item_id":"c"}"#),
        message(r#"{"type":"conversation.item.input_audio_transcription.completed","item_id":"a","transcript":"first"}"#),
    ];
    let (parser, events) = OpenAiEventParser::replay(&inputs, "secret");
    let finals: Vec<String> = events
        .into_iter()
        .filter_map(|e| match e {
            RealtimeEvent::Final(t) => Some(t),
            _ => None,
        })
        .collect();
    assert_eq!(finals, vec!["first".to_string(), "second".to_string(), "third".to_string()]);
    assert!(parser.commits.is_empty());
}

#[test]
fn outbound_messages_are_framed_as_the_protocol_expects() {
    assert_eq!(
        audio_append_message(&[1, -1]),
        r#"{"type":"input_audio_buffer.append","audio":"AQD//w=="}"#
    );
    assert_eq!(COMMIT_MESSAGE, r#"{"type":"input_audio_buffer.commit"}"#);
    assert_eq!(FINALIZE_MESSAGE, r#"{"type":"Finalize"}"#);
    let update = session_update_message("gpt-realtime-whisper", "zh\"tw", OpenAiTranscriptionDelay::Low);
    let value: serde_json::Value = serde_json::from_str(&update).expect("session.update is JSON");
    assert_eq!(value["type"], "session.update");
    assert_eq!(value["session"]["type"], "transcription");
    let input = &value["session"]["audio"]["input"];
    assert_eq!(input["format"]["type"], "audio/pcm");
    assert_eq!(input["format"]["rate"], 24000);
    assert_eq!(input["transcription"]["model"], "gpt-realtime-whisper");
    assert_eq!(input["transcription"]["language"], "zh\"tw");
    assert_eq!(input["transcription"]["delay"], "low");
    assert!(input["turn_detection"].is_null());
}
