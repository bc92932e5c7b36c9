use speaktype_cloud::config::{AppConfig, ProviderKind, RealtimeConfig, TranscriptionMode};
use speaktype_cloud::realtime::RealtimeEvent;
use speaktype_cloud::realtime_worker::{
    checked_vad_timing, control_step, finalize_now, frames, route_event, stream_format, uses_local_vad, vad_timing, ControlRead,
    ControlStep, Framer, WorkerMessage, FRAME_MS,
};

#[test]
fn vad_duration_conversion_is_bounded_to_at_least_one_frame() {
    assert_eq!(frames(0, 10), 1);
    assert_eq!(frames(25, 10), 3);
}

#[test]
fn frame_counts_round_up() {
    assert_eq!(frames(30, 10), 3);
    assert_eq!(frames(31, 10), 4);
    assert_eq!(frames(u64::MAX, 1), u64::MAX as usize);
}

#[test]
fn default_realtime_settings_give_these_frame_counts() {
    let timing = vad_timing(&RealtimeConfig::default());
    assert_eq!(timing.pre_roll_frames, 30);
    assert_eq!(timing.min_speech_frames, 20);
    assert_eq!(timing.silence_frames, 70);
    assert_eq!(timing.max_utterance_frames, 6000);
    assert_eq!(FRAME_MS, 10);
}

#[test]
fn local_vad_is_used_for_continuous_dictation_without_smart_turn() {
    let mut config = AppConfig { transcription_mode: TranscriptionMode::ContinuousDictation, ..AppConfig::default() };
    assert!(uses_local_vad(&config));
    config.provider = ProviderKind::Xai;
    assert!(uses_local_vad(&config));
    config.realtime.xai_smart_turn_enabled = true;
    assert!(!uses_local_vad(&config));
    config.provider = ProviderKind::OpenAi;
    assert!(uses_local_vad(&config));
    config.transcription_mode = TranscriptionMode::RealtimePtt;
    assert!(!uses_local_vad(&config));
}

#[test]
fn stream_formats_per_provider() {
    assert_eq!(stream_format(ProviderKind::OpenAi), Some((24_000, 2_400)));
    assert_eq!(stream_format(ProviderKind::Xai), Some((16_000, 1_600)));
    assert_eq!(stream_format(ProviderKind::OpenRouter), None);
}

#[test]
fn finalize_is_emitted_only_after_all_audio_and_producer_disconnect() {
    let mut finalize_requested = false;
    let mut wire: Vec<String> = Vec::new();
    if let ControlStep::Continue(pending) = control_step(false, finalize_requested, ControlRead::Finalize) {
        finalize_requested = pending;
    }
    for sample in [1.0_f32, 2.0] {
        wire.push(format!("audio:{sample}"));
    }
    assert!(!finalize_now(finalize_requested, false));
    if finalize_now(finalize_requested, true) {
        wire.push("finalize".to_string());
    }
    assert_eq!(wire, ["audio:1", "audio:2", "finalize"]);
}

#[test]
fn control_messages_stop_or_keep_the_worker_going() {
    assert_eq!(control_step(true, false, ControlRead::Empty), ControlStep::Stop);
    assert_eq!(control_step(false, false, ControlRead::Cancel), ControlStep::Stop);
    assert_eq!(control_step(false, false, ControlRead::Closed), ControlStep::Stop);
    assert_eq!(control_step(false, true, ControlRead::Empty), ControlStep::Continue(true));
    assert_eq!(control_step(false, false, ControlRead::Finalize), ControlStep::Continue(true));
}

#[test]
fn session_errors_end_the_worker_and_other_events_pass_through() {
    assert_eq!(route_event(RealtimeEvent::Error("boom".to_string())).err().as_deref(), Some("boom"));
    match route_event(RealtimeEvent::Partial("hi".to_string())) {
        Ok(WorkerMessage::Event(RealtimeEvent::Partial(text))) => assert_eq!(text, "hi"),
        _ => panic!("partial must be passed on"),
    }
}

#[test]
fn framer_keeps_every_sample_in_fixed_10ms_frames() {
    let mut framer = Framer::new(160);
    let input: Vec<f32> = (0..4_417).map(|index| index as f32).collect();
    let mut out: Vec<Vec<f32>> = Vec::new();
    for chunk in input.chunks(137) {
        out.extend(framer.frameize(chunk, false, 0.0));
    }
    out.extend(framer.frameize(&[], true, 0.0));
    assert!(out.iter().all(|frame| frame.len() == 160));
    let flat: Vec<f32> = out.into_iter().flatten().collect();
    assert_eq!(flat.len(), 4_417_usize.div_ceil(160) * 160);
    assert_eq!(&flat[..4_417], &input[..]);
    assert!(flat[4_417..].iter().all(|sample| *sample == 0.0));
}

#[test]
fn framer_carries_partial_frames_and_pads_only_at_the_end() {
    let mut framer = Framer::new(3);
    assert_eq!(framer.frameize(&[1, 2], false, 0), Vec::<Vec<i32>>::new());
    assert_eq!(framer.frameize(&[3, 4], false, 0), vec![vec![1, 2, 3]]);
    assert_eq!(framer.frameize(&[], true, 9), vec![vec![4, 9, 9]]);
    assert_eq!(framer.frameize(&[], true, 9), Vec::<Vec<i32>>::new());
    let mut zero = Framer::new(0);
    assert_eq!(zero.frameize(&[5, 6], false, 0), vec![vec![5], vec![6]]);
}

#[test]
fn frame_counts_are_refused_when_they_cannot_be_counted() {
    let timing = checked_vad_timing(&RealtimeConfig::default()).expect("default settings fit");
    assert_eq!(timing.max_utterance_frames, 6000);
    assert_eq!(timing.pre_roll_frames, 30);
    let mut config = RealtimeConfig::default();
    config.max_utterance_secs = u64::MAX;
    assert!(checked_vad_timing(&config).is_none());
    config.max_utterance_secs = u64::MAX / 1000;
    assert!(checked_vad_timing(&config).is_some());
}
