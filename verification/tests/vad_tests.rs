use speaktype_cloud::vad::{ClientVad, VadEndReason, VadEvent, VadTiming};

fn timing() -> VadTiming {
    VadTiming { pre_roll_frames: 2, min_speech_frames: 2, silence_frames: 2, max_utterance_frames: 20 }
}

fn frame(level: f32) -> Vec<f32> {
    vec![level; 160]
}

fn push(vad: &mut ClientVad<Vec<f32>>, level: f32) -> Vec<VadEvent<Vec<f32>>> {
    vad.push(frame(level), level >= 0.05)
}

#[test]
fn noise_and_short_bursts_do_not_create_utterances() {
    let mut vad = ClientVad::new(timing());
    for _ in 0..10 {
        assert!(push(&mut vad, 0.005).is_empty());
    }
    assert!(push(&mut vad, 0.2).is_empty());
    assert!(push(&mut vad, 0.005).is_empty());
    assert!(!vad.is_speaking());
}

#[test]
fn speech_includes_preroll_and_ends_after_silence() {
    let mut vad = ClientVad::new(timing());
    push(&mut vad, 0.01);
    push(&mut vad, 0.01);
    assert!(push(&mut vad, 0.2).is_empty());
    let started = push(&mut vad, 0.2);
    match started.as_slice() {
        [VadEvent::Started { audio }] => {
            assert_eq!(audio.len(), 4);
            assert_eq!(audio[0], frame(0.01));
            assert_eq!(audio[3], frame(0.2));
        }
        _ => panic!("utterance must start"),
    }
    assert!(vad.is_speaking());
    assert!(push(&mut vad, 0.0).is_empty());
    let ended = push(&mut vad, 0.0);
    assert!(matches!(ended.as_slice(), [VadEvent::Ended(VadEndReason::Silence)]));
    assert!(!vad.is_speaking());
}

#[test]
fn maximum_utterance_is_a_deterministic_endpoint() {
    let mut vad = ClientVad::new(VadTiming { max_utterance_frames: 3, ..timing() });
    push(&mut vad, 0.2);
    push(&mut vad, 0.2);
    let ended = push(&mut vad, 0.2);
    assert!(ended.iter().any(|event| matches!(event, VadEvent::Ended(VadEndReason::MaxDuration))));
    assert!(matches!(ended.as_slice(), [VadEvent::Continued(_), VadEvent::Ended(VadEndReason::MaxDuration)]));
}

#[test]
fn pre_roll_keeps_only_the_latest_quiet_frames() {
    let mut vad: ClientVad<u32> = ClientVad::new(VadTiming { pre_roll_frames: 2, min_speech_frames: 1, silence_frames: 1, max_utterance_frames: 10 });
    for n in 0..5 {
        assert!(vad.push(n, false).is_empty());
    }
    match vad.push(9, true).as_slice() {
        [VadEvent::Started { audio }] => assert_eq!(audio, &vec![3, 4, 9]),
        _ => panic!("utterance must start"),
    }
    assert!(matches!(vad.push(10, true).as_slice(), [VadEvent::Continued(10)]));
    assert!(matches!(vad.push(11, false).as_slice(), [VadEvent::Ended(VadEndReason::Silence)]));
}
