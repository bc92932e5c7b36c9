use speaktype_cloud::audio::{
    capture_capacity, choose_input_device, store_stream_error, stream_interrupted_error, CaptureBuffer, DeviceChoice, LiveAudioStats,
};
use speaktype_cloud::error::AppError;
use std::sync::{Arc, Mutex};

#[test]
fn stream_error_is_buffered_for_the_ui_thread() {
    let slot = Arc::new(Mutex::new(None));

    store_stream_error(&slot, "device disconnected");

    assert_eq!(
        slot.lock().expect("error slot").as_deref(),
        Some("device disconnected")
    );
}

#[test]
fn later_stream_error_replaces_the_earlier_one() {
    let slot = Arc::new(Mutex::new(None));
    store_stream_error(&slot, "first");
    store_stream_error(&slot, "second");
    assert_eq!(slot.lock().expect("error slot").as_deref(), Some("second"));
}

#[test]
fn interrupted_stream_error_names_the_cause() {
    match stream_interrupted_error("device disconnected") {
        AppError::Audio(m) => assert_eq!(m, "麥克風串流中斷：device disconnected"),
        _ => panic!("audio error expected"),
    }
}

#[test]
fn callback_capture_ring_has_fixed_capacity_and_reports_overwrite() {
    let mut buffer = CaptureBuffer::with_capacity(4);
    let initial_capacity = buffer.storage_capacity();
    for sample in [1.0_f32, 2.0, 3.0, 4.0, 5.0, 6.0] {
        buffer.push(sample);
    }
    assert_eq!(buffer.storage_capacity(), initial_capacity);
    assert_eq!(initial_capacity, 4);
    assert_eq!(buffer.ordered_samples(), vec![3.0, 4.0, 5.0, 6.0]);
    assert_eq!(buffer.overwritten_samples(), 2);
}

#[test]
fn capture_ring_reports_which_pushes_overwrite() {
    let mut buffer = CaptureBuffer::with_capacity(2);
    assert!(!buffer.push(1_i16));
    assert!(!buffer.push(2));
    assert!(buffer.push(3));
    assert_eq!(buffer.take_ordered(), vec![2, 3]);
    assert!(buffer.ordered_samples().is_empty());
    assert_eq!(buffer.overwritten_samples(), 0);
    assert!(!buffer.push(4));
    assert_eq!(buffer.ordered_samples(), vec![4]);
}

#[test]
fn capture_ring_of_zero_capacity_keeps_nothing() {
    let mut buffer = CaptureBuffer::with_capacity(0);
    assert!(buffer.push(1_u8));
    assert!(buffer.push(2));
    assert!(buffer.ordered_samples().is_empty());
    assert_eq!(buffer.overwritten_samples(), 2);
}

#[test]
fn live_audio_counters_start_at_zero_and_count() {
    let stats = LiveAudioStats::default();
    let shared = stats.clone();
    assert_eq!(stats.dropped_chunks(), 0);
    assert_eq!(stats.dropped_capture_samples(), 0);
    shared.record_dropped_chunk();
    shared.record_dropped_capture_sample();
    shared.record_dropped_capture_sample();
    assert_eq!(stats.dropped_chunks(), 1);
    assert_eq!(stats.dropped_capture_samples(), 2);
}

#[test]
fn requested_input_device_is_found_by_exact_name() {
    let names = vec![Some("USB Mic".to_string()), None, Some("Headset".to_string()), Some("Headset".to_string())];
    assert_eq!(choose_input_device(&names, Some("Headset")), DeviceChoice::Listed(2));
    assert_eq!(choose_input_device(&names, Some("headset")), DeviceChoice::Default);
    assert_eq!(choose_input_device(&names, Some("  ")), DeviceChoice::Default);
    assert_eq!(choose_input_device(&names, None), DeviceChoice::Default);
    assert_eq!(choose_input_device(&[], Some("USB Mic")), DeviceChoice::Default);
}

#[test]
fn capture_ring_holds_the_longest_recording_for_every_channel() {
    assert_eq!(capture_capacity(48_000, 2), 48_000 * 2 * 120);
    assert_eq!(capture_capacity(16_000, 0), 16_000 * 120);
    assert_eq!(capture_capacity(44_100, 1), 5_292_000);
}

#[test]
fn capture_ring_keeps_the_last_pushes_of_a_long_run() {
    let mut buffer = CaptureBuffer::with_capacity(3);
    for k in 0..10_u32 {
        assert_eq!(buffer.push(k), k >= 3);
    }
    assert_eq!(buffer.ordered_samples(), vec![7, 8, 9]);
    assert_eq!(buffer.overwritten_samples(), 7);
}
