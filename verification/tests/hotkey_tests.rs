use speaktype_cloud::hotkey::{
    apply_event, combo_held, fallback_edge, immediate_report, key_name, normalize_device_key, poll_listener_error,
    poll_report, start_report, startup_handshake, DeviceKey, EdgePoller, HookKey, HookListener, HotkeyCombo, HotkeyEvent, KeyInput, KeyboardState,
    ListenerStatus, StatusRead,
};
use std::collections::HashSet;
use std::sync::mpsc;
use std::time::Duration;

#[test]
fn parses_default_hotkey() {
    let hotkey = HotkeyCombo::parse("Ctrl+Shift+Space").expect("parse");
    assert!(hotkey.ctrl && hotkey.shift);
    assert_eq!(hotkey.key, "SPACE");
}

#[test]
fn parse_reads_modifier_names_in_any_case_and_ignores_blank_pieces() {
    let hotkey = HotkeyCombo::parse(" control + WIN ++ alt + f9 ").expect("parse");
    assert!(hotkey.ctrl && hotkey.meta && hotkey.alt && !hotkey.shift);
    assert_eq!(hotkey.key, "F9");
}

#[test]
fn parse_requires_a_main_key_and_a_modifier() {
    assert_eq!(HotkeyCombo::parse("Ctrl+Shift").err().as_deref(), Some("快捷鍵需要一個主鍵"));
    assert_eq!(HotkeyCombo::parse("Space").err().as_deref(), Some("快捷鍵至少需要一個修飾鍵"));
}

#[test]
fn startup_handshake_accepts_started_without_immediate_error() {
    let (tx, rx) = mpsc::channel();
    tx.send(ListenerStatus::ThreadStarted)
        .expect("started status");

    assert!(startup_handshake(&rx, Duration::ZERO, Duration::ZERO).is_ok());
}

#[test]
fn startup_handshake_reports_immediate_listener_failure() {
    let (tx, rx) = mpsc::channel();
    tx.send(ListenerStatus::ThreadStarted)
        .expect("started status");
    tx.send(ListenerStatus::Failed("hook denied".to_string()))
        .expect("failure status");

    let error = startup_handshake(&rx, Duration::ZERO, Duration::ZERO)
        .expect_err("immediate failure must fail startup");

    assert!(error.contains("hook denied"));
}

#[test]
fn startup_handshake_is_bounded_when_thread_never_reports_started() {
    let (_tx, rx) = mpsc::channel();

    let error = startup_handshake(&rx, Duration::ZERO, Duration::ZERO)
        .expect_err("missing startup status must time out");

    assert!(error.contains("逾時"));
}

#[test]
fn startup_handshake_reports_a_listener_that_stopped_before_starting() {
    let (tx, rx) = mpsc::channel::<ListenerStatus>();
    drop(tx);
    assert_eq!(
        startup_handshake(&rx, Duration::ZERO, Duration::ZERO).err().as_deref(),
        Some("全域快捷鍵 listener 啟動前已中止")
    );
}

#[test]
fn runtime_failure_is_exposed_to_ui_consumer() {
    let (tx, rx) = mpsc::channel();
    tx.send(ListenerStatus::Failed("listener stopped".to_string()))
        .expect("runtime status");

    assert_eq!(
        poll_listener_error(&rx),
        Some("listener stopped".to_string())
    );
}

#[test]
fn handshake_verdicts_on_each_read() {
    assert!(start_report(StatusRead::Report(ListenerStatus::ThreadStarted)).is_ok());
    assert_eq!(start_report(StatusRead::NothingYet).err().as_deref(), Some("全域快捷鍵 listener 啟動逾時"));
    assert!(immediate_report(StatusRead::NothingYet).is_ok());
    assert_eq!(immediate_report(StatusRead::Closed).err().as_deref(), Some("全域快捷鍵 listener 啟動後立即中止"));
    assert_eq!(poll_report(StatusRead::Closed).as_deref(), Some("全域快捷鍵 listener 已中止"));
    assert_eq!(poll_report(StatusRead::NothingYet), None);
}

#[test]
fn matches_raw_requires_all_modifiers_and_key() {
    let combo = HotkeyCombo {
        ctrl: true,
        shift: false,
        alt: false,
        meta: false,
        key: "A".to_string(),
    };
    let mut pressed = HashSet::new();
    pressed.insert("A".to_string());

    assert!(combo.matches_raw(true, false, false, false, &pressed));
    assert!(!combo.matches_raw(false, false, false, false, &pressed));
    assert!(!combo.matches_raw(true, false, false, false, &HashSet::new()));
}

#[test]
fn matches_raw_ignores_unrequired_modifiers() {
    let combo = HotkeyCombo {
        ctrl: true,
        shift: false,
        alt: false,
        meta: false,
        key: "A".to_string(),
    };
    let mut pressed = HashSet::new();
    pressed.insert("A".to_string());

    assert!(combo.matches_raw(true, true, true, true, &pressed));
}

#[test]
fn fallback_polling_turns_state_into_edges() {
    assert_eq!(fallback_edge(true, false), Some(HotkeyEvent::Pressed));
    assert_eq!(fallback_edge(false, true), Some(HotkeyEvent::Released));
    assert_eq!(fallback_edge(true, true), None);
    assert_eq!(fallback_edge(false, false), None);
}

#[test]
fn keyboard_state_follows_presses_and_releases() {
    let mut state = KeyboardState::default();
    state.apply(true, KeyInput::Control);
    state.apply(true, KeyInput::Named("A".to_string()));
    state.apply(true, KeyInput::Unnamed);
    assert!(state.ctrl && !state.shift);
    assert!(state.keys.contains("A"));
    let combo = HotkeyCombo::parse("Ctrl+A").expect("parse");
    assert!(combo.matches_raw(state.ctrl, state.shift, state.alt, state.meta, &state.keys));
    state.apply(false, KeyInput::Named("A".to_string()));
    state.apply(false, KeyInput::Control);
    assert!(!state.ctrl);
    assert!(state.keys.is_empty());
}

#[test]
fn normalize_device_key_roundtrip_letter() {
    assert_eq!(normalize_device_key(DeviceKey::A), Some("A".to_string()));
    assert_eq!(normalize_device_key(DeviceKey::Z), Some("Z".to_string()));
    assert_eq!(normalize_device_key(DeviceKey::Space), Some("SPACE".to_string()));
    assert_eq!(normalize_device_key(DeviceKey::Enter), Some("ENTER".to_string()));
}

#[test]
fn normalize_device_key_unknown_returns_none() {
    assert_eq!(normalize_device_key(DeviceKey::Other), None);
    assert_eq!(normalize_device_key(DeviceKey::LControl), None);
}

#[test]
fn device_keys_name_digits_and_function_keys() {
    assert_eq!(normalize_device_key(DeviceKey::Key7), Some("7".to_string()));
    assert_eq!(normalize_device_key(DeviceKey::F12), Some("F12".to_string()));
    assert_eq!(normalize_device_key(DeviceKey::Escape), Some("ESC".to_string()));
}

#[test]
fn hook_keys_name_letters_and_whitespace_keys_only() {
    assert_eq!(key_name(HookKey::KeyQ), Some("Q".to_string()));
    assert_eq!(key_name(HookKey::Return), Some("ENTER".to_string()));
    assert_eq!(key_name(HookKey::Tab), Some("TAB".to_string()));
    assert_eq!(key_name(HookKey::ShiftLeft), None);
    assert_eq!(key_name(HookKey::Other), None);
}

#[test]
fn polled_keys_hold_the_combination_only_with_its_modifiers() {
    let combo = HotkeyCombo::parse("Ctrl+Shift+Space").expect("parse");
    assert!(combo_held(&combo, &[DeviceKey::RControl, DeviceKey::LShift, DeviceKey::Space]));
    assert!(combo_held(&combo, &[DeviceKey::Space, DeviceKey::LControl, DeviceKey::RShift, DeviceKey::LAlt]));
    assert!(!combo_held(&combo, &[DeviceKey::LControl, DeviceKey::Space]));
    assert!(!combo_held(&combo, &[DeviceKey::LControl, DeviceKey::LShift, DeviceKey::Enter]));
    assert!(!combo_held(&combo, &[]));
}

#[test]
fn hook_events_update_the_keyboard_state() {
    let mut state = KeyboardState::default();
    apply_event(&mut state, true, HookKey::ControlRight);
    apply_event(&mut state, true, HookKey::AltGr);
    apply_event(&mut state, true, HookKey::KeyL);
    apply_event(&mut state, true, HookKey::Other);
    assert!(state.ctrl && state.alt && !state.shift && !state.meta);
    assert_eq!(state.keys.len(), 1);
    assert!(state.keys.contains("L"));
    apply_event(&mut state, false, HookKey::KeyL);
    apply_event(&mut state, false, HookKey::ControlLeft);
    assert!(!state.ctrl && state.alt);
    assert!(state.keys.is_empty());
}

#[test]
fn hook_listener_reports_each_edge_once() {
    let combo = HotkeyCombo::parse("Ctrl+Shift+Space").expect("parse");
    let mut listener = HookListener::new();
    assert_eq!(listener.on_key(true, HookKey::ControlLeft, Some(&combo)), None);
    assert_eq!(listener.on_key(true, HookKey::ShiftRight, Some(&combo)), None);
    assert_eq!(listener.on_key(true, HookKey::Space, Some(&combo)), Some(HotkeyEvent::Pressed));
    assert_eq!(listener.on_key(true, HookKey::Space, Some(&combo)), None);
    assert_eq!(listener.on_key(true, HookKey::KeyA, Some(&combo)), None);
    assert_eq!(listener.on_key(false, HookKey::ShiftRight, Some(&combo)), Some(HotkeyEvent::Released));
    assert_eq!(listener.on_key(false, HookKey::ControlLeft, Some(&combo)), None);
    assert!(!listener.was_down);
}

#[test]
fn hook_listener_treats_an_unreadable_combination_as_not_held() {
    let combo = HotkeyCombo::parse("Alt+A").expect("parse");
    let mut listener = HookListener::new();
    listener.on_key(true, HookKey::Alt, Some(&combo));
    assert_eq!(listener.on_key(true, HookKey::KeyA, Some(&combo)), Some(HotkeyEvent::Pressed));
    assert_eq!(listener.on_key(true, HookKey::Other, None), Some(HotkeyEvent::Released));
}

#[test]
fn poller_passes_queued_events_and_falls_back_to_edges() {
    let mut poller = EdgePoller { last_pressed: false };
    assert_eq!(poller.from_queue(HotkeyEvent::Pressed), HotkeyEvent::Pressed);
    assert_eq!(poller.from_poll(true), None);
    assert_eq!(poller.from_poll(false), Some(HotkeyEvent::Released));
    assert_eq!(poller.from_poll(false), None);
    assert_eq!(poller.from_poll(true), Some(HotkeyEvent::Pressed));
    assert_eq!(poller.from_queue(HotkeyEvent::Released), HotkeyEvent::Released);
    assert!(!poller.last_pressed);
}
