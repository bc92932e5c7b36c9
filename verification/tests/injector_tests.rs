use speaktype_cloud::injector::{
    external_target_for, is_expected_foreground, InjectAction, InjectEvent, Injection, WindowTarget, FOCUS_LEFT_MESSAGE,
    WINDOW_NOT_EXTERNAL_MESSAGE,
};

#[test]
fn foreground_must_still_match_saved_target_after_wait() {
    let target = WindowTarget(42);

    assert!(is_expected_foreground(target, 42));
    assert!(!is_expected_foreground(target, 7));
    assert!(!is_expected_foreground(target, 0));
}

#[test]
fn current_process_windows_are_not_external_targets() {
    assert_eq!(
        external_target_for(42, 200, 100),
        Some(WindowTarget(42))
    );
    assert_eq!(external_target_for(42, 100, 100), None);
    assert_eq!(external_target_for(42, 0, 100), None);
    assert_eq!(external_target_for(0, 200, 100), None);
}

#[test]
fn window_targets_keep_their_handle() {
    assert_eq!(WindowTarget::from_raw_for_test(9).hwnd(), 9);
}

fn finished_error(action: InjectAction) -> String {
    match action {
        InjectAction::Finish(Err(error)) => error.to_text(),
        _ => panic!("the injection must have failed"),
    }
}

#[test]
fn invalid_saved_window_is_rejected_before_injection() {
    let (job, action) = Injection::start(Some(WindowTarget(0)), "辨識文字", false);
    assert!(matches!(action, InjectAction::CheckWindow(0)));
    let (_, action) = job.step(InjectEvent::WindowExists(false));
    let error = finished_error(action);
    assert!(error.contains("視窗"));
}

#[test]
fn blank_text_is_not_injected() {
    let (_, action) = Injection::start(Some(WindowTarget(42)), "  \n", true);
    assert!(matches!(action, InjectAction::Finish(Ok(()))));
}

#[test]
fn injection_without_target_goes_straight_to_the_clipboard() {
    let (job, action) = Injection::start(None, "hello", false);
    assert!(matches!(action, InjectAction::OpenClipboard));
    let (job, action) = job.step(InjectEvent::ClipboardOpened(Ok(())));
    assert!(matches!(&action, InjectAction::WriteClipboard(text) if text == "hello"));
    let (job, action) = job.step(InjectEvent::ClipboardWritten(Ok(())));
    assert!(matches!(action, InjectAction::PasteAndWait(120)));
    let (_, action) = job.step(InjectEvent::Pasted);
    assert!(matches!(action, InjectAction::Finish(Ok(()))));
}

#[test]
fn full_injection_focuses_pastes_and_restores_the_clipboard() {
    let (job, action) = Injection::start(Some(WindowTarget(42)), "你好", true);
    assert!(matches!(action, InjectAction::CheckWindow(42)));
    let (job, action) = job.step(InjectEvent::WindowExists(true));
    assert!(matches!(action, InjectAction::QueryOwner(42)));
    let (job, action) = job.step(InjectEvent::Owner(200, 100));
    assert!(matches!(action, InjectAction::BringToFront(42)));
    let (job, action) = job.step(InjectEvent::FocusAccepted(true));
    assert!(matches!(action, InjectAction::ReadForegroundAfter(90)));
    let (job, action) = job.step(InjectEvent::Foreground(42));
    assert!(matches!(action, InjectAction::OpenClipboard));
    let (job, action) = job.step(InjectEvent::ClipboardOpened(Ok(())));
    assert!(matches!(action, InjectAction::ReadClipboard));
    let (job, action) = job.step(InjectEvent::ClipboardText(Some("old".to_string())));
    assert!(matches!(&action, InjectAction::WriteClipboard(text) if text == "你好"));
    let (job, action) = job.step(InjectEvent::ClipboardWritten(Ok(())));
    assert!(matches!(action, InjectAction::PasteAndWait(120)));
    let (job, action) = job.step(InjectEvent::Pasted);
    assert!(matches!(&action, InjectAction::WriteClipboard(text) if text == "old"));
    let (_, action) = job.step(InjectEvent::ClipboardWritten(Ok(())));
    assert!(matches!(action, InjectAction::Finish(Ok(()))));
}

#[test]
fn focus_that_moved_away_cancels_the_paste() {
    let (job, _) = Injection::start(Some(WindowTarget(42)), "text", false);
    let (job, _) = job.step(InjectEvent::WindowExists(true));
    let (job, _) = job.step(InjectEvent::Owner(200, 100));
    let (job, _) = job.step(InjectEvent::FocusAccepted(true));
    let (_, action) = job.step(InjectEvent::Foreground(7));
    assert_eq!(finished_error(action), format!("文字注入失敗：{FOCUS_LEFT_MESSAGE}"));
}

#[test]
fn window_of_this_process_is_not_pasted_into() {
    let (job, _) = Injection::start(Some(WindowTarget(42)), "text", false);
    let (job, _) = job.step(InjectEvent::WindowExists(true));
    let (_, action) = job.step(InjectEvent::Owner(100, 100));
    assert_eq!(finished_error(action), format!("文字注入失敗：{WINDOW_NOT_EXTERNAL_MESSAGE}"));
}

#[test]
fn clipboard_failure_is_reported_as_injection_error() {
    let (job, _) = Injection::start(None, "text", false);
    let (_, action) = job.step(InjectEvent::ClipboardOpened(Err("busy".to_string())));
    assert_eq!(finished_error(action), "文字注入失敗：busy");
}
