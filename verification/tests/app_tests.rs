use speaktype_cloud::app::{
    audio_drop_warnings, cancel_transcription_enabled, copy_button_status, mode_description,
    realtime_cancel_report, record_button_label, repaste_copy_status, status_line, copy_outcome_status, delivery_plan, fallback_delivery_feedback, hotkey_action, keyterms_from_lines,
    keyterms_to_lines, next_job_id, preserve_target_after_final, react_to_worker_message, realtime_failure_status,
    realtime_provider_name, realtime_settings_fingerprint, record_nonfatal_error, recording_status,
    settings_blocked_error, should_stop_for_recording_limit, take_confirmed_batch_fallback, transcript_for_delivery,
    DeliveryPlan, HotkeyAction, RealtimeReaction, SettingsAction, SettingsTransaction, TargetState,
};
use speaktype_cloud::config::{AppConfig, ProviderKind, TextProcessingConfig, TranscriptionMode, VoiceCommand, VoiceCommandAction};
use speaktype_cloud::error::AppError;
use speaktype_cloud::hotkey::HotkeyEvent;
use speaktype_cloud::injector::WindowTarget;
use speaktype_cloud::postprocess::DeliveryMode;
use speaktype_cloud::realtime::RealtimeEvent;
use speaktype_cloud::realtime_worker::WorkerMessage;
use speaktype_cloud::transcription::{is_current_job, JobId};
use std::time::Duration;

#[test]
fn fallback_copy_failure_is_reported_without_claiming_copy_succeeded() {
    let feedback = fallback_delivery_feedback(
        AppError::Injection("focus changed".to_string()),
        Err(AppError::Injection("clipboard unavailable".to_string())),
    );

    assert!(!feedback.status.contains("已複製"));
    assert!(feedback.error.contains("focus changed"));
    assert!(feedback.error.contains("clipboard unavailable"));
}

#[test]
fn fallback_copy_success_is_reported_as_copied() {
    let feedback = fallback_delivery_feedback(AppError::Injection("focus changed".to_string()), Ok(()));
    assert_eq!(feedback.status, "自動貼上失敗，文字已複製到剪貼簿");
    assert_eq!(feedback.error, "文字注入失敗：focus changed");
}

#[test]
fn nonfatal_errors_are_combined_instead_of_overwritten() {
    let mut error = None;

    record_nonfatal_error(&mut error, "history unavailable");
    record_nonfatal_error(&mut error, "clipboard unavailable");

    let error = error.expect("combined error");
    assert!(error.contains("history unavailable"));
    assert!(error.contains("clipboard unavailable"));
    assert_eq!(error, "history unavailable\nclipboard unavailable");
}

#[test]
fn recording_uses_last_external_target_and_text_keeps_its_original_target() {
    let first = WindowTarget::from_raw_for_test(11);
    let second = WindowTarget::from_raw_for_test(22);
    let mut targets = TargetState::default();

    targets.observe(Some(first));
    assert_eq!(targets.start_recording(true, None), Some(first));
    targets.accept_transcript(false);
    targets.observe(Some(second));

    assert_eq!(targets.last_text(), Some(first));
    assert_eq!(targets.start_recording(true, Some(second)), Some(second));
}

#[test]
fn recording_without_external_target_is_copy_only() {
    let mut targets = TargetState::default();

    assert_eq!(targets.start_recording(true, None), None);
    targets.accept_transcript(false);

    assert_eq!(targets.last_text(), None);
    assert_eq!(
        targets.start_recording(false, Some(WindowTarget::from_raw_for_test(33))),
        None
    );
}

#[test]
fn stale_transcription_result_is_not_current() {
    assert!(!is_current_job(Some(JobId(7)), JobId(6)));
    assert!(is_current_job(Some(JobId(7)), JobId(7)));
    assert!(!is_current_job(None, JobId(7)));
}

#[test]
fn runtime_hotkey_failure_rolls_back_durable_state_and_current_config() {
    let previous = AppConfig::default();
    let mut next = previous.clone();
    next.launch_at_login = true;
    next.hotkey = "Ctrl+Alt+Space".to_string();
    let mut current = next.clone();
    let mut persist_calls = Vec::new();

    let (mut tx, mut action) = SettingsTransaction::start();
    let result = loop {
        let outcome = match action {
            SettingsAction::Persist { forward } => {
                let (from, to) = if forward { (&previous, &next) } else { (&next, &previous) };
                persist_calls.push((from.launch_at_login, to.launch_at_login));
                Ok(())
            }
            SettingsAction::ApplyHotkey => Err(AppError::Configuration("injected hotkey failure".to_string())),
            SettingsAction::Finish { result, keep_next } => {
                current = if keep_next { next.clone() } else { previous.clone() };
                break result;
            }
        };
        let (t, a) = tx.step(outcome);
        tx = t;
        action = a;
    };

    assert!(result.is_err());
    assert_eq!(current.hotkey, previous.hotkey);
    assert_eq!(current.launch_at_login, previous.launch_at_login);
    assert_eq!(persist_calls, vec![(false, true), (true, false)]);
}

#[test]
fn durable_failure_does_not_apply_runtime_hotkey() {
    let previous = AppConfig::default();
    let mut next = previous.clone();
    next.hotkey = "Ctrl+Alt+Space".to_string();
    let mut current = next.clone();
    let mut runtime_called = false;

    let (mut tx, mut action) = SettingsTransaction::start();
    let result = loop {
        let outcome = match action {
            SettingsAction::Persist { .. } => Err(AppError::Io("injected persist failure".to_string())),
            SettingsAction::ApplyHotkey => {
                runtime_called = true;
                Ok(())
            }
            SettingsAction::Finish { result, keep_next } => {
                current = if keep_next { next.clone() } else { previous.clone() };
                break result;
            }
        };
        let (t, a) = tx.step(outcome);
        tx = t;
        action = a;
    };

    assert!(result.is_err());
    assert!(!runtime_called);
    assert_eq!(current.hotkey, previous.hotkey);
}

#[test]
fn settings_transaction_success_keeps_next_settings() {
    let (tx, action) = SettingsTransaction::start();
    assert!(matches!(action, SettingsAction::Persist { forward: true }));
    let (tx, action) = tx.step(Ok(()));
    assert!(matches!(action, SettingsAction::ApplyHotkey));
    let (_, action) = tx.step(Ok(()));
    assert!(matches!(action, SettingsAction::Finish { result: Ok(()), keep_next: true }));
}

#[test]
fn settings_rollback_failure_reports_both_errors() {
    let (tx, _) = SettingsTransaction::start();
    let (tx, _) = tx.step(Ok(()));
    let (tx, action) = tx.step(Err(AppError::Configuration("hook".to_string())));
    assert!(matches!(action, SettingsAction::Persist { forward: false }));
    let (_, action) = tx.step(Err(AppError::Io("disk".to_string())));
    match action {
        SettingsAction::Finish { result: Err(AppError::Io(message)), keep_next } => {
            assert!(!keep_next);
            assert_eq!(message, "API 設定錯誤：hook；設定與登入自啟回滾失敗：檔案錯誤：disk");
        }
        _ => panic!("rollback failure must finish with an I/O error"),
    }
}

#[test]
fn batch_fallback_requires_explicit_confirmation() {
    let mut audio = Some(vec![0.1_f32; 160]);
    assert!(take_confirmed_batch_fallback(&mut audio, false).is_none());
    assert!(audio.is_some());
    assert!(take_confirmed_batch_fallback(&mut audio, true).is_some());
    assert!(audio.is_none());
}

#[test]
fn continuous_final_preserves_target_for_next_utterance() {
    let target = WindowTarget::from_raw_for_test(44);
    let mut targets = TargetState::default();
    targets.start_recording(true, Some(target));
    assert_eq!(targets.accept_transcript(true), Some(target));
    assert_eq!(targets.accept_transcript(true), Some(target));
    assert_eq!(targets.accept_transcript(false), Some(target));
}

#[test]
fn accepted_transcript_without_preserving_releases_the_recording_target() {
    let target = WindowTarget::from_raw_for_test(55);
    let mut targets = TargetState::default();
    targets.start_recording(true, Some(target));
    assert_eq!(targets.accept_transcript(false), Some(target));
    assert_eq!(targets.accept_transcript(false), None);
}

#[test]
fn continuous_session_is_not_stopped_by_batch_recording_limit() {
    assert!(!should_stop_for_recording_limit(
        TranscriptionMode::ContinuousDictation,
        Duration::from_secs(121),
        120,
    ));
    assert!(should_stop_for_recording_limit(
        TranscriptionMode::RealtimePtt,
        Duration::from_secs(121),
        120,
    ));
}

#[test]
fn recording_limit_is_reached_exactly_at_the_maximum() {
    assert!(should_stop_for_recording_limit(TranscriptionMode::BatchPtt, Duration::from_secs(120), 120));
    assert!(!should_stop_for_recording_limit(TranscriptionMode::BatchPtt, Duration::from_millis(119_999), 120));
}

#[test]
fn hotkey_events_follow_the_recording_mode() {
    assert_eq!(hotkey_action(TranscriptionMode::ContinuousDictation, true, HotkeyEvent::Pressed), HotkeyAction::Toggle);
    assert_eq!(hotkey_action(TranscriptionMode::ContinuousDictation, true, HotkeyEvent::Released), HotkeyAction::Ignore);
    assert_eq!(hotkey_action(TranscriptionMode::BatchPtt, true, HotkeyEvent::Pressed), HotkeyAction::Start);
    assert_eq!(hotkey_action(TranscriptionMode::BatchPtt, true, HotkeyEvent::Released), HotkeyAction::Stop);
    assert_eq!(hotkey_action(TranscriptionMode::RealtimePtt, false, HotkeyEvent::Pressed), HotkeyAction::Toggle);
    assert_eq!(hotkey_action(TranscriptionMode::RealtimePtt, false, HotkeyEvent::Released), HotkeyAction::Ignore);
}

#[test]
fn job_ids_wrap_to_one() {
    assert_eq!(next_job_id(0), 1);
    assert_eq!(next_job_id(41), 42);
    assert_eq!(next_job_id(u64::MAX), 1);
}

#[test]
fn recording_status_warns_without_target() {
    assert_eq!(recording_status(TranscriptionMode::BatchPtt, true, false), "錄音中…未找到外部目標，完成後只會複製文字");
    assert_eq!(recording_status(TranscriptionMode::BatchPtt, true, true), "錄音中…放開快捷鍵即可辨識");
    assert_eq!(recording_status(TranscriptionMode::RealtimePtt, true, false), "Realtime PTT 錄音中…");
}

#[test]
fn failed_processing_delivers_the_formatted_raw_transcript() {
    let config = TextProcessingConfig {
        voice_commands_enabled: true,
        voice_commands: vec![VoiceCommand { phrase: String::new(), action: VoiceCommandAction::Discard }],
        ..TextProcessingConfig::default()
    };
    let (text, delivery, error) = transcript_for_delivery("   ", &config, false);
    assert_eq!(text, "");
    assert_eq!(delivery, DeliveryMode::Normal);
    assert!(error.expect("processing error").starts_with("文字後處理失敗，已保留原辨識文字："));

    let (text, delivery, error) = transcript_for_delivery("你 好", &TextProcessingConfig::default(), false);
    assert_eq!(text, "你好");
    assert_eq!(delivery, DeliveryMode::Normal);
    assert!(error.is_none());
}

#[test]
fn delivery_plan_pastes_only_normal_text_into_a_target() {
    let target = WindowTarget::from_raw_for_test(7);
    assert!(matches!(delivery_plan(DeliveryMode::Normal, true, Some(target)), DeliveryPlan::Inject(t) if t == target));
    assert!(matches!(delivery_plan(DeliveryMode::Normal, true, None), DeliveryPlan::CopyWithoutTarget));
    assert!(matches!(delivery_plan(DeliveryMode::Normal, false, Some(target)), DeliveryPlan::Copy));
    assert!(matches!(delivery_plan(DeliveryMode::CopyOnly, true, Some(target)), DeliveryPlan::Copy));
    assert!(matches!(delivery_plan(DeliveryMode::Discard, true, Some(target)), DeliveryPlan::Discard));
}

#[test]
fn copy_status_never_claims_a_failed_copy() {
    assert_eq!(copy_outcome_status(true, true, DeliveryMode::Normal), "未找到外部目標，文字已複製到剪貼簿");
    assert_eq!(copy_outcome_status(true, false, DeliveryMode::Normal), "沒有外部目標且複製失敗，文字保留在最近辨識文字區");
    assert_eq!(copy_outcome_status(false, false, DeliveryMode::CopyOnly), "複製失敗，文字保留在最近辨識文字區");
    assert_eq!(copy_outcome_status(false, true, DeliveryMode::CopyOnly), "語音命令已執行：文字已複製到剪貼簿");
    assert_eq!(copy_outcome_status(false, true, DeliveryMode::Normal), "已複製到剪貼簿");
}

#[test]
fn realtime_messages_are_routed_to_reactions() {
    let r = react_to_worker_message(WorkerMessage::Event(RealtimeEvent::Final("hi".to_string())), TranscriptionMode::ContinuousDictation, false);
    assert!(matches!(r, RealtimeReaction::Final { ref text, preserve_target: true } if text == "hi"));
    let r = react_to_worker_message(WorkerMessage::Event(RealtimeEvent::Final("hi".to_string())), TranscriptionMode::ContinuousDictation, true);
    assert!(matches!(r, RealtimeReaction::Final { preserve_target: false, .. }));
    let r = react_to_worker_message(WorkerMessage::Event(RealtimeEvent::Done), TranscriptionMode::RealtimePtt, true);
    assert!(matches!(r, RealtimeReaction::StoppedWithoutFinal));
    let r = react_to_worker_message(WorkerMessage::Event(RealtimeEvent::Done), TranscriptionMode::RealtimePtt, false);
    assert!(matches!(r, RealtimeReaction::Status("Realtime provider 已完成目前音訊")));
    let r = react_to_worker_message(WorkerMessage::Failed("boom".to_string()), TranscriptionMode::RealtimePtt, false);
    assert!(matches!(r, RealtimeReaction::Fail(ref e) if e == "boom"));
    let r = react_to_worker_message(WorkerMessage::Stopped, TranscriptionMode::RealtimePtt, false);
    assert!(matches!(r, RealtimeReaction::WorkerStopped));
    assert!(!preserve_target_after_final(TranscriptionMode::RealtimePtt, false));
}

#[test]
fn realtime_names_and_statuses() {
    assert_eq!(realtime_provider_name(ProviderKind::OpenAi), "OpenAI-realtime");
    assert_eq!(realtime_provider_name(ProviderKind::Xai), "xAI-realtime");
    assert_eq!(realtime_failure_status(false), "Realtime 失敗，沒有可供 Batch fallback 的完整音訊");
}

#[test]
fn keyterms_are_read_one_per_line() {
    assert_eq!(keyterms_from_lines("  alpha \n\n beta\r\n   \ngamma"), vec!["alpha", "beta", "gamma"]);
    assert!(keyterms_from_lines("").is_empty());
    assert_eq!(keyterms_to_lines(&["alpha".to_string(), "beta".to_string()]), "alpha\nbeta");
    assert_eq!(keyterms_to_lines(&[]), "");
}

#[test]
fn broken_settings_file_blocks_saving() {
    match settings_blocked_error("bad toml") {
        AppError::Configuration(m) => assert_eq!(m, "原設定檔載入失敗，為避免覆蓋已禁止儲存；請修正設定檔並重新啟動。bad toml"),
        _ => panic!("configuration error expected"),
    }
}

#[test]
fn realtime_fingerprint_detects_changes() {
    let a = AppConfig::default();
    let mut b = AppConfig::default();
    assert!(realtime_settings_fingerprint(&a).same_as(&realtime_settings_fingerprint(&b)));
    b.realtime.vad_silence_ms = 900;
    assert!(!realtime_settings_fingerprint(&a).same_as(&realtime_settings_fingerprint(&b)));
    let mut c = AppConfig::default();
    c.hotkey = "Ctrl+Alt+X".to_string();
    assert!(realtime_settings_fingerprint(&a).same_as(&realtime_settings_fingerprint(&c)));
}

#[test]
fn main_window_texts_follow_the_state() {
    assert_eq!(status_line(true, true, "x"), "🔴 錄音中");
    assert_eq!(status_line(false, true, "x"), "☁ 辨識中");
    assert_eq!(status_line(false, false, "辨識完成"), "辨識完成");
    assert_eq!(record_button_label(true, TranscriptionMode::ContinuousDictation), "停止連續聽寫");
    assert_eq!(record_button_label(false, TranscriptionMode::ContinuousDictation), "開始連續聽寫");
    assert_eq!(record_button_label(true, TranscriptionMode::BatchPtt), "停止錄音");
    assert_eq!(record_button_label(false, TranscriptionMode::RealtimePtt), "開始錄音");
    assert!(mode_description(TranscriptionMode::RealtimePtt).starts_with("Realtime PTT："));
}

#[test]
fn cancelling_is_offered_once_while_busy() {
    assert!(cancel_transcription_enabled(true, Some(false)));
    assert!(cancel_transcription_enabled(true, None));
    assert!(!cancel_transcription_enabled(true, Some(true)));
    assert!(!cancel_transcription_enabled(false, None));
}

#[test]
fn dropped_audio_is_reported_with_counts() {
    assert!(audio_drop_warnings(0, 0).is_empty());
    assert_eq!(
        audio_drop_warnings(3, 1200),
        vec!["Realtime 音訊背壓：已丟棄 3 個 callback chunks".to_string(), "錄音保留 ring 已覆寫／略過 1200 個 samples".to_string()]
    );
    assert_eq!(audio_drop_warnings(0, 7), vec!["錄音保留 ring 已覆寫／略過 7 個 samples".to_string()]);
}

#[test]
fn copy_statuses_never_claim_a_failed_copy() {
    assert_eq!(repaste_copy_status(true), "沒有原外部目標，文字已複製到剪貼簿");
    assert_eq!(repaste_copy_status(false), "沒有原外部目標且複製失敗，文字仍保留");
    assert_eq!(copy_button_status(true), "已複製到剪貼簿");
    assert_eq!(copy_button_status(false), "複製失敗，文字仍保留");
}

#[test]
fn realtime_cancel_waits_for_a_running_worker() {
    let (status, reason) = realtime_cancel_report(true, "Realtime session 已由使用者取消");
    assert_eq!(status, "正在取消 Realtime session…");
    assert_eq!(reason.as_deref(), Some("Realtime session 已由使用者取消"));
    let (status, reason) = realtime_cancel_report(false, "Realtime session 已由使用者取消");
    assert_eq!(status, "Realtime session 已由使用者取消");
    assert_eq!(reason, None);
}
