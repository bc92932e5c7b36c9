use speaktype_cloud::app::DeliveryPlan;
use speaktype_cloud::config::{ProviderKind, TextProcessingConfig, TranscriptionMode};
use speaktype_cloud::error::AppError;
use speaktype_cloud::injector::WindowTarget;
use speaktype_cloud::postprocess::DeliveryMode;
use speaktype_cloud::realtime::RealtimeEvent;
use speaktype_cloud::realtime_worker::WorkerMessage;
use speaktype_cloud::session::{
    ActiveJob, AppSession, DeliveryOutcome, RepasteOutcome, StopOutcome, WorkerFollowUp,
};
use speaktype_cloud::transcription::JobId;

fn ready() -> AppSession<String> {
    AppSession::new(None, None)
}

#[test]
fn startup_problems_are_announced() {
    let session = ready();
    assert_eq!(session.status, "就緒");
    assert_eq!(session.next_job_id, 1);
    let broken: AppSession<String> = AppSession::new(Some("bad toml".to_string()), None);
    assert_eq!(broken.status, "啟動時發生問題；請查看錯誤訊息");
    assert_eq!(broken.last_error.as_deref(), Some("bad toml"));
    let no_hotkey: AppSession<String> = AppSession::new(None, Some("busy".to_string()));
    assert_eq!(no_hotkey.status, "啟動時發生問題；請查看錯誤訊息");
    assert_eq!(no_hotkey.last_error, None);
}

#[test]
fn batch_recording_runs_one_job_and_ignores_stale_results() {
    let mut session = ready();
    assert!(session.begin_recording(false, true, None));
    session.recorder_started(TranscriptionMode::BatchPtt, true, Ok(()));
    assert!(session.recording_started);
    assert_eq!(session.status, "錄音中…未找到外部目標，完成後只會複製文字");

    let outcome = session.recorder_stopped("wav".to_string(), true, false, ProviderKind::OpenAi);
    assert!(matches!(outcome, StopOutcome::Batch(JobId(1), ref audio) if audio == "wav"));
    assert!(session.busy && !session.recording_started);
    assert_eq!(session.status, "正在使用 OpenAI 辨識…");
    assert_eq!(session.active_job, Some(ActiveJob { id: JobId(1), cancelling: false }));
    assert!(!session.begin_recording(false, true, None));

    assert_eq!(session.job_finished(JobId(7), Ok::<&str, AppError>("late")), None);
    assert!(session.busy);
    assert_eq!(session.job_finished(JobId(1), Ok::<&str, AppError>("text")), Some("text"));
    assert!(!session.busy && session.active_job.is_none());
    assert_eq!(session.next_job_id, 2);
}

#[test]
fn too_short_recording_is_reported_and_dropped() {
    let mut session = ready();
    session.begin_recording(false, true, Some(WindowTarget(9)));
    session.recorder_started(TranscriptionMode::BatchPtt, true, Ok(()));
    let outcome = session.recorder_stopped("wav".to_string(), false, false, ProviderKind::Xai);
    assert!(matches!(outcome, StopOutcome::TooShort));
    assert_eq!(session.status, "發生錯誤");
    assert_eq!(session.last_error.as_deref(), Some("錄音錯誤：錄音太短，請按住久一點"));
    assert!(session.targets.recording_target().is_none());
}

#[test]
fn recorder_failure_is_shown_and_drops_the_target() {
    let mut session = ready();
    session.begin_recording(false, true, Some(WindowTarget(9)));
    session.recorder_started(TranscriptionMode::RealtimePtt, true, Err(AppError::Audio("no device".to_string())));
    assert_eq!(session.status, "發生錯誤");
    assert_eq!(session.last_error.as_deref(), Some("錄音錯誤：no device"));
    assert!(!session.realtime_worker && !session.recording_started);
}

#[test]
fn cancelled_job_says_so_without_an_error() {
    let mut session = ready();
    let id = session.spawn_batch_transcription(ProviderKind::OpenRouter);
    assert_eq!(session.status, "正在使用 OpenRouter 辨識…");
    assert!(session.cancel_transcription());
    assert_eq!(session.status, "正在取消辨識…");
    assert_eq!(session.active_job, Some(ActiveJob { id, cancelling: true }));
    assert_eq!(session.job_finished(id, Err::<(), AppError>(AppError::Cancelled)), None);
    assert_eq!(session.status, "辨識已取消");
    assert_eq!(session.last_error, None);
    assert!(!session.cancel_transcription());
}

#[test]
fn failed_job_is_shown_as_an_error() {
    let mut session = ready();
    let id = session.spawn_batch_transcription(ProviderKind::OpenAi);
    session.job_finished(id, Err::<(), AppError>(AppError::Transcription("HTTP 500".to_string())));
    assert_eq!(session.status, "發生錯誤");
    assert_eq!(session.last_error.as_deref(), Some("語音辨識失敗：HTTP 500"));
}

#[test]
fn realtime_ptt_session_ends_after_its_final_text() {
    let mut session = ready();
    session.begin_recording(false, true, None);
    session.recorder_started(TranscriptionMode::RealtimePtt, true, Ok(()));
    assert!(session.realtime_worker);
    assert_eq!(session.status, "Realtime PTT 錄音中…");

    assert!(matches!(
        session.on_worker_message(WorkerMessage::Event(RealtimeEvent::Created), TranscriptionMode::RealtimePtt),
        WorkerFollowUp::Nothing
    ));
    assert_eq!(session.status, "Realtime session 已連線；正在接收音訊");
    session.on_worker_message(WorkerMessage::Event(RealtimeEvent::Partial("你".to_string())), TranscriptionMode::RealtimePtt);
    assert_eq!(session.partial_text, "你");

    let outcome = session.recorder_stopped("pcm".to_string(), true, true, ProviderKind::OpenAi);
    assert!(matches!(outcome, StopOutcome::FinalizeWorker));
    assert!(session.realtime_stop_requested);
    assert_eq!(session.status, "正在完成 realtime utterance…");

    let follow = session.on_worker_message(WorkerMessage::Event(RealtimeEvent::Final("你好".to_string())), TranscriptionMode::RealtimePtt);
    assert!(matches!(follow, WorkerFollowUp::Deliver { ref text, preserve_target: false } if text == "你好"));
    assert!(session.partial_text.is_empty());
    session.status = "已複製到剪貼簿".to_string();
    assert!(session.after_final(false));
    assert_eq!(session.realtime_shutdown_reason.as_deref(), Some("已複製到剪貼簿"));
    assert!(session.pending_realtime_audio.is_none() && !session.realtime_stop_requested);

    session.status = "Realtime session 已取消".to_string();
    assert!(matches!(session.on_worker_message(WorkerMessage::Stopped, TranscriptionMode::RealtimePtt), WorkerFollowUp::ReleaseWorker));
    assert!(!session.realtime_worker);
    assert_eq!(session.status, "已複製到剪貼簿");
}

#[test]
fn continuous_final_keeps_the_session_going() {
    let mut session = ready();
    session.begin_recording(false, true, Some(WindowTarget(3)));
    session.recorder_started(TranscriptionMode::ContinuousDictation, true, Ok(()));
    let follow = session.on_worker_message(
        WorkerMessage::Event(RealtimeEvent::Final("一".to_string())),
        TranscriptionMode::ContinuousDictation,
    );
    assert!(matches!(follow, WorkerFollowUp::Deliver { preserve_target: true, .. }));
    assert!(!session.after_final(true));
    assert!(session.realtime_shutdown_reason.is_none());
}

#[test]
fn realtime_done_after_stop_without_final_cancels_the_worker() {
    let mut session = ready();
    session.begin_recording(false, true, Some(WindowTarget(3)));
    session.recorder_started(TranscriptionMode::RealtimePtt, true, Ok(()));
    session.recorder_stopped("pcm".to_string(), true, true, ProviderKind::Xai);
    let follow = session.on_worker_message(WorkerMessage::Event(RealtimeEvent::Done), TranscriptionMode::RealtimePtt);
    assert!(matches!(follow, WorkerFollowUp::CancelWorker));
    assert_eq!(session.status, "Realtime session 已停止，provider 未回傳 final 文字");
    assert_eq!(session.realtime_shutdown_reason.as_deref(), Some("Realtime session 已停止，provider 未回傳 final 文字"));
    assert!(session.targets.recording_target().is_none());
}

#[test]
fn realtime_failure_offers_a_confirmed_batch_fallback() {
    let mut session = ready();
    session.begin_recording(false, true, None);
    session.recorder_started(TranscriptionMode::RealtimePtt, true, Ok(()));
    let follow = session.on_worker_message(WorkerMessage::Failed("socket closed".to_string()), TranscriptionMode::RealtimePtt);
    let error = match follow {
        WorkerFollowUp::Fail(error) => error,
        _ => panic!("a failure must be reported"),
    };
    let audio = session.realtime_audio_for_fallback(Some("pcm".to_string()));
    assert!(!session.recording_started);
    assert!(session.fail_realtime(error, audio));
    assert_eq!(session.status, "Realtime 失敗；可明確確認後改用 Batch（可能重複已出現的 partial）");
    assert_eq!(session.last_error.as_deref(), Some("socket closed"));

    let confirmed = session.confirm_batch_fallback(ProviderKind::OpenAi);
    assert_eq!(confirmed, Some((JobId(1), "pcm".to_string())));
    assert!(session.batch_fallback_audio.is_none() && session.busy);
    assert_eq!(session.confirm_batch_fallback(ProviderKind::OpenAi), None);
}

#[test]
fn realtime_without_worker_fails_with_the_stopped_audio_as_fallback() {
    let mut session = ready();
    session.begin_recording(false, true, None);
    session.recorder_started(TranscriptionMode::BatchPtt, true, Ok(()));
    let outcome = session.recorder_stopped("pcm".to_string(), true, true, ProviderKind::OpenAi);
    assert!(matches!(outcome, StopOutcome::RealtimeUnavailable));
    assert_eq!(session.batch_fallback_audio.as_deref(), Some("pcm"));
    assert_eq!(session.last_error.as_deref(), Some("Realtime session 不可用"));
    assert!(session.pending_realtime_audio.is_none());
}

#[test]
fn cancelling_realtime_drops_everything_it_kept() {
    let mut session = ready();
    session.begin_recording(false, true, Some(WindowTarget(4)));
    session.recorder_started(TranscriptionMode::ContinuousDictation, true, Ok(()));
    session.partial_text = "半句".to_string();
    assert!(session.cancel_realtime("Realtime session 已由使用者取消"));
    assert_eq!(session.status, "正在取消 Realtime session…");
    assert_eq!(session.realtime_shutdown_reason.as_deref(), Some("Realtime session 已由使用者取消"));
    assert!(session.partial_text.is_empty() && !session.recording_started);
    assert!(session.targets.recording_target().is_none());

    let mut idle = ready();
    assert!(!idle.cancel_realtime("Realtime session 已因儲存設定而停止"));
    assert_eq!(idle.status, "Realtime session 已因儲存設定而停止");
    assert!(idle.realtime_shutdown_reason.is_none());
}

#[test]
fn accepted_transcript_is_planned_for_its_window() {
    let mut session = ready();
    session.begin_recording(false, true, Some(WindowTarget(5)));
    let config = TextProcessingConfig::default();
    let plan = session.begin_accept("hello", &config, false, true, false);
    assert_eq!(plan.text, "hello");
    assert_eq!(plan.delivery, DeliveryMode::Normal);
    assert!(matches!(plan.plan, DeliveryPlan::Inject(WindowTarget(5))));
    assert_eq!(session.status, "辨識完成");
    assert_eq!(session.last_text, "hello");
    assert_eq!(session.repaste_target(), Some(Some(WindowTarget(5))));

    session.history_not_saved("disk full");
    assert_eq!(session.last_error.as_deref(), Some("歷史紀錄未保存：disk full"));
    session.delivered(DeliveryOutcome::InjectionFailed(AppError::Injection("denied".to_string()), Some(Ok(()))));
    assert_eq!(session.status, "自動貼上失敗，文字已複製到剪貼簿");
    assert_eq!(session.last_error.as_deref(), Some("歷史紀錄未保存：disk full\n文字注入失敗：denied"));
}

#[test]
fn delivery_statuses_follow_what_happened() {
    let mut session = ready();
    session.delivered(DeliveryOutcome::Injected);
    assert_eq!(session.status, "已輸入錄音開始前的外部視窗");
    session.delivered(DeliveryOutcome::InjectionFailed(AppError::Injection("x".to_string()), None));
    assert_eq!(session.status, "自動貼上失敗，文字保留在最近辨識文字區");
    assert_eq!(session.last_error.as_deref(), Some("文字注入失敗：x"));
    session.delivered(DeliveryOutcome::Copied { without_target: true, delivery: DeliveryMode::Normal, result: Ok(()) });
    assert_eq!(session.status, "未找到外部目標，文字已複製到剪貼簿");
    session.delivered(DeliveryOutcome::Copied {
        without_target: false,
        delivery: DeliveryMode::CopyOnly,
        result: Err(AppError::Injection("clipboard".to_string())),
    });
    assert_eq!(session.status, "複製失敗，文字保留在最近辨識文字區");
    assert_eq!(session.last_error.as_deref(), Some("文字注入失敗：x\n文字注入失敗：clipboard"));
}

#[test]
fn discarded_command_delivers_nothing() {
    let mut session = ready();
    let mut config = TextProcessingConfig::default();
    config.voice_commands_enabled = true;
    config.voice_commands = vec![speaktype_cloud::config::VoiceCommand {
        phrase: "取消".to_string(),
        action: speaktype_cloud::config::VoiceCommandAction::Discard,
    }];
    let plan = session.begin_accept("取消", &config, false, true, false);
    assert_eq!(plan.delivery, DeliveryMode::Discard);
    assert!(matches!(plan.plan, DeliveryPlan::Discard));
    assert_eq!(session.status, "語音命令已執行：不輸出文字");
}

#[test]
fn pasting_again_and_copying_report_their_outcome() {
    let mut session = ready();
    assert_eq!(session.repaste_target(), None);
    session.repasted(RepasteOutcome::Injected);
    assert_eq!(session.status, "已再次貼到原本的外部視窗");
    session.repasted(RepasteOutcome::Copied(Err(AppError::Injection("busy".to_string()))));
    assert_eq!(session.status, "沒有原外部目標且複製失敗，文字仍保留");
    assert_eq!(session.last_error.as_deref(), Some("文字注入失敗：busy"));
    session.repasted(RepasteOutcome::InjectionFailed(
        AppError::Injection("denied".to_string()),
        Err(AppError::Injection("busy".to_string())),
    ));
    assert_eq!(session.status, "自動貼上與備援複製皆失敗，文字保留在最近辨識文字區");
    assert_eq!(session.last_error.as_deref(), Some("文字注入失敗：denied\n備援複製失敗：文字注入失敗：busy"));
    session.copied_by_button(Ok(()));
    assert_eq!(session.status, "已複製到剪貼簿");
}

#[test]
fn settings_saving_is_blocked_after_a_broken_load() {
    let blocked: AppSession<String> = AppSession::new(Some("bad".to_string()), None);
    assert!(matches!(blocked.settings_save_blocked(), Some(AppError::Configuration(m)) if m.ends_with("bad")));
    let mut session: AppSession<String> = AppSession::new(None, Some("taken".to_string()));
    assert!(session.settings_save_blocked().is_none());
    session.settings_saved(Ok(()));
    assert_eq!(session.status, "設定已儲存");
    assert!(session.hotkey_error.is_none());
    session.settings_saved(Err(AppError::Configuration("快捷鍵需要一個主鍵".to_string())));
    assert_eq!(session.status, "發生錯誤");
}

#[test]
fn hotkey_listener_failure_leaves_the_button() {
    let mut session = ready();
    session.hotkey_listener_failed("hook stopped".to_string());
    assert_eq!(session.status, "全域快捷鍵不可用；仍可使用按鈕錄音");
    assert_eq!(session.hotkey_error.as_deref(), Some("hook stopped"));
}

#[test]
fn batch_stream_error_ends_the_recording() {
    let mut session = ready();
    session.begin_recording(false, true, None);
    session.recorder_started(TranscriptionMode::BatchPtt, false, Ok(()));
    assert_eq!(session.status, "錄音中…放開快捷鍵即可辨識");
    session.recording_failed(AppError::Audio("麥克風串流中斷：gone".to_string()));
    assert!(!session.recording_started);
    assert_eq!(session.last_error.as_deref(), Some("錄音錯誤：麥克風串流中斷：gone"));
}
