use speaktype_cloud::config::AppConfig;
use speaktype_cloud::error::AppError;
use speaktype_cloud::shell::{
    append_warning, begin_update_check, configured_badge, launch_outcome, begin_update_stage, close_decision, drain_tray_actions, fetch_report,
    hidden_ext_style, update_state_after, ModelCatalog, ModelsFetchResult, UpdateWorkerResult, WindowFlags, is_main_window, key_action_message,
    key_action_request, rect_after_restore, remember_visible_rect, should_backup_repaint, shown_ext_style,
    tray_icon_rgba, update_action_allowed, CloseDecision, KeyAction, ProviderKey, SavedRect, TrayAction,
    UpdateActionKind, UpdateState, WS_EX_APPWINDOW, WS_EX_TOOLWINDOW,
};
use speaktype_cloud::updater::{StagedUpdate, UpdateManifest};

#[test]
fn window_close_hides_when_tray_is_available() {
    assert_eq!(close_decision(true, false), CloseDecision::Hide);
}

#[test]
fn explicit_exit_or_missing_tray_allows_close() {
    assert_eq!(close_decision(true, true), CloseDecision::Exit);
    assert_eq!(close_decision(false, false), CloseDecision::Exit);
}

#[test]
fn close_decision_respects_exit_requested_with_tray() {
    assert_eq!(close_decision(true, true), CloseDecision::Exit);
}

#[test]
fn close_decision_hides_when_no_exit_and_tray_available() {
    assert_eq!(close_decision(true, false), CloseDecision::Hide);
}

#[test]
fn drain_tray_actions_prefers_exit_over_show() {
    assert_eq!(
        drain_tray_actions(&[TrayAction::Show, TrayAction::Exit, TrayAction::Show]),
        Some(TrayAction::Exit)
    );
    assert_eq!(
        drain_tray_actions(&[TrayAction::Show, TrayAction::Show]),
        Some(TrayAction::Show)
    );
    assert_eq!(drain_tray_actions(&[]), None);
}

#[test]
fn key_action_enum_is_constructable() {
    let actions = [
        KeyAction::Save(ProviderKey::OpenAi),
        KeyAction::Save(ProviderKey::Xai),
        KeyAction::Save(ProviderKey::OpenRouter),
        KeyAction::Clear(ProviderKey::OpenAi),
        KeyAction::Clear(ProviderKey::Xai),
        KeyAction::Clear(ProviderKey::OpenRouter),
    ];
    assert_eq!(actions.len(), 6);
}

#[test]
fn backup_repaint_covers_hidden_and_pending_exit() {
    assert!(!should_backup_repaint(false, false));
    assert!(should_backup_repaint(true, false));
    assert!(should_backup_repaint(false, true));
    assert!(should_backup_repaint(true, true));
}

#[test]
fn exit_in_drain_actions_always_takes_priority() {
    let actions = vec![TrayAction::Show, TrayAction::Show, TrayAction::Exit];
    assert_eq!(drain_tray_actions(&actions), Some(TrayAction::Exit));

    assert_eq!(
        drain_tray_actions(&[TrayAction::Exit]),
        Some(TrayAction::Exit)
    );
}

#[test]
fn updater_requires_check_stage_and_launch_confirmations_in_order() {
    assert!(update_action_allowed(
        &UpdateState::Idle,
        UpdateActionKind::Check
    ));
    assert!(!update_action_allowed(
        &UpdateState::Idle,
        UpdateActionKind::Stage
    ));
    let available = UpdateState::Available(UpdateManifest {
        schema_version: 1,
        version: "1.2.3".to_string(),
        installer_url:
            "https://github.com/stevenke1981/SpeakType-Cloud/releases/download/v1.2.3/a.exe"
                .to_string(),
        sha256: "a".repeat(64),
    });
    assert!(update_action_allowed(&available, UpdateActionKind::Stage));
    assert!(!update_action_allowed(&available, UpdateActionKind::Launch));
    let staged = UpdateState::Staged(StagedUpdate {
        version: "1.2.3".to_string(),
        installer_path: std::path::PathBuf::from("SpeakTypeCloud-test.exe"),
        signer_cert_sha256: "a".repeat(64),
        expected_sha256: "a".repeat(64),
    });
    assert!(update_action_allowed(&staged, UpdateActionKind::Launch));
    assert!(!update_action_allowed(&staged, UpdateActionKind::Check));
    let disabled = UpdateState::Disabled("missing trust root".to_string());
    assert!(!update_action_allowed(&disabled, UpdateActionKind::Check));
    assert!(!update_action_allowed(&disabled, UpdateActionKind::Stage));
    assert!(!update_action_allowed(&disabled, UpdateActionKind::Launch));
}

#[test]
fn warnings_are_appended_on_new_lines() {
    let mut current = None;
    append_warning(&mut current, "first");
    append_warning(&mut current, "second");
    assert_eq!(current.as_deref(), Some("first\nsecond"));
}

#[test]
fn key_actions_check_the_variable_name_and_trim_the_key() {
    let mut config = AppConfig::default();
    let request = key_action_request(KeyAction::Save(ProviderKey::Xai), &config, "  secret \n").ok().expect("request");
    assert_eq!(request.provider_name, "xAI");
    assert_eq!(request.env_name, "XAI_API_KEY");
    assert_eq!(request.key.as_deref(), Some("secret"));
    let request = key_action_request(KeyAction::Clear(ProviderKey::OpenAi), &config, "ignored").ok().expect("request");
    assert!(request.key.is_none());
    config.openrouter.api_key_env = "bad-name".to_string();
    let message = key_action_request(KeyAction::Save(ProviderKey::OpenRouter), &config, "k").err().expect("rejected");
    assert!(!message.success);
    assert!(message.text.starts_with("OpenRouter 環境變數名稱「bad-name」不合法"));
}

#[test]
fn key_action_messages_report_the_outcome() {
    let ok = key_action_message(KeyAction::Save(ProviderKey::OpenAi), "OpenAI", Ok(()));
    assert!(ok.success);
    assert_eq!(ok.text, "OpenAI API Key 已儲存。");
    let cleared = key_action_message(KeyAction::Clear(ProviderKey::Xai), "xAI", Ok(()));
    assert_eq!(cleared.text, "xAI API Key 已清除。");
    let failed = key_action_message(KeyAction::Save(ProviderKey::Xai), "xAI", Err(AppError::Io("denied".to_string())));
    assert!(!failed.success);
    assert_eq!(failed.text, "檔案錯誤：denied");
}

#[test]
fn main_window_is_this_process_visible_window_with_the_product_title() {
    let title: Vec<u16> = "SpeakType Cloud".encode_utf16().collect();
    assert!(is_main_window(7, 7, true, &title));
    assert!(!is_main_window(8, 7, true, &title));
    assert!(!is_main_window(7, 7, false, &title));
    let helper: Vec<u16> = "SpeakType Cloud helper".encode_utf16().collect();
    assert!(!is_main_window(7, 7, true, &helper));
    assert!(!is_main_window(7, 7, true, &[]));
}

#[test]
fn taskbar_styles_swap_only_the_two_taskbar_bits() {
    let style: isize = 0x0100 | WS_EX_APPWINDOW;
    let hidden = hidden_ext_style(style);
    assert_eq!(hidden, 0x0100 | WS_EX_TOOLWINDOW);
    assert_eq!(hidden_ext_style(hidden), hidden);
    let shown = shown_ext_style(hidden);
    assert_eq!(shown, style);
    assert_eq!(shown_ext_style(shown), shown);
}

#[test]
fn hiding_twice_keeps_the_first_visible_rectangle() {
    let mut saved = None;
    remember_visible_rect(&mut saved, Some((100, 50, 900, 650)));
    assert_eq!(saved, Some(SavedRect { x: 100, y: 50, width: 800, height: 600 }));
    remember_visible_rect(&mut saved, Some((-32000, -32000, -31200, -31400)));
    assert_eq!(saved, Some(SavedRect { x: 100, y: 50, width: 800, height: 600 }));
    let mut unread = None;
    remember_visible_rect(&mut unread, None);
    assert_eq!(unread, None);
}

#[test]
fn failed_restore_keeps_the_rectangle_for_a_retry() {
    let rect = SavedRect { x: 1, y: 2, width: 3, height: 4 };
    assert_eq!(rect_after_restore(rect, false), Some(rect));
    assert_eq!(rect_after_restore(rect, true), None);
}

#[test]
fn tray_icon_is_a_blue_badge_with_a_white_waveform() {
    let rgba = tray_icon_rgba();
    assert_eq!(rgba.len(), 32 * 32 * 4);
    let pixel = |x: usize, y: usize| &rgba[4 * (32 * y + x)..4 * (32 * y + x) + 4];
    assert_eq!(pixel(0, 0), &[0, 0, 0, 0]);
    assert_eq!(pixel(16, 16), &[255, 255, 255, 255]);
    assert_eq!(pixel(16, 5), &[42, 110, 242, 255]);
    assert_eq!(pixel(12, 9), &[255, 255, 255, 255]);
    assert_eq!(pixel(12, 8), &[42, 110, 242, 255]);
    assert_eq!(pixel(20, 22), &[255, 255, 255, 255]);
    assert_eq!(pixel(31, 16), &[0, 0, 0, 0]);
    assert_eq!(pixel(30, 16), &[42, 110, 242, 255]);
}

fn sample_manifest() -> UpdateManifest {
    UpdateManifest {
        schema_version: 1,
        version: "1.2.3".to_string(),
        installer_url: "https://github.com/stevenke1981/SpeakType-Cloud/releases/download/v1.2.3/a.exe".to_string(),
        sha256: "a".repeat(64),
    }
}

#[test]
fn update_worker_reports_move_the_update_state() {
    assert!(matches!(update_state_after(UpdateWorkerResult::Checked(Ok(None))), UpdateState::UpToDate));
    assert!(matches!(
        update_state_after(UpdateWorkerResult::Checked(Ok(Some(sample_manifest())))),
        UpdateState::Available(m) if m.version == "1.2.3"
    ));
    assert!(matches!(
        update_state_after(UpdateWorkerResult::Staged(Err("boom".to_string()))),
        UpdateState::Error(e) if e == "boom"
    ));
    let staged = StagedUpdate {
        version: "1.2.3".to_string(),
        installer_path: std::path::PathBuf::from("setup.exe"),
        signer_cert_sha256: "b".repeat(64),
        expected_sha256: "a".repeat(64),
    };
    assert!(matches!(update_state_after(UpdateWorkerResult::Staged(Ok(staged))), UpdateState::Staged(_)));
}

#[test]
fn update_steps_start_only_from_their_states() {
    let mut state = UpdateState::Idle;
    assert!(begin_update_check(&mut state));
    assert!(matches!(state, UpdateState::Checking));
    assert!(!begin_update_check(&mut state));
    assert!(!begin_update_stage(&mut state, sample_manifest()));
    assert!(matches!(state, UpdateState::Checking));
    let mut available = UpdateState::Available(sample_manifest());
    assert!(begin_update_stage(&mut available, sample_manifest()));
    assert!(matches!(available, UpdateState::Staging(_)));
}

#[test]
fn model_catalog_fetch_round_trip() {
    let config = AppConfig::default();
    let mut catalog = ModelCatalog::default();
    assert!(catalog.fetch_source(ProviderKey::Xai, &config).is_none());
    let source = catalog.fetch_source(ProviderKey::OpenAi, &config).expect("openai source");
    assert_eq!(source.env_name, config.openai.api_key_env);
    assert_eq!(source.base_url, config.openai.base_url);

    assert_eq!(catalog.begin_fetch(&source, None), None);
    assert_eq!(catalog.error.as_deref(), Some(format!("找不到 {}，請先設定該供應商的 API Key", source.env_name).as_str()));
    assert!(!catalog.loading);

    assert_eq!(catalog.begin_fetch(&source, Some("sk".to_string())).as_deref(), Some("sk"));
    assert!(catalog.loading && catalog.error.is_none());
    assert!(catalog.fetch_source(ProviderKey::OpenRouter, &config).is_none());

    catalog.finish_fetch(ModelsFetchResult::OpenAi(vec!["gpt-4o-transcribe".to_string()]));
    assert!(!catalog.loading);
    assert_eq!(catalog.openai_models, vec!["gpt-4o-transcribe".to_string()]);
    catalog.finish_fetch(ModelsFetchResult::Error("HTTP 401".to_string()));
    assert_eq!(catalog.error.as_deref(), Some("HTTP 401"));
    assert_eq!(catalog.openai_models.len(), 1);
}

#[test]
fn fetch_reports_are_tagged_with_their_provider() {
    assert!(matches!(fetch_report(ProviderKey::OpenRouter, Ok(vec![])), Some(ModelsFetchResult::OpenRouter(v)) if v.is_empty()));
    assert!(fetch_report(ProviderKey::Xai, Ok(vec!["x".to_string()])).is_none());
    assert!(matches!(fetch_report(ProviderKey::Xai, Err("e".to_string())), Some(ModelsFetchResult::Error(e)) if e == "e"));
}

#[test]
fn window_flags_follow_tray_and_exit_requests() {
    let mut flags = WindowFlags { window_hidden: false, exit_requested: false };
    assert_eq!(flags.close_requested(true), CloseDecision::Hide);
    assert!(flags.window_hidden);
    flags.show_from_tray();
    assert!(!flags.window_hidden);
    flags.hide_to_tray();
    flags.request_exit();
    assert!(flags.exit_requested && !flags.window_hidden);
    assert_eq!(flags.close_requested(true), CloseDecision::Exit);
    let mut no_tray = WindowFlags { window_hidden: false, exit_requested: false };
    assert_eq!(no_tray.close_requested(false), CloseDecision::Exit);
    assert!(!no_tray.window_hidden);
}

#[test]
fn installer_launch_result_sets_the_update_state() {
    assert!(matches!(launch_outcome(Ok(())), UpdateState::Launched));
    assert!(matches!(launch_outcome(Err("無法啟動安裝精靈".to_string())), UpdateState::Error(e) if e == "無法啟動安裝精靈"));
}

#[test]
fn key_badges_show_whether_a_key_is_set() {
    assert_eq!(configured_badge(true), ("● 已設定", speaktype_cloud::theme::colors::GREEN_SUCCESS));
    assert_eq!(configured_badge(false), ("○ 尚未設定", speaktype_cloud::theme::colors::TEXT_SECONDARY));
}

#[test]
fn a_new_provider_drops_the_old_model_error() {
    let mut catalog = ModelCatalog::default();
    let mut last_seen = None;
    catalog.error = Some("HTTP 401".to_string());
    catalog.observe_provider(&mut last_seen, speaktype_cloud::config::ProviderKind::OpenAi);
    assert_eq!(catalog.error.as_deref(), Some("HTTP 401"));
    catalog.observe_provider(&mut last_seen, speaktype_cloud::config::ProviderKind::OpenAi);
    assert_eq!(catalog.error.as_deref(), Some("HTTP 401"));
    catalog.observe_provider(&mut last_seen, speaktype_cloud::config::ProviderKind::OpenRouter);
    assert_eq!(catalog.error, None);
    assert_eq!(last_seen, Some(speaktype_cloud::config::ProviderKind::OpenRouter));
}
