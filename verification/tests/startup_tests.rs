use speaktype_cloud::config::AppConfig;
use speaktype_cloud::error::{AppError, AppResult};
use speaktype_cloud::startup::{
    persist_with_stores, quote_command_text, quote_executable_command, registry_outcome, set_launch_at_login,
    set_launch_at_login_unsupported,
    LaunchAtLoginStore, LaunchRegistryChange, RegistryStatus, SettingsStore,
};
use std::cell::{Cell, RefCell};
use std::path::Path;

#[derive(Default)]
struct MemorySettingsStore {
    writes: RefCell<Vec<bool>>,
    fail_next: Cell<bool>,
}

impl SettingsStore for MemorySettingsStore {
    fn save(&self, config: &AppConfig) -> AppResult<()> {
        self.writes.borrow_mut().push(config.launch_at_login);
        if self.fail_next.replace(false) {
            Err(AppError::Io("injected config write failure".to_string()))
        } else {
            Ok(())
        }
    }
}

#[derive(Default)]
struct MemoryLaunchStore {
    writes: RefCell<Vec<bool>>,
    fail: Cell<bool>,
}

impl LaunchAtLoginStore for MemoryLaunchStore {
    fn set_enabled(&self, enabled: bool) -> AppResult<()> {
        self.writes.borrow_mut().push(enabled);
        if self.fail.get() {
            Err(AppError::Io("injected registry failure".to_string()))
        } else {
            Ok(())
        }
    }
}

#[test]
fn executable_path_is_quoted_for_hkcu_run() {
    let command = quote_executable_command(Path::new(
        r"C:\Program Files\SpeakType Cloud\speaktype-cloud.exe",
    ))
    .expect("quote executable path");

    assert_eq!(
        command,
        r#""C:\Program Files\SpeakType Cloud\speaktype-cloud.exe""#
    );
}

#[test]
fn executable_path_with_quote_is_rejected() {
    assert!(quote_executable_command(Path::new(r#"C:\bad"path\app.exe"#)).is_err());
}

#[test]
fn empty_executable_path_is_rejected() {
    assert!(quote_command_text("").is_err());
}

#[test]
fn config_failure_does_not_change_launch_registry() {
    let previous = AppConfig::default();
    let mut next = previous.clone();
    next.launch_at_login = true;
    let settings = MemorySettingsStore {
        fail_next: Cell::new(true),
        ..MemorySettingsStore::default()
    };
    let launch = MemoryLaunchStore::default();

    assert!(persist_with_stores(&previous, &next, &settings, &launch).is_err());
    assert_eq!(&*settings.writes.borrow(), &[true]);
    assert!(launch.writes.borrow().is_empty());
}

#[test]
fn registry_failure_rolls_config_back_to_previous_value() {
    let previous = AppConfig::default();
    let mut next = previous.clone();
    next.launch_at_login = true;
    let settings = MemorySettingsStore::default();
    let launch = MemoryLaunchStore {
        fail: Cell::new(true),
        ..MemoryLaunchStore::default()
    };

    assert!(persist_with_stores(&previous, &next, &settings, &launch).is_err());
    assert_eq!(&*settings.writes.borrow(), &[true, false]);
    assert_eq!(&*launch.writes.borrow(), &[true]);
}

#[test]
fn unchanged_launch_setting_only_saves_the_settings() {
    let previous = AppConfig::default();
    let next = previous.clone();
    let settings = MemorySettingsStore::default();
    let launch = MemoryLaunchStore::default();
    assert!(persist_with_stores(&previous, &next, &settings, &launch).is_ok());
    assert_eq!(&*settings.writes.borrow(), &[false]);
    assert!(launch.writes.borrow().is_empty());
}

#[test]
fn launch_at_login_writes_or_deletes_the_run_value() {
    assert!(matches!(set_launch_at_login(false, Err("unused".to_string())), Ok(LaunchRegistryChange::DeleteRunValue)));
    match set_launch_at_login(true, Ok(Path::new(r"C:\app.exe"))) {
        Ok(LaunchRegistryChange::SetRunValue(command)) => assert_eq!(command, r#""C:\app.exe""#),
        _ => panic!("enabling must write the run value"),
    }
    match set_launch_at_login(true, Err("not found".to_string())) {
        Err(AppError::Io(m)) => assert_eq!(m, "無法取得目前程式路徑：not found"),
        _ => panic!("missing executable must fail"),
    }
}

#[test]
fn registry_answers_are_judged() {
    assert!(registry_outcome(true, RegistryStatus::Success).is_ok());
    assert!(registry_outcome(false, RegistryStatus::Failure { not_found: true, description: "gone".to_string() }).is_ok());
    match registry_outcome(true, RegistryStatus::Failure { not_found: true, description: "gone".to_string() }) {
        Err(AppError::Io(m)) => assert_eq!(m, "無法啟用 Windows 登入自動啟動：gone"),
        _ => panic!("enabling failure must be reported"),
    }
    match registry_outcome(false, RegistryStatus::Failure { not_found: false, description: "denied".to_string() }) {
        Err(AppError::Io(m)) => assert_eq!(m, "無法停用 Windows 登入自動啟動：denied"),
        _ => panic!("disabling failure must be reported"),
    }
}

#[test]
fn the_run_value_quotes_the_given_executable() {
    match set_launch_at_login(true, Ok(Path::new(r"D:\Tools\speak.exe"))) {
        Ok(LaunchRegistryChange::SetRunValue(command)) => assert_eq!(command, r#""D:\Tools\speak.exe""#),
        _ => panic!("enabling must write the run value"),
    }
    match set_launch_at_login(true, Ok(Path::new(r#"C:\bad"path\app.exe"#))) {
        Err(AppError::Configuration(m)) => assert_eq!(m, "程式路徑無法安全寫入登入啟動設定"),
        _ => panic!("a quote in the path must be refused"),
    }
}

#[test]
fn launch_at_login_is_refused_without_a_run_key() {
    assert!(set_launch_at_login_unsupported(false).is_ok());
    match set_launch_at_login_unsupported(true) {
        Err(AppError::Configuration(m)) => assert_eq!(m, "登入自動啟動目前僅支援 Windows"),
        _ => panic!("enabling must be refused"),
    }
}
