use speaktype_cloud::error::{AppError, AppResult};
use speaktype_cloud::secrets::{
    credential_secret, credential_target, legacy_migration_allowed, normalized_api_key, registry_value_text,
    usable_secret, HydrateAction, HydrateEvent, Hydration,
};
use speaktype_cloud::utf16::wide;

#[derive(Default)]
struct MemorySecretStore {
    secret: Option<String>,
    legacy: Option<String>,
    fail_write: bool,
    legacy_reads: usize,
}

/// Runs the loading of one key against an in-memory store, with `process`
/// standing for the variable in the process environment.
fn hydrate_key_with_store(store: &mut MemorySecretStore, process: &mut Option<String>, migrate: bool) -> AppResult<()> {
    let (mut job, mut action) = Hydration::start(migrate);
    loop {
        let event = match action {
            HydrateAction::Finish(result) => return result,
            HydrateAction::ReadStored => HydrateEvent::Stored(Ok(store.secret.clone())),
            HydrateAction::ReadLegacy => {
                store.legacy_reads += 1;
                HydrateEvent::Legacy(Ok(store.legacy.clone()))
            }
            HydrateAction::WriteStored(key) => {
                if store.fail_write {
                    HydrateEvent::Written(Err(AppError::Io("injected credential write failure".to_string())))
                } else {
                    store.secret = Some(key);
                    HydrateEvent::Written(Ok(()))
                }
            }
            HydrateAction::CheckProcess => {
                HydrateEvent::ProcessConfigured(process.as_deref().is_some_and(|value| !value.trim().is_empty()))
            }
            HydrateAction::ExportToProcess(key) => {
                *process = Some(key);
                HydrateEvent::Exported
            }
        };
        assert!(job.accepts(&event));
        let (next, next_action) = job.step(event);
        job = next;
        action = next_action;
    }
}

#[test]
fn standard_key_is_imported_without_changing_external_legacy_value() {
    assert!(legacy_migration_allowed("OPENAI_API_KEY"));
    assert!(legacy_migration_allowed("XAI_API_KEY"));
    let mut store = MemorySecretStore {
        secret: None,
        legacy: Some("legacy-test-secret".to_string()),
        ..MemorySecretStore::default()
    };
    let mut process = None;

    hydrate_key_with_store(&mut store, &mut process, true).expect("migrate legacy secret");

    assert_eq!(store.secret.as_deref(), Some("legacy-test-secret"));
    assert_eq!(store.legacy.as_deref(), Some("legacy-test-secret"));
    assert_eq!(process.as_deref(), Some("legacy-test-secret"));
}

#[test]
fn explicit_process_environment_secret_has_priority() {
    let mut store = MemorySecretStore {
        secret: Some("stored-test-secret".to_string()),
        legacy: None,
        ..MemorySecretStore::default()
    };
    let mut process = Some("process-test-secret".to_string());

    hydrate_key_with_store(&mut store, &mut process, false).expect("hydrate secret");

    assert_eq!(process.as_deref(), Some("process-test-secret"));
}

#[test]
fn path_never_reads_or_deletes_legacy_registry_value() {
    let mut store = MemorySecretStore {
        legacy: Some("must-not-touch".to_string()),
        ..MemorySecretStore::default()
    };
    let mut process = None;

    hydrate_key_with_store(&mut store, &mut process, legacy_migration_allowed("PATH"))
        .expect("hydrate custom credential name");

    assert_eq!(store.legacy_reads, 0);
    assert_eq!(store.legacy.as_deref(), Some("must-not-touch"));
}

#[test]
fn empty_credential_is_replaced_without_changing_legacy_value() {
    let mut store = MemorySecretStore {
        secret: Some("   ".to_string()),
        legacy: Some("legacy-test-secret".to_string()),
        ..MemorySecretStore::default()
    };
    let mut process = None;

    hydrate_key_with_store(&mut store, &mut process, true).expect("replace empty credential");

    assert_eq!(store.secret.as_deref(), Some("legacy-test-secret"));
    assert_eq!(store.legacy.as_deref(), Some("legacy-test-secret"));
}

#[test]
fn credential_write_failure_keeps_legacy_value() {
    let mut store = MemorySecretStore {
        legacy: Some("legacy-test-secret".to_string()),
        fail_write: true,
        ..MemorySecretStore::default()
    };
    let mut process = None;

    assert!(hydrate_key_with_store(&mut store, &mut process, true).is_err());
    assert_eq!(store.legacy.as_deref(), Some("legacy-test-secret"));
    assert_eq!(process, None);
}

#[test]
fn stored_credential_is_not_overwritten_by_migration() {
    let mut store = MemorySecretStore {
        secret: Some("stored".to_string()),
        legacy: Some("legacy".to_string()),
        ..MemorySecretStore::default()
    };
    let mut process = Some("  ".to_string());

    hydrate_key_with_store(&mut store, &mut process, true).expect("hydrate");

    assert_eq!(store.secret.as_deref(), Some("stored"));
    assert_eq!(process.as_deref(), Some("stored"));
}

#[test]
fn blank_values_do_not_count_as_keys() {
    assert_eq!(usable_secret(Some(" \t".to_string())), None);
    assert_eq!(usable_secret(Some("k".to_string())).as_deref(), Some("k"));
    assert_eq!(usable_secret(None), None);
}

#[test]
fn saved_keys_are_trimmed_and_not_empty() {
    assert_eq!(normalized_api_key("  sk-1 \n").expect("key"), "sk-1");
    match normalized_api_key("   ") {
        Err(AppError::Configuration(m)) => assert_eq!(m, "API Key 不可為空"),
        _ => panic!("blank key must be refused"),
    }
    assert_eq!(credential_target("OPENAI_API_KEY"), "SpeakTypeCloud:OPENAI_API_KEY");
}

#[test]
fn credential_bytes_must_be_utf8() {
    assert_eq!(credential_secret("金鑰-1".as_bytes().to_vec()).expect("utf-8").as_deref(), Some("金鑰-1"));
    match credential_secret(vec![0xff, 0xfe]) {
        Err(AppError::Io(m)) => assert_eq!(m, "Windows Credential Manager 內的 API Key 編碼無效"),
        _ => panic!("invalid bytes must be refused"),
    }
}

#[test]
fn registry_text_drops_units_past_the_byte_count_and_trailing_nuls() {
    let mut data: Vec<u16> = "sk-測試".encode_utf16().collect();
    data.push(0);
    data.push(0x41);
    let byte_count = (2 * (data.len() - 1)) as u32;
    assert_eq!(registry_value_text("XAI_API_KEY", &data, byte_count).expect("text"), "sk-測試");
    assert_eq!(registry_value_text("XAI_API_KEY", &data, 1000).expect("text"), "sk-測試\u{0}A");
    assert_eq!(registry_value_text("XAI_API_KEY", &data, 0).expect("text"), "");
    let emoji: Vec<u16> = "😀".encode_utf16().collect();
    assert_eq!(registry_value_text("X", &emoji, 4).expect("pair"), "😀");
    match registry_value_text("XAI_API_KEY", &[0xD800, 0x41], 4) {
        Err(AppError::Io(m)) => assert!(m.starts_with("環境變數 XAI_API_KEY 不是有效的 Unicode：")),
        _ => panic!("a lone surrogate must be refused"),
    }
}

#[test]
fn wide_strings_are_utf16_with_a_terminating_nul() {
    assert_eq!(wide("Run"), vec![0x52, 0x75, 0x6E, 0]);
    let mut expected: Vec<u16> = "登入😀".encode_utf16().collect();
    expected.push(0);
    assert_eq!(wide("登入😀"), expected);
}
