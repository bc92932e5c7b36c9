use speaktype_cloud::updater::{
    append_limited, check_staged_signer, configured_signer_cert_sha256, is_newer_version, validate_configured_fingerprint,
    validate_download_url, validate_manifest, validate_signature_report, verify_sha256, StagedUpdate, UpdateManifest,
};
use speaktype_cloud::url::UrlParts;
use sha2::{Digest, Sha256};

fn manifest(url: &str, sha256: &str) -> UpdateManifest {
    UpdateManifest {
        schema_version: 1,
        version: "1.2.3".to_string(),
        installer_url: url.to_string(),
        sha256: sha256.to_string(),
    }
}

#[test]
fn accepts_only_this_projects_https_release_url() {
    let valid = manifest(
        "https://github.com/stevenke1981/SpeakType-Cloud/releases/download/v1.2.3/SpeakTypeCloud-Setup-1.2.3.exe",
        &"a".repeat(64),
    );
    assert!(validate_manifest(&valid).is_ok());

    for url in [
        "http://github.com/stevenke1981/SpeakType-Cloud/releases/download/v1.2.3/a.exe",
        "https://example.com/stevenke1981/SpeakType-Cloud/releases/download/v1.2.3/a.exe",
        "https://github.com/attacker/project/releases/download/v1.2.3/a.exe",
    ] {
        assert!(validate_manifest(&manifest(url, &"a".repeat(64))).is_err());
    }
}

#[test]
fn rejects_checksum_mismatch() {
    assert!(verify_sha256(b"installer", &"0".repeat(64)).is_err());
    let expected = format!("{:x}", Sha256::digest(b"installer"));
    assert!(verify_sha256(b"installer", &expected).is_ok());
    assert!(verify_sha256(b"installer", &expected.to_uppercase()).is_ok());
    assert!(verify_sha256(b"", "e3b0c44298fc1c149afbf4c8996fb92427ae41e4649b934ca495991b7852b855").is_ok());
    assert!(verify_sha256(b"", "E3B0C44298FC1C149AFBF4C8996FB92427AE41E4649B934CA495991B7852B855").is_ok());
}

#[test]
fn rejects_unknown_schema_or_invalid_hash() {
    let mut value = manifest(
        "https://github.com/stevenke1981/SpeakType-Cloud/releases/download/v1.2.3/a.exe",
        "not-a-hash",
    );
    assert!(validate_manifest(&value).is_err());
    value.sha256 = "a".repeat(64);
    value.schema_version = 2;
    assert!(validate_manifest(&value).is_err());
}

#[test]
fn updater_requires_a_valid_compile_time_signer_pin() {
    assert!(validate_configured_fingerprint(None).is_err());
    assert!(validate_configured_fingerprint(Some("abc")).is_err());
    assert_eq!(
        validate_configured_fingerprint(Some(&"A".repeat(64))).expect("valid fingerprint"),
        "a".repeat(64)
    );
    assert_eq!(configured_signer_cert_sha256(Some(&"B".repeat(64))).expect("pin"), "b".repeat(64));
    assert!(configured_signer_cert_sha256(Some("   ")).is_err());
}

#[test]
fn authenticode_report_rejects_unsigned_invalid_or_wrong_signer() {
    let expected = "a".repeat(64);
    assert!(validate_signature_report("Unsigned", &expected).is_err());
    assert!(validate_signature_report("Invalid:HashMismatch", &expected).is_err());
    assert!(
        validate_signature_report(&format!("Valid:{}", "b".repeat(64)), &expected).is_err()
    );
    assert!(validate_signature_report(&format!("Valid:{expected}"), &expected).is_ok());
}

#[test]
fn chunked_download_aborts_as_soon_as_limit_is_exceeded() {
    let mut bytes = Vec::new();
    let mut polled = 0;
    let mut result = Ok(());
    for chunk in [vec![1_u8; 3], vec![2_u8; 3], vec![3_u8; 3]] {
        polled += 1;
        result = append_limited(&mut bytes, &chunk, 5);
        if result.is_err() {
            break;
        }
    }
    assert!(result.is_err());
    assert_eq!(polled, 2);
    assert_eq!(bytes, vec![1, 1, 1]);
}

#[test]
fn newer_versions_are_detected_by_semantic_order() {
    assert_eq!(is_newer_version("1.2.3", "1.10.0"), Ok(true));
    assert_eq!(is_newer_version("1.2.3", "1.2.3"), Ok(false));
    assert_eq!(is_newer_version("1.2.3", "1.2.3-beta"), Ok(false));
    assert!(is_newer_version("1.2.3", "one").is_err());
}

#[test]
fn staged_update_must_keep_the_same_signer() {
    let staged = StagedUpdate {
        version: "1.2.3".to_string(),
        installer_path: std::path::PathBuf::from("SpeakTypeCloud-test.exe"),
        signer_cert_sha256: "a".repeat(64),
        expected_sha256: "a".repeat(64),
    };
    assert!(check_staged_signer(&"a".repeat(64), &staged).is_ok());
    assert!(check_staged_signer(&"b".repeat(64), &staged).is_err());
}

#[test]
fn redirects_must_stay_on_https_github() {
    let url = UrlParts {
        scheme: "https".to_string(),
        host: Some("github.com".to_string()),
        path: "/stevenke1981/SpeakType-Cloud/releases/download/v1/a.exe".to_string(),
    };
    assert!(validate_download_url(&url, true).is_ok());
    let asset = UrlParts { host: Some("objects.githubusercontent.com".to_string()), ..url.clone() };
    assert!(validate_download_url(&asset, false).is_ok());
    assert_eq!(validate_download_url(&asset, true).err().as_deref(), Some("安裝程式必須來自本專案的 GitHub Release"));
    let other = UrlParts { host: Some("evil.example".to_string()), ..url.clone() };
    assert_eq!(validate_download_url(&other, false).err().as_deref(), Some("更新來源不在允許清單：evil.example"));
    let plain = UrlParts { scheme: "http".to_string(), ..url };
    assert_eq!(validate_download_url(&plain, false).err().as_deref(), Some("更新只能使用 HTTPS"));
}
