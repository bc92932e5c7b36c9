//! Update supply chain: the signer pin, the manifest, the download sources,
//! the size limit, the checksum and the signature report.
use vstd::prelude::*;
use vstd::string::StringExecFns;
use std::path::PathBuf;
use sha2::Digest;
use crate::chars::{
    all_hex, all_hex_exec, chars_of, ends_with, ends_with_exec, eq_ignore_ascii_case,
    eq_ignore_case, lower_seq, lowered, push_chars, push_str, seq_eq, slice_chars, starts_with,
    starts_with_exec, string_from_chars, trim, trim_chars,
};
use crate::url::{parse_url, parsed_url, url_parts_view, UrlParts};

verus! {

#[verifier::external_type_specification]
#[verifier::external_body]
pub struct ExPathBuf(PathBuf);

pub const RELEASE_PATH_PREFIX: &'static str = "/stevenke1981/SpeakType-Cloud/releases/download/";

pub const MAX_MANIFEST_BYTES: usize = 65536;

pub const MAX_INSTALLER_BYTES: usize = 268435456;

pub struct UpdateManifest {
    pub schema_version: u32,
    pub version: String,
    pub installer_url: String,
    pub sha256: String,
}

pub struct StagedUpdate {
    pub version: String,
    pub installer_path: PathBuf,
    pub signer_cert_sha256: String,
    pub expected_sha256: String,
}

// ---------------------------------------------------------------------------
// Signer pin and signature report
// ---------------------------------------------------------------------------

/// What the build-time signer pin gives: the pin in lower case, or why
/// automatic updates are off.
pub open spec fn fingerprint_spec(value: Option<Seq<char>>) -> Result<Seq<char>, Seq<char>> {
    match value {
        None => Err("此版本未設定更新簽章信任根；請前往 GitHub Releases 手動更新"@),
        Some(v) => {
            let t = trim(v);
            if t.len() == 0 {
                Err("此版本未設定更新簽章信任根；請前往 GitHub Releases 手動更新"@)
            } else if t.len() != 64 || !all_hex(t) {
                Err("更新簽章信任根格式無效；自動更新已停用"@)
            } else {
                Ok(lower_seq(t))
            }
        },
    }
}

/// The signer pin must be 64 hexadecimal digits; it is kept in lower case.
pub fn validate_configured_fingerprint(value: Option<&str>) -> (r: Result<String, String>)
    ensures
        match fingerprint_spec(
            match value {
                Some(v) => Some(v@),
                None => None,
            },
        ) {
            Ok(p) => r matches Ok(s) && s@ == p,
            Err(m) => r matches Err(e) && e@ == m,
        },
{
    let v = match value {
        Some(v) => v,
        None => {
            return Err(String::from_str("此版本未設定更新簽章信任根；請前往 GitHub Releases 手動更新"));
        },
    };
    let c = chars_of(v);
    let t = trim_chars(c.as_slice());
    if t.len() == 0 {
        return Err(String::from_str("此版本未設定更新簽章信任根；請前往 GitHub Releases 手動更新"));
    }
    if t.len() != 64 || !all_hex_exec(t.as_slice()) {
        return Err(String::from_str("更新簽章信任根格式無效；自動更新已停用"));
    }
    let l = lowered(t.as_slice());
    Ok(string_from_chars(l.as_slice()))
}

/// The signer pin the program was built with (`pin`, when one was given
/// at build time), validated.
pub fn configured_signer_cert_sha256(pin: Option<&str>) -> (r: Result<String, String>)
    ensures
        match fingerprint_spec(
            match pin {
                Some(v) => Some(v@),
                None => None,
            },
        ) {
            Ok(p) => r matches Ok(s) && s@ == p,
            Err(m) => r matches Err(e) && e@ == m,
        },
{
    validate_configured_fingerprint(pin)
}

/// What a signature report of the form `Valid:<fingerprint>` means for the
/// expected signer.
pub open spec fn signature_report_spec(report: Seq<char>, expected: Seq<char>) -> Result<(), Seq<char>> {
    let t = trim(report);
    if !starts_with(t, "Valid:"@) {
        Err("Authenticode 簽章無效："@ + t)
    } else if eq_ignore_ascii_case(t.skip(6), expected) {
        Ok(())
    } else {
        Err("Authenticode 簽署憑證與內建信任根不符"@)
    }
}

/// Accepts only a valid signature made by the pinned certificate.
pub fn validate_signature_report(report: &str, expected: &str) -> (r: Result<(), String>)
    ensures
        match signature_report_spec(report@, expected@) {
            Ok(()) => r is Ok,
            Err(m) => r matches Err(e) && e@ == m,
        },
{
    let c = chars_of(report);
    let t = trim_chars(c.as_slice());
    let prefix = chars_of("Valid:");
    proof {
        reveal_strlit("Valid:");
    }
    if !starts_with_exec(t.as_slice(), prefix.as_slice()) {
        let mut m = chars_of("Authenticode 簽章無效：");
        push_chars(&mut m, &t);
        return Err(string_from_chars(m.as_slice()));
    }
    let actual = slice_chars(t.as_slice(), 6, t.len());
    let e = chars_of(expected);
    proof {
        assert(actual@ =~= t@.skip(6));
    }
    if eq_ignore_case(actual.as_slice(), e.as_slice()) {
        Ok(())
    } else {
        Err(String::from_str("Authenticode 簽署憑證與內建信任根不符"))
    }
}

/// A staged installer may be launched only under the signer pin it was
/// staged with.
pub fn check_staged_signer(configured_signer: &str, staged: &StagedUpdate) -> (r: Result<(), String>)
    ensures
        configured_signer@ == staged.signer_cert_sha256@ ==> r is Ok,
        configured_signer@ != staged.signer_cert_sha256@ ==> (r matches Err(e) && e@
            == "已暫存更新的簽章信任根與目前程式不一致"@),
{
    let a = chars_of(configured_signer);
    let b = chars_of(staged.signer_cert_sha256.as_str());
    if seq_eq(a.as_slice(), b.as_slice()) {
        Ok(())
    } else {
        Err(String::from_str("已暫存更新的簽章信任根與目前程式不一致"))
    }
}

// ---------------------------------------------------------------------------
// Download sources
// ---------------------------------------------------------------------------

pub open spec fn allowed_host(host: Seq<char>) -> bool {
    host == "github.com"@ || host == "api.github.com"@ || host == "objects.githubusercontent.com"@
        || host == "release-assets.githubusercontent.com"@
        || host == "github-releases.githubusercontent.com"@
}

pub open spec fn host_or_empty(h: Option<Seq<char>>) -> Seq<char> {
    match h {
        Some(x) => x,
        None => Seq::<char>::empty(),
    }
}

/// Downloads use HTTPS from GitHub hosts only; an installer must come from
/// this project's GitHub releases.
pub open spec fn download_url_spec(url: (Seq<char>, Option<Seq<char>>, Seq<char>), require_release_path: bool) -> Result<(), Seq<char>> {
    let host = host_or_empty(url.1);
    if url.0 != "https"@ {
        Err("更新只能使用 HTTPS"@)
    } else if !allowed_host(host) {
        Err("更新來源不在允許清單："@ + host)
    } else if require_release_path && (host != "github.com"@ || !starts_with(
        url.2,
        RELEASE_PATH_PREFIX@,
    )) {
        Err("安裝程式必須來自本專案的 GitHub Release"@)
    } else {
        Ok(())
    }
}

fn is_text(v: &Vec<char>, lit: &str) -> (b: bool)
    ensures
        b == (v@ == lit@),
{
    let l = chars_of(lit);
    seq_eq(v.as_slice(), l.as_slice())
}

pub fn validate_download_url(url: &UrlParts, require_release_path: bool) -> (r: Result<(), String>)
    ensures
        match download_url_spec(url_parts_view(*url), require_release_path) {
            Ok(()) => r is Ok,
            Err(m) => r matches Err(e) && e@ == m,
        },
{
    let scheme = chars_of(url.scheme.as_str());
    if !is_text(&scheme, "https") {
        return Err(String::from_str("更新只能使用 HTTPS"));
    }
    let host: Vec<char> = match &url.host {
        Some(h) => chars_of(h.as_str()),
        None => Vec::new(),
    };
    let allowed = is_text(&host, "github.com") || is_text(&host, "api.github.com") || is_text(
        &host,
        "objects.githubusercontent.com",
    ) || is_text(&host, "release-assets.githubusercontent.com") || is_text(
        &host,
        "github-releases.githubusercontent.com",
    );
    if !allowed {
        let mut m = chars_of("更新來源不在允許清單：");
        push_chars(&mut m, &host);
        return Err(string_from_chars(m.as_slice()));
    }
    if require_release_path {
        let path = chars_of(url.path.as_str());
        let prefix = chars_of(RELEASE_PATH_PREFIX);
        if !is_text(&host, "github.com") || !starts_with_exec(path.as_slice(), prefix.as_slice()) {
            return Err(String::from_str("安裝程式必須來自本專案的 GitHub Release"));
        }
    }
    Ok(())
}

// ---------------------------------------------------------------------------
// Versions and manifest
// ---------------------------------------------------------------------------

/// What `semver::Version::parse` says of `text`: `None` when it is a valid
/// version, else the text of the error.
pub uninterp spec fn semver_parse_error(text: Seq<char>) -> Option<Seq<char>>;

/// `semver::Version::parse`, keeping only whether it failed and why.
#[verifier::external_body]
fn semver_check(text: &str) -> (r: Option<String>)
    ensures
        match semver_parse_error(text@) {
            None => r is None,
            Some(m) => r matches Some(e) && e@ == m,
        },
{
    semver::Version::parse(text).err().map(|error| error.to_string())
}

/// Whether version `a` is greater than version `b` in semantic-version
/// order, for two texts that parse as versions.
pub uninterp spec fn semver_greater(a: Seq<char>, b: Seq<char>) -> bool;

/// `semver::Version::parse` of both texts and `>` on the results.
#[verifier::external_body]
fn semver_gt(a: &str, b: &str) -> (r: bool)
    requires
        semver_parse_error(a@) is None,
        semver_parse_error(b@) is None,
    ensures
        r == semver_greater(a@, b@),
{
    match (semver::Version::parse(a), semver::Version::parse(b)) {
        (Ok(x), Ok(y)) => x > y,
        _ => false,
    }
}

/// Whether `available` is a newer version than `current`; either failing
/// to parse is an error.
pub fn is_newer_version(current: &str, available: &str) -> (r: Result<bool, String>)
    ensures
        match (semver_parse_error(current@), semver_parse_error(available@)) {
            (Some(m), _) => r matches Err(e) && e@ == m,
            (None, Some(m)) => r matches Err(e) && e@ == m,
            (None, None) => r matches Ok(b) && b == semver_greater(available@, current@),
        },
{
    if let Some(e) = semver_check(current) {
        return Err(e);
    }
    if let Some(e) = semver_check(available) {
        return Err(e);
    }
    Ok(semver_gt(available, current))
}

pub open spec fn expected_release_prefix(version: Seq<char>) -> Seq<char> {
    RELEASE_PATH_PREFIX@ + "v"@ + version + "/"@
}

/// Why a manifest is refused, checked in order; `None` when it is accepted.
pub open spec fn manifest_problem(m: UpdateManifest) -> Option<Seq<char>> {
    if m.schema_version != 1 {
        Some("不支援的更新資訊版本"@)
    } else if semver_parse_error(m.version@) is Some {
        Some("版本號無效："@ + semver_parse_error(m.version@)->0)
    } else if m.sha256@.len() != 64 || !all_hex(m.sha256@) {
        Some("更新資訊的 SHA-256 無效"@)
    } else {
        match parsed_url(m.installer_url@) {
            Err(e) => Some(e),
            Ok(url) => match download_url_spec(url, true) {
                Err(e) => Some(e),
                Ok(()) => if !starts_with(url.2, expected_release_prefix(m.version@)) || !ends_with(
                    url.2,
                    ".exe"@,
                ) {
                    Some("安裝程式 URL 與更新版本不一致"@)
                } else {
                    None
                },
            },
        }
    }
}

/// A manifest is accepted only for schema 1, a semantic version, a SHA-256
/// of 64 hexadecimal digits and an installer `.exe` under this project's
/// GitHub release of that version.
pub fn validate_manifest(manifest: &UpdateManifest) -> (r: Result<(), String>)
    ensures
        match manifest_problem(*manifest) {
            None => r is Ok,
            Some(m) => r matches Err(e) && e@ == m,
        },
{
    if manifest.schema_version != 1 {
        return Err(String::from_str("不支援的更新資訊版本"));
    }
    if let Some(e) = semver_check(manifest.version.as_str()) {
        let mut m = chars_of("版本號無效：");
        push_str(&mut m, e.as_str());
        return Err(string_from_chars(m.as_slice()));
    }
    let sha = chars_of(manifest.sha256.as_str());
    if sha.len() != 64 || !all_hex_exec(sha.as_slice()) {
        return Err(String::from_str("更新資訊的 SHA-256 無效"));
    }
    let url = match parse_url(manifest.installer_url.as_str()) {
        Ok(u) => u,
        Err(e) => {
            return Err(e);
        },
    };
    match validate_download_url(&url, true) {
        Ok(()) => {},
        Err(e) => {
            return Err(e);
        },
    }
    let mut prefix = chars_of(RELEASE_PATH_PREFIX);
    push_str(&mut prefix, "v");
    push_str(&mut prefix, manifest.version.as_str());
    push_str(&mut prefix, "/");
    let path = chars_of(url.path.as_str());
    let exe = chars_of(".exe");
    if !starts_with_exec(path.as_slice(), prefix.as_slice()) || !ends_with_exec(
        path.as_slice(),
        exe.as_slice(),
    ) {
        return Err(String::from_str("安裝程式 URL 與更新版本不一致"));
    }
    Ok(())
}

/// An accepted manifest always points at an HTTPS download from github.com
/// under this project's release path.
pub proof fn lemma_accepted_manifest_is_project_release(m: UpdateManifest)
    requires
        manifest_problem(m) is None,
    ensures
        parsed_url(m.installer_url@) matches Ok(url) && url.0 == "https"@ && host_or_empty(url.1)
            == "github.com"@ && starts_with(url.2, RELEASE_PATH_PREFIX@),
{
}

// ---------------------------------------------------------------------------
// Size limit and checksum
// ---------------------------------------------------------------------------

/// `maximum.saturating_sub(collected)`.
pub open spec fn room_left(collected: nat, maximum: nat) -> nat {
    if maximum >= collected {
        (maximum - collected) as nat
    } else {
        0
    }
}

/// Adds a downloaded chunk unless the total would exceed `maximum`.
pub fn append_limited(bytes: &mut Vec<u8>, chunk: &[u8], maximum: usize) -> (r: Result<(), String>)
    ensures
        chunk@.len() <= room_left(old(bytes)@.len(), maximum as nat) ==> r is Ok && final(bytes)@
            == old(bytes)@ + chunk@,
        chunk@.len() > room_left(old(bytes)@.len(), maximum as nat) ==> (r matches Err(e) && e@
            == "更新檔超過允許大小"@ && final(bytes)@ == old(bytes)@),
{
    let room = if maximum >= bytes.len() {
        maximum - bytes.len()
    } else {
        0
    };
    if chunk.len() > room {
        return Err(String::from_str("更新檔超過允許大小"));
    }
    let mut i: usize = 0;
    let ghost start = bytes@;
    while i < chunk.len()
        invariant
            i <= chunk@.len(),
            bytes@ == start + chunk@.take(i as int),
        decreases chunk@.len() - i,
    {
        bytes.push(chunk[i]);
        i += 1;
        proof {
            assert(chunk@.take(i as int) =~= chunk@.take(i - 1).push(chunk@[i - 1]));
        }
    }
    proof {
        assert(chunk@.take(i as int) =~= chunk@);
    }
    Ok(())
}

/// The SHA-256 digest of `bytes` as lower-case hexadecimal (`sha2::Sha256`
/// with `{:x}` formatting).
pub uninterp spec fn sha256_hex_of(bytes: Seq<u8>) -> Seq<char>;

/// `sha2::Sha256::digest`, formatted as lower-case hexadecimal.
#[verifier::external_body]
fn sha256_hex(bytes: &[u8]) -> (r: String)
    ensures
        r@ == sha256_hex_of(bytes@),
{
    format!("{:x}", sha2::Sha256::digest(bytes))
}

/// The installer is used only when its digest matches the expected one,
/// compared without case.
pub fn verify_sha256(bytes: &[u8], expected: &str) -> (r: Result<(), String>)
    ensures
        eq_ignore_ascii_case(sha256_hex_of(bytes@), expected@) ==> r is Ok,
        !eq_ignore_ascii_case(sha256_hex_of(bytes@), expected@) ==> (r matches Err(e) && e@
            == "更新安裝程式 SHA-256 不符，已拒絕使用"@),
{
    let actual = sha256_hex(bytes);
    let a = chars_of(actual.as_str());
    let e = chars_of(expected);
    if eq_ignore_case(a.as_slice(), e.as_slice()) {
        Ok(())
    } else {
        Err(String::from_str("更新安裝程式 SHA-256 不符，已拒絕使用"))
    }
}

} // verus!
