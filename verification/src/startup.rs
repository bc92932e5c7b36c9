//! Launch at login: the quoted command for the `Run` registry value, and the
//! transaction that keeps the settings file and the registry in step.
use vstd::prelude::*;
use vstd::string::StringExecFns;
use std::path::Path;
use crate::chars::{chars_of, string_from_chars};
use crate::config::AppConfig;
use crate::error::{AppError, AppResult};

verus! {

#[verifier::external_type_specification]
#[verifier::external_body]
pub struct ExPath(Path);

/// The text that `Path::to_str` reads out of `path`: none when the path is
/// not valid Unicode.
pub uninterp spec fn path_text_of(path: &Path) -> Option<Seq<char>>;

/// `Path::to_str`: the path as text, when it is valid Unicode.
#[verifier::external_body]
fn path_text(path: &Path) -> (r: Option<&str>)
    ensures
        match path_text_of(path) {
            Some(t) => r matches Some(s) && s@ == t,
            None => r is None,
        },
{
    path.to_str()
}

/// The command text for a path: the path in double quotes; a blank path or
/// one that holds a double quote cannot be written safely.
pub open spec fn quoted_command(path: Seq<char>) -> Option<Seq<char>> {
    if path.len() == 0 || path.contains('"') {
        None
    } else {
        Some(seq!['"'] + path + seq!['"'])
    }
}

/// Quotes an executable path for the `Run` registry value.
pub fn quote_command_text(path: &str) -> (r: AppResult<String>)
    ensures
        match quoted_command(path@) {
            Some(q) => r matches Ok(s) && s@ == q,
            None => r matches Err(AppError::Configuration(m)) && m@
                == "程式路徑無法安全寫入登入啟動設定"@,
        },
{
    let p = chars_of(path);
    let mut i: usize = 0;
    while i < p.len()
        invariant
            i <= p@.len(),
            p@ == path@,
            forall|k: int| 0 <= k < i ==> p@[k] != '"',
        decreases p@.len() - i,
    {
        if p[i] == '"' {
            proof {
                assert(p@.contains('"'));
            }
            return Err(AppError::Configuration(String::from_str("程式路徑無法安全寫入登入啟動設定")));
        }
        i += 1;
    }
    if p.len() == 0 {
        return Err(AppError::Configuration(String::from_str("程式路徑無法安全寫入登入啟動設定")));
    }
    let mut out: Vec<char> = Vec::new();
    out.push('"');
    crate::chars::push_chars(&mut out, &p);
    out.push('"');
    proof {
        assert(!p@.contains('"'));
        assert(out@ =~= seq!['"'] + p@ + seq!['"']);
    }
    Ok(string_from_chars(out.as_slice()))
}

/// The command for an executable whose path reads as `text`, or the
/// message of the configuration error that refuses it.
pub open spec fn executable_command(text: Option<Seq<char>>) -> Result<Seq<char>, Seq<char>> {
    match text {
        None => Err("程式路徑不是有效的 Windows Unicode"@),
        Some(t) => match quoted_command(t) {
            Some(q) => Ok(q),
            None => Err("程式路徑無法安全寫入登入啟動設定"@),
        },
    }
}

/// Quotes the executable path for the `Run` registry value; a path that is
/// not valid Unicode is refused.
pub fn quote_executable_command(path: &Path) -> (r: AppResult<String>)
    ensures
        match executable_command(path_text_of(path)) {
            Ok(q) => r matches Ok(s) && s@ == q,
            Err(m) => r matches Err(AppError::Configuration(e)) && e@ == m,
        },
{
    match path_text(path) {
        Some(text) => quote_command_text(text),
        None => Err(AppError::Configuration(String::from_str("程式路徑不是有效的 Windows Unicode"))),
    }
}

/// The name of the login entry under the `Run` registry key.
pub const RUN_VALUE_NAME: &'static str = "SpeakType Cloud";

/// The registry key of the programs started at login.
pub const RUN_KEY: &'static str = "Software\\Microsoft\\Windows\\CurrentVersion\\Run";

/// The change that turning launch at login on or off makes to the `Run`
/// registry key.
#[derive(Debug, Clone)]
pub enum LaunchRegistryChange {
    /// Write the `RUN_VALUE_NAME` value with this command.
    SetRunValue(String),
    /// Delete the `RUN_VALUE_NAME` value.
    DeleteRunValue,
}

/// Decides the registry change for launch at login: turning it off deletes
/// the entry; turning it on writes the quoted path of the running program
/// (`executable`, or the reason it could not be found).
pub fn set_launch_at_login(enabled: bool, executable: Result<&Path, String>) -> (r: AppResult<LaunchRegistryChange>)
    ensures
        !enabled ==> r matches Ok(LaunchRegistryChange::DeleteRunValue),
        enabled ==> match executable {
            Err(e) => r matches Err(AppError::Io(m)) && m@ == "無法取得目前程式路徑："@ + e@,
            Ok(path) => match executable_command(path_text_of(path)) {
                Ok(q) => r matches Ok(LaunchRegistryChange::SetRunValue(c)) && c@ == q,
                Err(m) => r matches Err(AppError::Configuration(e)) && e@ == m,
            },
        },
{
    if !enabled {
        return Ok(LaunchRegistryChange::DeleteRunValue);
    }
    match executable {
        Err(e) => {
            let mut m = chars_of("無法取得目前程式路徑：");
            crate::chars::push_str(&mut m, e.as_str());
            Err(AppError::Io(string_from_chars(m.as_slice())))
        },
        Ok(path) => match quote_executable_command(path) {
            Ok(command) => Ok(LaunchRegistryChange::SetRunValue(command)),
            Err(e) => Err(e),
        },
    }
}

/// Launch at login where the platform has no `Run` registry key: turning it
/// off is a no-op, turning it on is refused.
pub fn set_launch_at_login_unsupported(enabled: bool) -> (r: AppResult<()>)
    ensures
        !enabled ==> r is Ok,
        enabled ==> (r matches Err(AppError::Configuration(m)) && m@ == "登入自動啟動目前僅支援 Windows"@),
{
    if enabled {
        Err(AppError::Configuration(String::from_str("登入自動啟動目前僅支援 Windows")))
    } else {
        Ok(())
    }
}

/// What the registry answered to a change.
#[derive(Debug, Clone)]
pub enum RegistryStatus {
    Success,
    /// The change failed; `not_found` when the value was not there, with
    /// the system's description of the failure.
    Failure { not_found: bool, description: String },
}

/// A registry change succeeded, or was a deletion of a value that was not
/// there; anything else is reported with the system's description.
pub fn registry_outcome(enabled: bool, status: RegistryStatus) -> (r: AppResult<()>)
    ensures
        match status {
            RegistryStatus::Success => r is Ok,
            RegistryStatus::Failure { not_found, description } => if !enabled && not_found {
                r is Ok
            } else {
                r matches Err(AppError::Io(m)) && m@ == "無法"@ + (if enabled {
                    "啟用"@
                } else {
                    "停用"@
                }) + " Windows 登入自動啟動："@ + description@
            },
        },
{
    match status {
        RegistryStatus::Success => Ok(()),
        RegistryStatus::Failure { not_found, description } => {
            if !enabled && not_found {
                return Ok(());
            }
            let mut m = chars_of("無法");
            crate::chars::push_str(&mut m, if enabled { "啟用" } else { "停用" });
            crate::chars::push_str(&mut m, " Windows 登入自動啟動：");
            crate::chars::push_str(&mut m, description.as_str());
            Err(AppError::Io(string_from_chars(m.as_slice())))
        },
    }
}

/// Where the settings file and the login registry value are kept.
pub trait SettingsStore {
    fn save(&self, config: &AppConfig) -> AppResult<()>;
}

pub trait LaunchAtLoginStore {
    fn set_enabled(&self, enabled: bool) -> AppResult<()>;
}

/// The next piece of outside work of the transaction.
pub enum PersistAction {
    /// Write the new settings.
    SaveNext,
    /// Turn launch at login on or off.
    SetLaunchAtLogin(bool),
    /// Write the previous settings back.
    SaveRollback,
    /// The transaction is over, with this outcome.
    Finish(AppResult<()>),
}

pub enum PersistPhase {
    Start,
    SavingNext,
    SettingLaunch,
    RollingBack,
    Finished,
}

/// The settings/registry transaction: the new settings are written first;
/// only when they are written and launch at login changes is the registry
/// touched; when the registry refuses, the previous settings are written
/// back and the registry error is reported (with the rollback error, if the
/// rollback fails too).
pub struct PersistTransaction {
    pub phase: PersistPhase,
    pub previous_launch: bool,
    pub next_launch: bool,
    pub registry_error: Option<AppError>,
}

pub open spec fn rollback_failure_text(registry: AppError, rollback: AppError) -> Seq<char> {
    crate::error::error_text(registry) + "；設定回滾也失敗："@ + crate::error::error_text(rollback)
}

/// How many outside actions the transaction may still ask for at most.
pub open spec fn phase_rank(p: PersistPhase) -> nat {
    match p {
        PersistPhase::Start => 4,
        PersistPhase::SavingNext => 3,
        PersistPhase::SettingLaunch => 2,
        PersistPhase::RollingBack => 1,
        PersistPhase::Finished => 0,
    }
}

fn finish(previous_launch: bool, next_launch: bool, result: AppResult<()>) -> (r: (PersistTransaction, PersistAction))
    ensures
        r.0.phase is Finished,
        r.0.previous_launch == previous_launch,
        r.0.next_launch == next_launch,
        r.1 matches PersistAction::Finish(x) && x == result,
{
    (
        PersistTransaction { phase: PersistPhase::Finished, previous_launch, next_launch, registry_error: None },
        PersistAction::Finish(result),
    )
}

impl PersistTransaction {
    pub fn start(previous: &AppConfig, next: &AppConfig) -> (r: (PersistTransaction, PersistAction))
        ensures
            r.0.phase is SavingNext,
            r.0.previous_launch == previous.launch_at_login,
            r.0.next_launch == next.launch_at_login,
            r.1 is SaveNext,
    {
        (
            PersistTransaction {
                phase: PersistPhase::SavingNext,
                previous_launch: previous.launch_at_login,
                next_launch: next.launch_at_login,
                registry_error: None,
            },
            PersistAction::SaveNext,
        )
    }

    /// The outcome of the last action moves the transaction on.
    pub fn step(self, outcome: AppResult<()>) -> (r: (PersistTransaction, PersistAction))
        ensures
            match self.phase {
                PersistPhase::SavingNext => match outcome {
                    Err(e) => r.1 matches PersistAction::Finish(Err(f)) && f == e,
                    Ok(()) => if self.previous_launch == self.next_launch {
                        r.1 matches PersistAction::Finish(Ok(()))
                    } else {
                        r.1 matches PersistAction::SetLaunchAtLogin(b) && b == self.next_launch
                            && r.0.phase is SettingLaunch
                    },
                },
                PersistPhase::SettingLaunch => match outcome {
                    Ok(()) => r.1 matches PersistAction::Finish(Ok(())),
                    Err(e) => r.1 is SaveRollback && r.0.phase is RollingBack
                        && r.0.registry_error == Some(e),
                },
                PersistPhase::RollingBack => match outcome {
                    Ok(()) => match self.registry_error {
                        Some(e) => r.1 matches PersistAction::Finish(Err(f)) && f == e,
                        None => r.1 matches PersistAction::Finish(Err(_)),
                    },
                    Err(rollback) => match self.registry_error {
                        Some(e) => r.1 matches PersistAction::Finish(Err(AppError::Io(m))) && m@
                            == rollback_failure_text(e, rollback),
                        None => r.1 matches PersistAction::Finish(Err(_)),
                    },
                },
                _ => r.1 matches PersistAction::Finish(Err(_)),
            },
            r.0.previous_launch == self.previous_launch,
            r.0.next_launch == self.next_launch,
            r.1 is Finish ==> r.0.phase is Finished,
            !(r.1 is Finish) ==> 0 < phase_rank(r.0.phase) < phase_rank(self.phase),
    {
        let previous_launch = self.previous_launch;
        let next_launch = self.next_launch;
        match self.phase {
            PersistPhase::SavingNext => match outcome {
                Err(e) => finish(previous_launch, next_launch, Err(e)),
                Ok(()) => {
                    if previous_launch == next_launch {
                        finish(previous_launch, next_launch, Ok(()))
                    } else {
                        (
                            PersistTransaction {
                                phase: PersistPhase::SettingLaunch,
                                previous_launch,
                                next_launch,
                                registry_error: None,
                            },
                            PersistAction::SetLaunchAtLogin(next_launch),
                        )
                    }
                },
            },
            PersistPhase::SettingLaunch => match outcome {
                Ok(()) => finish(previous_launch, next_launch, Ok(())),
                Err(e) => (
                    PersistTransaction {
                        phase: PersistPhase::RollingBack,
                        previous_launch,
                        next_launch,
                        registry_error: Some(e),
                    },
                    PersistAction::SaveRollback,
                ),
            },
            PersistPhase::RollingBack => match self.registry_error {
                Some(e) => match outcome {
                    Ok(()) => finish(previous_launch, next_launch, Err(e)),
                    Err(rollback) => {
                        let mut msg = chars_of(e.to_text().as_str());
                        crate::chars::push_str(&mut msg, "；設定回滾也失敗：");
                        crate::chars::push_str(&mut msg, rollback.to_text().as_str());
                        proof {
                            assert(msg@ =~= rollback_failure_text(e, rollback));
                        }
                        finish(previous_launch, next_launch, Err(AppError::Io(string_from_chars(msg.as_slice()))))
                    },
                },
                None => finish(previous_launch, next_launch, Err(AppError::Io(String::from_str("設定回滾狀態遺失")))),
            },
            _ => finish(previous_launch, next_launch, Err(AppError::Io(String::from_str("設定交易已結束")))),
        }
    }
}

/// What the transaction makes of the answer to writing back the previous
/// settings, after the registry refused with `registry`.
pub open spec fn rollback_result(r: AppResult<()>, registry: AppError, rollback: AppResult<()>) -> bool {
    match rollback {
        Ok(()) => r == Err::<(), AppError>(registry),
        Err(e) => r matches Err(AppError::Io(m)) && m@ == rollback_failure_text(registry, e),
    }
}

/// Writes the new settings and, when launch at login changes, the registry
/// value; rolls the settings back when the registry refuses.
///
/// `next` is saved first, and a failure there is returned as it is. When
/// launch at login does not change, that is all. Otherwise the switch is
/// set to `next.launch_at_login`; when that fails, `previous` is saved back
/// and the result is the registry's error, or the combined message when
/// the rollback fails too. Each store answer is one its method may give.
pub fn persist_with_stores<S: SettingsStore, L: LaunchAtLoginStore>(
    previous: &AppConfig,
    next: &AppConfig,
    settings: &S,
    launch: &L,
) -> (r: AppResult<()>)
    ensures
        exists|saved: AppResult<()>| #[trigger] call_ensures(S::save, (settings, next), saved) && match saved {
            Err(e) => r == Err::<(), AppError>(e),
            Ok(()) => if previous.launch_at_login == next.launch_at_login {
                r is Ok
            } else {
                exists|switched: AppResult<()>| #[trigger] call_ensures(
                    L::set_enabled,
                    (launch, next.launch_at_login),
                    switched,
                ) && match switched {
                    Ok(()) => r is Ok,
                    Err(registry) => exists|rolled: AppResult<()>| #[trigger] call_ensures(
                        S::save,
                        (settings, previous),
                        rolled,
                    ) && rollback_result(r, registry, rolled),
                }
            },
        },
{
    let (tx, _save_next) = PersistTransaction::start(previous, next);
    let saved = settings.save(next);
    let (tx, action) = tx.step(saved);
    match action {
        PersistAction::Finish(result) => result,
        PersistAction::SetLaunchAtLogin(enabled) => {
            let switched = launch.set_enabled(enabled);
            let (tx, action) = tx.step(switched);
            match action {
                PersistAction::Finish(result) => result,
                _ => {
                    let rolled = settings.save(previous);
                    let (_, action) = tx.step(rolled);
                    match action {
                        PersistAction::Finish(result) => result,
                        _ => {
                            proof {
                                assert(false);
                            }
                            Ok(())
                        },
                    }
                },
            }
        },
        _ => {
            proof {
                assert(false);
            }
            Ok(())
        },
    }
}

} // verus!
