//! API keys kept in the system's credential store: which variables may be
//! imported from the user's environment, what a stored key must look like,
//! and which key the process ends up with.
use vstd::prelude::*;
use vstd::string::StringExecFns;
use crate::chars::{chars_of, is_blank, push_str, str_eq, string_from_chars, trim, trim_chars};
use crate::error::{AppError, AppResult};
use crate::utf16::{decode_utf16, utf16_text};
use vstd::utf8::{decode_utf8, valid_utf8};

verus! {

pub const CREDENTIAL_PREFIX: &'static str = "SpeakTypeCloud:";

pub const EMPTY_KEY_MESSAGE: &'static str = "API Key 不可為空";

/// Only the standard key variables are ever imported from the user's
/// environment; any other name (such as `PATH`) is left alone.
pub fn legacy_migration_allowed(env_name: &str) -> (b: bool)
    ensures
        b == (env_name@ == "OPENAI_API_KEY"@ || env_name@ == "XAI_API_KEY"@),
{
    str_eq(env_name, "OPENAI_API_KEY") || str_eq(env_name, "XAI_API_KEY")
}

/// The name under which the key for `env_name` is kept in the credential store.
pub fn credential_target(env_name: &str) -> (r: String)
    ensures
        r@ == CREDENTIAL_PREFIX@ + env_name@,
{
    let mut v = chars_of(CREDENTIAL_PREFIX);
    push_str(&mut v, env_name);
    string_from_chars(v.as_slice())
}

/// A key to be saved: trimmed, and not empty.
pub fn normalized_api_key(api_key: &str) -> (r: AppResult<String>)
    ensures
        trim(api_key@).len() == 0 ==> (r matches Err(AppError::Configuration(m)) && m@ == EMPTY_KEY_MESSAGE@),
        trim(api_key@).len() != 0 ==> (r matches Ok(k) && k@ == trim(api_key@)),
{
    let v = chars_of(api_key);
    let t = trim_chars(v.as_slice());
    if t.len() == 0 {
        Err(AppError::Configuration(String::from_str(EMPTY_KEY_MESSAGE)))
    } else {
        Ok(string_from_chars(t.as_slice()))
    }
}

pub open spec fn usable_spec(value: Option<String>) -> Option<String> {
    match value {
        Some(v) => if trim(v@).len() == 0 {
            None
        } else {
            Some(v)
        },
        None => None,
    }
}

/// A stored or imported key counts only when it is not blank.
pub fn usable_secret(value: Option<String>) -> (r: Option<String>)
    ensures
        r == usable_spec(value),
{
    match value {
        Some(v) => if is_blank(v.as_str()) {
            None
        } else {
            Some(v)
        },
        None => None,
    }
}

/// The next piece of outside work of loading one key into the process.
pub enum HydrateAction {
    /// Read the key kept in the credential store.
    ReadStored,
    /// Read the variable of the user's environment (never written).
    ReadLegacy,
    /// Keep this key in the credential store.
    WriteStored(String),
    /// Ask whether the process environment already holds a non-blank key.
    CheckProcess,
    /// Give this key to the process environment.
    ExportToProcess(String),
    /// Loading is over, with this outcome.
    Finish(AppResult<()>),
}

/// What the outside work answered.
pub enum HydrateEvent {
    Stored(AppResult<Option<String>>),
    Legacy(AppResult<Option<String>>),
    Written(AppResult<()>),
    /// Whether the process environment already holds a non-blank key.
    ProcessConfigured(bool),
    Exported,
}

pub enum HydratePhase {
    ReadingStored,
    ReadingLegacy,
    WritingStored,
    CheckingProcess,
    Exporting,
    Finished,
}

/// Loading one key: the stored key is read; for the standard variables a
/// usable value of the user's environment is copied into the store when
/// nothing usable is stored yet; the key is then given to the process
/// unless the process environment already holds one.
pub struct Hydration {
    pub phase: HydratePhase,
    pub migrate_legacy: bool,
    pub stored: Option<String>,
    pub importing: Option<String>,
}

/// Which answer each phase waits for.
pub open spec fn hydrate_accepts(phase: HydratePhase, event: HydrateEvent) -> bool {
    match phase {
        HydratePhase::ReadingStored => event is Stored,
        HydratePhase::ReadingLegacy => event is Legacy,
        HydratePhase::WritingStored => event is Written,
        HydratePhase::CheckingProcess => event is ProcessConfigured,
        HydratePhase::Exporting => event is Exported,
        HydratePhase::Finished => false,
    }
}

/// The next phase is `phase` with action `action`, with `stored` as the
/// usable stored key and the same import setting.
pub open spec fn hydrate_moves(
    old: Hydration,
    r: (Hydration, HydrateAction),
    phase: HydratePhase,
    action: HydrateAction,
    stored: Option<String>,
) -> bool {
    &&& r.0.phase == phase
    &&& r.1 == action
    &&& r.0.stored == stored
    &&& r.0.migrate_legacy == old.migrate_legacy
}

/// Loading ended with `result`.
pub open spec fn hydrate_ends(r: (Hydration, HydrateAction), result: AppResult<()>) -> bool {
    r.0.phase is Finished && r.1 == HydrateAction::Finish(result)
}

impl Hydration {
    /// Starts loading a key; `migrate_legacy` allows the import from the
    /// user's environment (see `legacy_migration_allowed`).
    pub fn start(migrate_legacy: bool) -> (r: (Hydration, HydrateAction))
        ensures
            r.0.phase is ReadingStored,
            r.0.migrate_legacy == migrate_legacy,
            r.0.stored is None,
            r.1 is ReadStored,
    {
        (
            Hydration { phase: HydratePhase::ReadingStored, migrate_legacy, stored: None, importing: None },
            HydrateAction::ReadStored,
        )
    }

    /// Whether `event` is the answer that loading waits for.
    pub fn accepts(&self, event: &HydrateEvent) -> (b: bool)
        ensures
            b == hydrate_accepts(self.phase, *event),
    {
        match self.phase {
            HydratePhase::ReadingStored => matches!(event, HydrateEvent::Stored(_)),
            HydratePhase::ReadingLegacy => matches!(event, HydrateEvent::Legacy(_)),
            HydratePhase::WritingStored => matches!(event, HydrateEvent::Written(_)),
            HydratePhase::CheckingProcess => matches!(event, HydrateEvent::ProcessConfigured(_)),
            HydratePhase::Exporting => matches!(event, HydrateEvent::Exported),
            HydratePhase::Finished => false,
        }
    }

    /// The answer to the last action moves loading on.
    pub fn step(self, event: HydrateEvent) -> (r: (Hydration, HydrateAction))
        requires
            hydrate_accepts(self.phase, event),
            self.phase is WritingStored ==> self.importing is Some,
        ensures
            r.0.phase is WritingStored ==> r.0.importing is Some,
            r.0.migrate_legacy == self.migrate_legacy,
            r.1 is ReadLegacy ==> self.migrate_legacy,
            r.1 is WriteStored ==> self.stored is None,
            r.1 is ExportToProcess ==> event == HydrateEvent::ProcessConfigured(false),
            match event {
                HydrateEvent::Stored(read) => match read {
                    Err(e) => hydrate_ends(r, Err(e)),
                    Ok(v) => if self.migrate_legacy {
                        hydrate_moves(self, r, HydratePhase::ReadingLegacy, HydrateAction::ReadLegacy, usable_spec(v))
                    } else {
                        hydrate_moves(self, r, HydratePhase::CheckingProcess, HydrateAction::CheckProcess, usable_spec(v))
                    },
                },
                HydrateEvent::Legacy(read) => match read {
                    Err(e) => hydrate_ends(r, Err(e)),
                    Ok(v) => match usable_spec(v) {
                        Some(k) => if self.stored is None {
                            hydrate_moves(self, r, HydratePhase::WritingStored, HydrateAction::WriteStored(k), None)
                                && r.0.importing == Some(k)
                        } else {
                            hydrate_moves(self, r, HydratePhase::CheckingProcess, HydrateAction::CheckProcess, self.stored)
                        },
                        None => hydrate_moves(
                            self,
                            r,
                            HydratePhase::CheckingProcess,
                            HydrateAction::CheckProcess,
                            self.stored,
                        ),
                    },
                },
                HydrateEvent::Written(written) => match written {
                    Err(e) => hydrate_ends(r, Err(e)),
                    Ok(()) => hydrate_moves(
                        self,
                        r,
                        HydratePhase::CheckingProcess,
                        HydrateAction::CheckProcess,
                        self.importing,
                    ),
                },
                HydrateEvent::ProcessConfigured(configured) => if configured {
                    hydrate_ends(r, Ok(()))
                } else {
                    match self.stored {
                        Some(k) => hydrate_moves(
                            self,
                            r,
                            HydratePhase::Exporting,
                            HydrateAction::ExportToProcess(k),
                            self.stored,
                        ),
                        None => hydrate_ends(r, Ok(())),
                    }
                },
                HydrateEvent::Exported => hydrate_ends(r, Ok(())),
            },
    {
        let migrate_legacy = self.migrate_legacy;
        match event {
            HydrateEvent::Stored(read) => match read {
                Err(e) => Hydration::finish(migrate_legacy, Err(e)),
                Ok(v) => {
                    let stored = usable_secret(v);
                    if migrate_legacy {
                        (
                            Hydration { phase: HydratePhase::ReadingLegacy, migrate_legacy, stored, importing: None },
                            HydrateAction::ReadLegacy,
                        )
                    } else {
                        (
                            Hydration { phase: HydratePhase::CheckingProcess, migrate_legacy, stored, importing: None },
                            HydrateAction::CheckProcess,
                        )
                    }
                },
            },
            HydrateEvent::Legacy(read) => match read {
                Err(e) => Hydration::finish(migrate_legacy, Err(e)),
                Ok(v) => match usable_secret(v) {
                    Some(k) => {
                        if self.stored.is_none() {
                            let written = k.clone();
                            (
                                Hydration {
                                    phase: HydratePhase::WritingStored,
                                    migrate_legacy,
                                    stored: None,
                                    importing: Some(k),
                                },
                                HydrateAction::WriteStored(written),
                            )
                        } else {
                            (
                                Hydration { phase: HydratePhase::CheckingProcess, importing: None, ..self },
                                HydrateAction::CheckProcess,
                            )
                        }
                    },
                    None => (
                        Hydration { phase: HydratePhase::CheckingProcess, importing: None, ..self },
                        HydrateAction::CheckProcess,
                    ),
                },
            },
            HydrateEvent::Written(written) => match written {
                Err(e) => Hydration::finish(migrate_legacy, Err(e)),
                Ok(()) => (
                    Hydration {
                        phase: HydratePhase::CheckingProcess,
                        migrate_legacy,
                        stored: self.importing,
                        importing: None,
                    },
                    HydrateAction::CheckProcess,
                ),
            },
            HydrateEvent::ProcessConfigured(configured) => {
                if configured {
                    Hydration::finish(migrate_legacy, Ok(()))
                } else {
                    match &self.stored {
                        Some(k) => {
                            let key = k.clone();
                            (
                                Hydration { phase: HydratePhase::Exporting, importing: None, ..self },
                                HydrateAction::ExportToProcess(key),
                            )
                        },
                        None => Hydration::finish(migrate_legacy, Ok(())),
                    }
                }
            },
            HydrateEvent::Exported => Hydration::finish(migrate_legacy, Ok(())),
        }
    }

    fn finish(migrate_legacy: bool, result: AppResult<()>) -> (r: (Hydration, HydrateAction))
        ensures
            hydrate_ends(r, result),
            r.0.migrate_legacy == migrate_legacy,
    {
        (
            Hydration { phase: HydratePhase::Finished, migrate_legacy, stored: None, importing: None },
            HydrateAction::Finish(result),
        )
    }
}


/// The key kept in the credential store is not valid UTF-8.
pub const CREDENTIAL_ENCODING_MESSAGE: &'static str = "Windows Credential Manager 內的 API Key 編碼無效";

/// `String::from_utf8`: the text, when the bytes are valid UTF-8.
#[verifier::external_body]
fn utf8_text(bytes: Vec<u8>) -> (r: Option<String>)
    ensures
        if valid_utf8(bytes@) {
            r matches Some(s) && s@ == decode_utf8(bytes@)
        } else {
            r is None
        },
{
    String::from_utf8(bytes).ok()
}

/// The key held in a credential's secret bytes.
pub fn credential_secret(blob: Vec<u8>) -> (r: AppResult<Option<String>>)
    ensures
        valid_utf8(blob@) ==> (r matches Ok(Some(s)) && s@ == decode_utf8(blob@)),
        !valid_utf8(blob@) ==> (r matches Err(AppError::Io(m)) && m@ == CREDENTIAL_ENCODING_MESSAGE@),
{
    match utf8_text(blob) {
        Some(s) => Ok(Some(s)),
        None => Err(AppError::Io(String::from_str(CREDENTIAL_ENCODING_MESSAGE))),
    }
}

/// `units` without the NUL units at its end.
pub open spec fn without_trailing_nuls(units: Seq<u16>) -> Seq<u16>
    decreases units.len(),
{
    if units.len() > 0 && units.last() == 0 {
        without_trailing_nuls(units.drop_last())
    } else {
        units
    }
}

/// The units of a registry string value: those that the written byte count
/// covers, without the NULs at the end.
pub open spec fn registry_units(data: Seq<u16>, byte_count: u32) -> Seq<u16> {
    let n = if (byte_count / 2) as int <= data.len() {
        (byte_count / 2) as int
    } else {
        data.len() as int
    };
    without_trailing_nuls(data.take(n))
}

/// The text of a string value read from the user's environment in the
/// registry: `data` as filled by the read, `byte_count` the bytes it wrote.
pub fn registry_value_text(env_name: &str, data: &[u16], byte_count: u32) -> (r: AppResult<String>)
    ensures
        match decode_utf16(registry_units(data@, byte_count)) {
            Some(cs) => r matches Ok(s) && s@ == cs,
            None => r matches Err(AppError::Io(m)) && exists|d: Seq<char>|
                m@ == "環境變數 "@ + env_name@ + " 不是有效的 Unicode："@ + d,
        },
{
    let half = (byte_count / 2) as usize;
    let mut n: usize = if half <= data.len() {
        half
    } else {
        data.len()
    };
    proof {
        assert(data@.take(n as int) =~= data@.take(
            if (byte_count / 2) as int <= data@.len() {
                (byte_count / 2) as int
            } else {
                data@.len() as int
            },
        ));
    }
    while n > 0 && data[n - 1] == 0
        invariant
            n <= data@.len(),
            without_trailing_nuls(data@.take(n as int)) == registry_units(data@, byte_count),
        decreases n,
    {
        proof {
            assert(data@.take(n as int).drop_last() =~= data@.take(n - 1));
        }
        n -= 1;
    }
    let mut units: Vec<u16> = Vec::new();
    let mut i: usize = 0;
    while i < n
        invariant
            n <= data@.len(),
            i <= n,
            units@ == data@.take(i as int),
        decreases n - i,
    {
        units.push(data[i]);
        i += 1;
        proof {
            assert(units@ =~= data@.take(i as int));
        }
    }
    proof {
        assert(without_trailing_nuls(units@) == units@);
    }
    match utf16_text(units.as_slice()) {
        Ok(s) => Ok(s),
        Err(e) => {
            let mut m = chars_of("環境變數 ");
            push_str(&mut m, env_name);
            push_str(&mut m, " 不是有效的 Unicode：");
            push_str(&mut m, e.as_str());
            proof {
                assert(m@ =~= "環境變數 "@ + env_name@ + " 不是有效的 Unicode："@ + e@);
            }
            Err(AppError::Io(string_from_chars(m.as_slice())))
        },
    }
}

} // verus!
