//! Where the application keeps its files: the per-user directories of the
//! platform, with plain relative paths when the platform gives none.
use vstd::prelude::*;
use directories::ProjectDirs;
use std::path::PathBuf;

verus! {

pub const QUALIFIER: &'static str = "com";

pub const ORGANIZATION: &'static str = "SpeakType";

pub const APPLICATION: &'static str = "SpeakTypeCloud";

#[verifier::external_type_specification]
#[verifier::external_body]
pub struct ExProjectDirs(ProjectDirs);

/// `ProjectDirs::from`: the platform's directories for this application,
/// when a home directory can be found. The answer depends on the user's
/// environment, so nothing is stated of it.
#[verifier::external_body]
fn project_dirs(qualifier: &str, organization: &str, application: &str) -> (r: Option<ProjectDirs>) {
    ProjectDirs::from(qualifier, organization, application)
}

/// The per-user local data directory that `ProjectDirs::data_local_dir`
/// reads out of `dirs`.
pub uninterp spec fn data_local_dir_named(dirs: ProjectDirs) -> PathBuf;

/// `ProjectDirs::data_local_dir`, as an owned path.
#[verifier::external_body]
fn data_local_dir_of(dirs: &ProjectDirs) -> (r: PathBuf)
    ensures
        r == data_local_dir_named(*dirs),
{
    dirs.data_local_dir().to_path_buf()
}

/// The configuration directory that `ProjectDirs::config_dir` reads out of
/// `dirs`.
pub uninterp spec fn config_dir_named(dirs: ProjectDirs) -> PathBuf;

/// `ProjectDirs::config_dir`, as an owned path.
#[verifier::external_body]
fn config_dir_of(dirs: &ProjectDirs) -> (r: PathBuf)
    ensures
        r == config_dir_named(*dirs),
{
    dirs.config_dir().to_path_buf()
}

/// The path that `PathBuf::from` makes of `text`.
pub uninterp spec fn path_of(text: Seq<char>) -> PathBuf;

/// `PathBuf::from` on text.
#[verifier::external_body]
pub(crate) fn path_from(text: &str) -> (r: PathBuf)
    ensures
        r == path_of(text@),
{
    PathBuf::from(text)
}

/// The path that `Path::join` gives for `base` followed by `part`.
pub uninterp spec fn path_joined(base: PathBuf, part: Seq<char>) -> PathBuf;

/// `Path::join`: `base` followed by the component `part`.
#[verifier::external_body]
pub(crate) fn path_join(base: &PathBuf, part: &str) -> (r: PathBuf)
    ensures
        r == path_joined(*base, part@),
{
    base.join(part)
}

/// The data directory of the application for the platform directories
/// `dirs`: their per-user local data directory, or `data` when the platform
/// gives none.
pub open spec fn data_dir_from(dirs: Option<ProjectDirs>) -> PathBuf {
    match dirs {
        Some(d) => data_local_dir_named(d),
        None => path_of("data"@),
    }
}

/// The history directory under a data directory.
pub open spec fn history_dir_under(dir: PathBuf) -> PathBuf {
    path_joined(dir, "history"@)
}

/// The settings file for the platform directories `dirs`.
pub open spec fn config_path_from(dirs: Option<ProjectDirs>) -> PathBuf {
    match dirs {
        Some(d) => path_joined(config_dir_named(d), "config.toml"@),
        None => path_of("config.toml"@),
    }
}

/// The history file for the platform directories `dirs`.
pub open spec fn history_path_from(dirs: Option<ProjectDirs>) -> PathBuf {
    path_joined(history_dir_under(data_dir_from(dirs)), "entries.jsonl"@)
}

/// The directory of the history audio for the platform directories `dirs`.
pub open spec fn history_audio_dir_from(dirs: Option<ProjectDirs>) -> PathBuf {
    path_joined(history_dir_under(data_dir_from(dirs)), "audio"@)
}

/// The recordings directory for the platform directories `dirs`.
pub open spec fn recordings_dir_from(dirs: Option<ProjectDirs>) -> PathBuf {
    path_joined(data_dir_from(dirs), "recordings"@)
}

/// The platform's directories for this application, as `ProjectDirs::from`
/// finds them in the user's environment. Every path below is a function of
/// this one value: the `_in` forms take it, the others look it up first.
pub fn platform_dirs() -> Option<ProjectDirs> {
    project_dirs(QUALIFIER, ORGANIZATION, APPLICATION)
}

/// The directory for the application's data under the platform
/// directories `dirs`; `data` when there are none.
pub fn data_dir_in(dirs: &Option<ProjectDirs>) -> (r: PathBuf)
    ensures
        r == data_dir_from(*dirs),
{
    match dirs {
        Some(d) => data_local_dir_of(d),
        None => path_from("data"),
    }
}

/// The directory for the application's data; `data` when the platform
/// gives no per-user directory.
pub fn data_dir() -> (r: PathBuf)
    ensures
        exists|dirs: Option<ProjectDirs>| r == #[trigger] data_dir_from(dirs),
{
    let dirs = platform_dirs();
    data_dir_in(&dirs)
}

/// The settings file under the platform directories `dirs`.
pub fn config_path_in(dirs: &Option<ProjectDirs>) -> (r: PathBuf)
    ensures
        r == config_path_from(*dirs),
{
    match dirs {
        Some(d) => {
            let dir = config_dir_of(d);
            path_join(&dir, "config.toml")
        },
        None => path_from("config.toml"),
    }
}

/// The settings file: `config.toml` in the platform's configuration
/// directory, or in the working directory when there is none.
pub fn config_path() -> (r: PathBuf)
    ensures
        exists|dirs: Option<ProjectDirs>| r == #[trigger] config_path_from(dirs),
{
    let dirs = platform_dirs();
    config_path_in(&dirs)
}

/// The history file under the platform directories `dirs`.
pub fn history_path_in(dirs: &Option<ProjectDirs>) -> (r: PathBuf)
    ensures
        r == history_path_from(*dirs),
{
    let data = data_dir_in(dirs);
    let history = path_join(&data, "history");
    path_join(&history, "entries.jsonl")
}

/// The history file: `history/entries.jsonl` under the data directory.
pub fn history_path() -> (r: PathBuf)
    ensures
        exists|dirs: Option<ProjectDirs>| r == #[trigger] history_path_from(dirs),
{
    let dirs = platform_dirs();
    history_path_in(&dirs)
}

/// The directory of the history audio under the platform directories
/// `dirs`.
pub fn history_audio_dir_in(dirs: &Option<ProjectDirs>) -> (r: PathBuf)
    ensures
        r == history_audio_dir_from(*dirs),
{
    let data = data_dir_in(dirs);
    let history = path_join(&data, "history");
    path_join(&history, "audio")
}

/// The directory for the audio of history entries: `history/audio` under
/// the data directory.
pub fn history_audio_dir() -> (r: PathBuf)
    ensures
        exists|dirs: Option<ProjectDirs>| r == #[trigger] history_audio_dir_from(dirs),
{
    let dirs = platform_dirs();
    history_audio_dir_in(&dirs)
}

/// The recordings directory under the platform directories `dirs`.
pub fn recordings_dir_in(dirs: &Option<ProjectDirs>) -> (r: PathBuf)
    ensures
        r == recordings_dir_from(*dirs),
{
    let data = data_dir_in(dirs);
    path_join(&data, "recordings")
}

/// The directory for recordings: `recordings` under the data directory.
pub fn recordings_dir() -> (r: PathBuf)
    ensures
        exists|dirs: Option<ProjectDirs>| r == #[trigger] recordings_dir_from(dirs),
{
    let dirs = platform_dirs();
    recordings_dir_in(&dirs)
}

/// For the same platform directories, the history file and the history
/// audio directory lie in one history directory, `history` under the data
/// directory, and recordings lie beside it under the same data directory.
pub proof fn law_history_files_share_the_data_dir(dirs: Option<ProjectDirs>)
    ensures
        history_path_from(dirs) == path_joined(path_joined(data_dir_from(dirs), "history"@), "entries.jsonl"@),
        history_audio_dir_from(dirs) == path_joined(path_joined(data_dir_from(dirs), "history"@), "audio"@),
        recordings_dir_from(dirs) == path_joined(data_dir_from(dirs), "recordings"@),
{
}

} // verus!
