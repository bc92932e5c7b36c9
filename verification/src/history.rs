//! Transcript history: file names of saved audio, the one-line preview of
//! an entry, and which entries a clean-up or a deletion keeps.
use vstd::prelude::*;
use std::path::PathBuf;
use crate::chars::{chars_of, push_str, str_eq, string_from_chars, trim, trim_chars};
use directories::ProjectDirs;
use crate::paths::{data_dir_from, history_audio_dir_from, history_audio_dir_in, path_join, path_joined, platform_dirs};

verus! {

/// A preview keeps at most this many characters of the line.
pub const PREVIEW_CHARS: usize = 72;

/// The file name of the audio of entry `id`: the id with `.wav` appended.
pub fn audio_stem(id: &str) -> (r: String)
    ensures
        r@ == id@ + ".wav"@,
{
    let mut v = chars_of(id);
    push_str(&mut v, ".wav");
    string_from_chars(v.as_slice())
}

/// The path of the audio of entry `id` for the platform directories `dirs`.
pub open spec fn audio_path_from(dirs: Option<ProjectDirs>, id: Seq<char>) -> PathBuf {
    path_joined(history_audio_dir_from(dirs), id + ".wav"@)
}

/// The path of the audio of entry `id` under the platform directories
/// `dirs`.
pub fn audio_path_in(dirs: &Option<ProjectDirs>, id: &str) -> (r: PathBuf)
    ensures
        r == audio_path_from(*dirs, id@),
{
    let stem = audio_stem(id);
    let audio_dir = history_audio_dir_in(dirs);
    path_join(&audio_dir, stem.as_str())
}

/// The full path of the audio of entry `id`, in the history audio directory.
pub fn audio_path(id: &str) -> (r: PathBuf)
    ensures
        exists|dirs: Option<ProjectDirs>| r == #[trigger] audio_path_from(dirs, id@),
{
    let dirs = platform_dirs();
    audio_path_in(&dirs, id)
}

/// The path of the saved audio file `name` of an entry, in the history
/// audio directory under the platform directories `dirs`; none when the
/// entry has no audio.
pub fn stored_audio_path_in(dirs: &Option<ProjectDirs>, audio: &Option<String>) -> (r: Option<PathBuf>)
    ensures
        match audio {
            None => r is None,
            Some(name) => r == Some(path_joined(history_audio_dir_from(*dirs), name@)),
        },
{
    match audio {
        None => None,
        Some(name) => {
            let audio_dir = history_audio_dir_in(dirs);
            Some(path_join(&audio_dir, name.as_str()))
        },
    }
}

/// The path of the saved audio file `name` of an entry, in the history
/// audio directory; none when the entry has no audio.
pub fn stored_audio_path(audio: &Option<String>) -> (r: Option<PathBuf>)
    ensures
        match audio {
            None => r is None,
            Some(name) => exists|dirs: Option<ProjectDirs>| r == Some(
                path_joined(#[trigger] history_audio_dir_from(dirs), name@),
            ),
        },
{
    let dirs = platform_dirs();
    stored_audio_path_in(&dirs, audio)
}

/// For the same platform directories, the audio of entry `id` is the file
/// named `audio_stem(id)` in the history audio directory, under `history`
/// in the data directory; so an entry whose audio is that file name finds
/// its audio at the audio path of its id.
pub proof fn law_audio_path_is_the_stem_in_the_audio_dir(dirs: Option<ProjectDirs>, id: Seq<char>)
    ensures
        audio_path_from(dirs, id) == path_joined(history_audio_dir_from(dirs), id + ".wav"@),
        audio_path_from(dirs, id) == path_joined(
            path_joined(path_joined(data_dir_from(dirs), "history"@), "audio"@),
            id + ".wav"@,
        ),
{
}

/// The text of an entry on one line: trimmed, with line breaks turned
/// into spaces.
pub open spec fn preview_line(s: Seq<char>) -> Seq<char> {
    trim(s).map_values(|c: char| if c == '\n' { ' ' } else { c })
}

/// The preview of a text: its line when that is at most 72 characters
/// long, else the first 72 characters followed by `…`.
pub open spec fn preview_spec(s: Seq<char>) -> Seq<char> {
    let line = preview_line(s);
    if line.len() > PREVIEW_CHARS {
        line.take(PREVIEW_CHARS as int) + seq!['…']
    } else {
        line
    }
}

/// The one-line preview of an entry's text (see `preview_spec`).
pub fn preview_text(text: &str) -> (r: String)
    ensures
        r@ == preview_spec(text@),
{
    let t = chars_of(text);
    let trimmed = trim_chars(t.as_slice());
    let n: usize = if trimmed.len() > PREVIEW_CHARS { PREVIEW_CHARS } else { trimmed.len() };
    let mut line: Vec<char> = Vec::new();
    let mut i: usize = 0;
    while i < n
        invariant
            n <= trimmed@.len(),
            i <= n,
            line@ == trimmed@.take(i as int).map_values(|c: char| if c == '\n' { ' ' } else { c }),
        decreases n - i,
    {
        let c = trimmed[i];
        line.push(if c == '\n' { ' ' } else { c });
        proof {
            assert(trimmed@.take(i + 1).map_values(|c: char| if c == '\n' { ' ' } else { c })
                =~= line@);
        }
        i += 1;
    }
    let ghost full = preview_line(text@);
    proof {
        assert(full.len() == trimmed@.len());
        assert(line@ =~= full.take(n as int));
    }
    if trimmed.len() > PREVIEW_CHARS {
        line.push('…');
    } else {
        proof {
            assert(full.take(n as int) =~= full);
        }
    }
    string_from_chars(line.as_slice())
}

/// The positions, in order, of the entries a clean-up keeps: those created
/// at or after `cutoff`; the others are removed.
pub open spec fn kept_after_cutoff(created_at: Seq<i64>, cutoff: i64) -> Seq<int>
    decreases created_at.len(),
{
    if created_at.len() == 0 {
        Seq::<int>::empty()
    } else {
        let prev = kept_after_cutoff(created_at.drop_last(), cutoff);
        if created_at.last() < cutoff {
            prev
        } else {
            prev.push(created_at.len() - 1)
        }
    }
}

/// Splits entries, given by their creation times, into those a clean-up
/// keeps (their positions, in order) and the number it removes.
pub fn partition_expired(created_at: &[i64], cutoff: i64) -> (r: (Vec<usize>, usize))
    ensures
        r.0@.map_values(|i: usize| i as int) == kept_after_cutoff(created_at@, cutoff),
        r.1 + r.0@.len() == created_at@.len(),
{
    let mut keep: Vec<usize> = Vec::new();
    let mut removed: usize = 0;
    let mut i: usize = 0;
    while i < created_at.len()
        invariant
            i <= created_at@.len(),
            keep@.map_values(|i: usize| i as int) == kept_after_cutoff(created_at@.take(i as int), cutoff),
            removed + keep@.len() == i,
        decreases created_at@.len() - i,
    {
        proof {
            assert(created_at@.take(i + 1).drop_last() =~= created_at@.take(i as int));
        }
        if created_at[i] < cutoff {
            removed = removed + 1;
        } else {
            let ghost before = keep@;
            keep.push(i);
            proof {
                assert(keep@.map_values(|i: usize| i as int) =~= before.map_values(|i: usize| i as int).push(i as int));
            }
        }
        i += 1;
    }
    proof {
        assert(created_at@.take(i as int) =~= created_at@);
    }
    (keep, removed)
}

/// The positions, in order, of the entries whose id is not `id`: what a
/// deletion keeps.
pub open spec fn kept_without_id(ids: Seq<Seq<char>>, id: Seq<char>) -> Seq<int>
    decreases ids.len(),
{
    if ids.len() == 0 {
        Seq::<int>::empty()
    } else {
        let prev = kept_without_id(ids.drop_last(), id);
        if ids.last() == id {
            prev
        } else {
            prev.push(ids.len() - 1)
        }
    }
}

/// The positions of the entries a deletion of `id` keeps.
pub fn entries_without(ids: &[String], id: &str) -> (r: Vec<usize>)
    ensures
        r@.map_values(|i: usize| i as int) == kept_without_id(ids@.map_values(|s: String| s@), id@),
{
    let ghost all = ids@.map_values(|s: String| s@);
    let mut keep: Vec<usize> = Vec::new();
    let mut i: usize = 0;
    while i < ids.len()
        invariant
            i <= ids@.len(),
            all == ids@.map_values(|s: String| s@),
            keep@.map_values(|i: usize| i as int) == kept_without_id(all.take(i as int), id@),
        decreases ids@.len() - i,
    {
        proof {
            assert(all.take(i + 1).drop_last() =~= all.take(i as int));
        }
        if !str_eq(ids[i].as_str(), id) {
            let ghost before = keep@;
            keep.push(i);
            proof {
                assert(keep@.map_values(|i: usize| i as int) =~= before.map_values(|i: usize| i as int).push(i as int));
            }
        }
        i += 1;
    }
    proof {
        assert(all.take(i as int) =~= all);
    }
    keep
}

} // verus!
