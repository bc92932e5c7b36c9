//! Transcript clean-up: control characters, whitespace, CJK spacing and
//! punctuation, Chinese variant conversion, the user dictionary and spoken
//! commands.
use vstd::prelude::*;
use vstd::string::StringExecFns;
use crate::chars::{
    chars_of, is_alnum, is_ascii_alphanumeric, is_ascii_digit, is_control, is_ctrl, is_digit,
    is_blank, is_whitespace, is_ws, occurs_at, occurs_at_exec, seq_eq, trim, push_chars, string_from_chars, utf8_len,
};
use crate::config::{
    ChineseVariant, DictionaryEntry, TextProcessingConfig, VoiceCommand, VoiceCommandAction,
};
use crate::error::{AppError, AppResult};

verus! {

#[derive(Debug, Clone, Copy, PartialEq, Eq, Structural)]
pub enum DeliveryMode {
    Normal,
    CopyOnly,
    Discard,
}

pub struct ProcessedTranscript {
    pub text: String,
    pub delivery: DeliveryMode,
}

// ---------------------------------------------------------------------------
// Specification
// ---------------------------------------------------------------------------

/// The CJK ideograph blocks (Extension A, Unified, Compatibility).
pub open spec fn is_cjk_char(c: char) -> bool {
    let u = c as u32;
    (0x3400 <= u <= 0x4DBF) || (0x4E00 <= u <= 0x9FFF) || (0xF900 <= u <= 0xFAFF)
}

pub open spec fn is_cjk_punct(c: char) -> bool {
    c == '，' || c == '。' || c == '！' || c == '？' || c == '：' || c == '；'
}

/// An ASCII letter, digit or underscore.
pub open spec fn is_word_char(c: char) -> bool {
    is_alnum(c) || c == '_'
}

/// The characters that survive the first clean-up step.
pub open spec fn keeps(c: char) -> bool {
    !is_ctrl(c) && c != '\u{feff}' && c != '\u{fffd}'
}

/// The characters of `s` that `keeps` accepts, in order.
pub open spec fn strip_unwanted(s: Seq<char>) -> Seq<char>
    decreases s.len(),
{
    if s.len() == 0 {
        s
    } else if keeps(s.last()) {
        strip_unwanted(s.drop_last()).push(s.last())
    } else {
        strip_unwanted(s.drop_last())
    }
}

/// The maximal runs of non-whitespace characters of `s` (`str::split_whitespace`).
pub open spec fn words(s: Seq<char>) -> Seq<Seq<char>>
    decreases s.len(),
{
    if s.len() == 0 {
        seq![]
    } else {
        let w = words(s.drop_last());
        let c = s.last();
        if is_ws(c) {
            w
        } else if s.len() >= 2 && !is_ws(s[s.len() - 2]) {
            w.update(w.len() - 1, w.last().push(c))
        } else {
            w.push(seq![c])
        }
    }
}

/// The words joined by single spaces (`join(" ")`).
pub open spec fn join_words(w: Seq<Seq<char>>) -> Seq<char>
    decreases w.len(),
{
    if w.len() == 0 {
        seq![]
    } else if w.len() == 1 {
        w[0]
    } else {
        join_words(w.drop_last()) + seq![' '] + w.last()
    }
}

pub open spec fn collapse_ws(s: Seq<char>) -> Seq<char> {
    join_words(words(s))
}

/// The characters of `s` at indices below `n` for which `drop` is false, in order.
pub open spec fn select_prefix(s: Seq<char>, drop: spec_fn(int) -> bool, n: int) -> Seq<char>
    decreases n,
{
    if n <= 0 {
        seq![]
    } else {
        select_prefix(s, drop, n - 1) + if drop(n - 1) {
            Seq::<char>::empty()
        } else {
            seq![s[n - 1]]
        }
    }
}

/// A single space between two CJK ideographs.
pub open spec fn cjk_gap(s: Seq<char>, i: int) -> bool {
    0 < i && i + 1 < s.len() && s[i] == ' ' && is_cjk_char(s[i - 1]) && is_cjk_char(s[i + 1])
}

pub open spec fn fix_cjk_spacing_spec(s: Seq<char>) -> Seq<char> {
    select_prefix(s, |i: int| cjk_gap(s, i), s.len() as int)
}

/// `s` followed by a space unless it already ends with whitespace.
pub open spec fn with_trailing_space(s: Seq<char>, append_space: bool) -> Seq<char> {
    if append_space && !(s.len() > 0 && is_ws(s.last())) {
        s.push(' ')
    } else {
        s
    }
}

/// The transcript with control characters, BOM and replacement characters
/// dropped, whitespace runs collapsed to single spaces, surrounding
/// whitespace removed, and spaces between CJK ideographs removed.
pub open spec fn clean_spec(text: Seq<char>, append_space: bool) -> Seq<char> {
    with_trailing_space(fix_cjk_spacing_spec(collapse_ws(strip_unwanted(text))), append_space)
}

/// The nearest non-whitespace character before index `i`.
pub open spec fn left_nonws(s: Seq<char>, i: int) -> Option<char>
    decreases i,
{
    if i <= 0 {
        None
    } else if !is_ws(s[i - 1]) {
        Some(s[i - 1])
    } else {
        left_nonws(s, i - 1)
    }
}

/// The nearest non-whitespace character after index `i`.
pub open spec fn right_nonws(s: Seq<char>, i: int) -> Option<char>
    decreases s.len() - i,
{
    if i + 1 >= s.len() {
        None
    } else if !is_ws(s[i + 1]) {
        Some(s[i + 1])
    } else {
        right_nonws(s, i + 1)
    }
}

pub open spec fn opt_cjk(o: Option<char>) -> bool {
    o matches Some(c) && is_cjk_char(c)
}

pub open spec fn opt_digit(o: Option<char>) -> bool {
    o matches Some(c) && is_digit(c)
}

/// The character at `i` after ASCII punctuation next to CJK text became full-width.
pub open spec fn punct_at(s: Seq<char>, i: int) -> char {
    let l = left_nonws(s, i);
    let r = right_nonws(s, i);
    let c = s[i];
    if opt_cjk(l) || opt_cjk(r) {
        if c == ',' {
            '，'
        } else if c == '.' && !(opt_digit(l) && opt_digit(r)) {
            '。'
        } else if c == '!' {
            '！'
        } else if c == '?' {
            '？'
        } else if c == ':' {
            '：'
        } else if c == ';' {
            '；'
        } else {
            c
        }
    } else {
        c
    }
}

pub open spec fn widen_punctuation(s: Seq<char>) -> Seq<char> {
    Seq::new(s.len(), |i: int| punct_at(s, i))
}

/// An ASCII period is widened by its nearest non-whitespace neighbours: it
/// becomes `。` when either neighbour is a CJK ideograph, unless both are
/// ASCII digits (a decimal point), and it stays `.` otherwise.
pub proof fn law_period_next_to_ideographs(s: Seq<char>, i: int)
    requires
        0 <= i < s.len(),
        s[i] == '.',
    ensures
        (opt_cjk(left_nonws(s, i)) || opt_cjk(right_nonws(s, i))) && !(opt_digit(left_nonws(s, i)) && opt_digit(
            right_nonws(s, i),
        )) ==> widen_punctuation(s)[i] == '。',
        opt_digit(left_nonws(s, i)) && opt_digit(right_nonws(s, i)) ==> widen_punctuation(s)[i] == '.',
        !opt_cjk(left_nonws(s, i)) && !opt_cjk(right_nonws(s, i)) ==> widen_punctuation(s)[i] == '.',
{
}

/// Widening keeps the length and only touches ASCII punctuation next to
/// ideographs: `,` `!` `?` `:` `;` with a CJK ideograph as nearest
/// non-whitespace neighbour on either side become `，` `！` `？` `：` `；`;
/// without such a neighbour every character stays, and a character other
/// than these and `.` always stays.
pub proof fn law_punctuation_widened_next_to_ideographs(s: Seq<char>, i: int)
    requires
        0 <= i < s.len(),
    ensures
        widen_punctuation(s).len() == s.len(),
        ({
            let near_cjk = opt_cjk(left_nonws(s, i)) || opt_cjk(right_nonws(s, i));
            let w = widen_punctuation(s)[i];
            &&& near_cjk && s[i] == ',' ==> w == '，'
            &&& near_cjk && s[i] == '!' ==> w == '！'
            &&& near_cjk && s[i] == '?' ==> w == '？'
            &&& near_cjk && s[i] == ':' ==> w == '：'
            &&& near_cjk && s[i] == ';' ==> w == '；'
            &&& !near_cjk ==> w == s[i]
            &&& s[i] != ',' && s[i] != '.' && s[i] != '!' && s[i] != '?' && s[i] != ':' && s[i] != ';' ==> w == s[i]
        }),
{
}

/// A space next to full-width CJK punctuation.
pub open spec fn space_by_cjk_punct(s: Seq<char>, i: int) -> bool {
    s[i] == ' ' && ((i > 0 && is_cjk_punct(s[i - 1])) || (i + 1 < s.len() && is_cjk_punct(
        s[i + 1],
    )))
}

pub open spec fn remove_spaces_spec(s: Seq<char>) -> Seq<char> {
    select_prefix(s, |i: int| space_by_cjk_punct(s, i), s.len() as int)
}

pub open spec fn normalize_punctuation_spec(s: Seq<char>) -> Seq<char> {
    remove_spaces_spec(widen_punctuation(s))
}

/// What the OpenCC-style converter of `zhhz` makes of `text`, towards
/// Taiwan Traditional when `to_traditional`, else towards Simplified.
pub uninterp spec fn zhhz_converted(to_traditional: bool, text: Seq<char>) -> Seq<char>;

pub open spec fn convert_spec(s: Seq<char>, variant: ChineseVariant) -> Seq<char> {
    match variant {
        ChineseVariant::Preserve => s,
        ChineseVariant::Traditional => zhhz_converted(true, s),
        ChineseVariant::Simplified => zhhz_converted(false, s),
    }
}

pub open spec fn entries_view(d: Seq<DictionaryEntry>) -> Seq<(Seq<char>, Seq<char>)> {
    d.map_values(|e: DictionaryEntry| (e.source@, e.replacement@))
}

/// `source` may be replaced at `i`: it occurs there, and it neither starts
/// nor ends in the middle of an ASCII word.
pub open spec fn entry_matches(text: Seq<char>, i: int, source: Seq<char>) -> bool {
    &&& source.len() > 0
    &&& occurs_at(text, i, source)
    &&& (!is_word_char(source[0]) || i == 0 || !is_word_char(text[i - 1]))
    &&& (!is_word_char(source.last()) || i + source.len() >= text.len() || !is_word_char(
        text[i + source.len()],
    ))
}

/// Among the first `n` entries that match at `i`, the first one of greatest
/// UTF-8 length.
pub open spec fn best_entry(entries: Seq<(Seq<char>, Seq<char>)>, text: Seq<char>, i: int, n: int) -> Option<int>
    decreases n,
{
    if n <= 0 {
        None
    } else {
        let b = best_entry(entries, text, i, n - 1);
        if entry_matches(text, i, entries[n - 1].0) && (b is None || utf8_len(entries[n - 1].0)
            > utf8_len(entries[b->0].0)) {
            Some(n - 1)
        } else {
            b
        }
    }
}

pub proof fn lemma_best_entry(entries: Seq<(Seq<char>, Seq<char>)>, text: Seq<char>, i: int, n: int)
    requires
        n <= entries.len(),
    ensures
        best_entry(entries, text, i, n) matches Some(j) ==> 0 <= j < n && entry_matches(
            text,
            i,
            entries[j].0,
        ),
    decreases n,
{
    if n > 0 {
        lemma_best_entry(entries, text, i, n - 1);
    }
}

proof fn lemma_best_entry_is_longest(entries: Seq<(Seq<char>, Seq<char>)>, text: Seq<char>, i: int, n: int)
    requires
        0 <= n <= entries.len(),
    ensures
        best_entry(entries, text, i, n) is None ==> forall|k: int| 0 <= k < n ==> !entry_matches(
            text,
            i,
            #[trigger] entries[k].0,
        ),
        best_entry(entries, text, i, n) matches Some(j) ==> {
            &&& 0 <= j < n
            &&& entry_matches(text, i, entries[j].0)
            &&& forall|k: int| 0 <= k < n && entry_matches(text, i, #[trigger] entries[k].0) ==> utf8_len(
                entries[k].0,
            ) <= utf8_len(entries[j].0)
            &&& forall|k: int| 0 <= k < j && entry_matches(text, i, #[trigger] entries[k].0) ==> utf8_len(
                entries[k].0,
            ) < utf8_len(entries[j].0)
        },
    decreases n,
{
    if n > 0 {
        lemma_best_entry_is_longest(entries, text, i, n - 1);
    }
}

/// Where any dictionary entry matches at `i`, the text from `i` on begins
/// with the replacement of a matching entry whose source is at least as
/// long in UTF-8 as every other matching source, the first listed among
/// equally long ones, and goes on after that source; where none matches,
/// the character at `i` is kept.
pub proof fn law_longest_source_wins(entries: Seq<(Seq<char>, Seq<char>)>, text: Seq<char>, i: int)
    requires
        0 <= i < text.len(),
    ensures
        (forall|k: int| 0 <= k < entries.len() ==> !entry_matches(text, i, #[trigger] entries[k].0)) ==> dict_from(
            entries,
            text,
            i,
        ) == seq![text[i]] + dict_from(entries, text, i + 1),
        (exists|k: int| 0 <= k < entries.len() && entry_matches(text, i, #[trigger] entries[k].0)) ==> exists|j: int|
            {
                &&& 0 <= j < entries.len()
                &&& entry_matches(text, i, #[trigger] entries[j].0)
                &&& forall|k: int| 0 <= k < entries.len() && entry_matches(text, i, #[trigger] entries[k].0)
                    ==> utf8_len(entries[k].0) <= utf8_len(entries[j].0)
                &&& forall|k: int| 0 <= k < j && entry_matches(text, i, #[trigger] entries[k].0) ==> utf8_len(
                    entries[k].0,
                ) < utf8_len(entries[j].0)
                &&& dict_from(entries, text, i) == entries[j].1 + dict_from(entries, text, i + entries[j].0.len())
            },
{
    lemma_best_entry_is_longest(entries, text, i, entries.len() as int);
}

/// The dictionary applied once to `text` from index `i` on: at each position
/// the best matching entry is replaced and skipped, otherwise one character
/// is copied; replacements are never scanned again.
pub open spec fn dict_from(entries: Seq<(Seq<char>, Seq<char>)>, text: Seq<char>, i: int) -> Seq<char>
    decreases text.len() - i,
{
    if i < 0 || i >= text.len() {
        seq![]
    } else {
        match best_entry(entries, text, i, entries.len() as int) {
            Some(j) => {
                proof {
                    lemma_best_entry(entries, text, i, entries.len() as int);
                }
                entries[j].1 + dict_from(entries, text, i + entries[j].0.len())
            },
            None => seq![text[i]] + dict_from(entries, text, i + 1),
        }
    }
}

pub open spec fn dictionary_spec(d: Seq<DictionaryEntry>, text: Seq<char>) -> Seq<char> {
    dict_from(entries_view(d), text, 0)
}

/// Punctuation (when enabled), variant conversion and dictionary applied to
/// an already cleaned transcript.
pub open spec fn format_cleaned_spec(s: Seq<char>, config: TextProcessingConfig, append_space: bool) -> Seq<char> {
    let a = if config.normalize_chinese_punctuation {
        normalize_punctuation_spec(s)
    } else {
        s
    };
    let b = convert_spec(a, config.chinese_variant);
    with_trailing_space(dictionary_spec(config.dictionary@, b), append_space)
}

/// The index of the first command whose phrase is `target`, among the first `n`.
pub open spec fn first_command(cmds: Seq<VoiceCommand>, target: Seq<char>, n: int) -> Option<int>
    decreases n,
{
    if n <= 0 {
        None
    } else {
        match first_command(cmds, target, n - 1) {
            Some(k) => Some(k),
            None => if cmds[n - 1].phrase@ == target {
                Some(n - 1)
            } else {
                None
            },
        }
    }
}

/// The command, if any, that a transcript triggers under `config`.
pub open spec fn triggered_command(text: Seq<char>, config: TextProcessingConfig) -> Option<int> {
    if config.voice_commands_enabled {
        first_command(config.voice_commands@, clean_spec(text, false), config.voice_commands@.len() as int)
    } else {
        None
    }
}

// ---------------------------------------------------------------------------
// Helpers on character vectors
// ---------------------------------------------------------------------------

pub fn is_cjk(c: char) -> (b: bool)
    ensures
        b == is_cjk_char(c),
{
    let u = c as u32;
    (0x3400 <= u && u <= 0x4DBF) || (0x4E00 <= u && u <= 0x9FFF) || (0xF900 <= u && u <= 0xFAFF)
}

pub fn is_cjk_punctuation(c: char) -> (b: bool)
    ensures
        b == is_cjk_punct(c),
{
    c == '，' || c == '。' || c == '！' || c == '？' || c == '：' || c == '；'
}

pub fn is_ascii_word(c: char) -> (b: bool)
    ensures
        b == is_word_char(c),
{
    is_ascii_alphanumeric(c) || c == '_'
}

proof fn lemma_select_prefix_step(s: Seq<char>, drop: spec_fn(int) -> bool, n: int)
    requires
        n >= 0,
    ensures
        select_prefix(s, drop, n + 1) == select_prefix(s, drop, n) + if drop(n) {
            Seq::<char>::empty()
        } else {
            seq![s[n]]
        },
{
}

fn strip_unwanted_exec(s: &Vec<char>) -> (r: Vec<char>)
    ensures
        r@ == strip_unwanted(s@),
{
    let mut r: Vec<char> = Vec::new();
    let mut i: usize = 0;
    while i < s.len()
        invariant
            i <= s.len(),
            r@ == strip_unwanted(s@.take(i as int)),
        decreases s.len() - i,
    {
        let c = s[i];
        proof {
            assert(s@.take(i + 1).drop_last() =~= s@.take(i as int));
            assert(s@.take(i + 1).last() == c);
        }
        if !is_control(c) && c != '\u{feff}' && c != '\u{fffd}' {
            r.push(c);
        }
        i += 1;
    }
    proof {
        assert(s@.take(i as int) =~= s@);
    }
    r
}

proof fn lemma_join_extend(w: Seq<Seq<char>>, c: char)
    requires
        w.len() >= 1,
    ensures
        join_words(w.update(w.len() - 1, w.last().push(c))) == join_words(w).push(c),
{
    let w2 = w.update(w.len() - 1, w.last().push(c));
    if w.len() > 1 {
        assert(w2.drop_last() =~= w.drop_last());
        assert(join_words(w2) =~= join_words(w).push(c));
    }
}

proof fn lemma_join_push(w: Seq<Seq<char>>, x: Seq<char>)
    ensures
        join_words(w.push(x)) == if w.len() == 0 {
            x
        } else {
            join_words(w) + seq![' '] + x
        },
{
    assert(w.push(x).drop_last() =~= w);
}

proof fn lemma_words_nonempty(s: Seq<char>)
    requires
        s.len() > 0,
        !is_ws(s.last()),
    ensures
        words(s).len() > 0,
    decreases s.len(),
{
    if s.len() >= 2 && !is_ws(s[s.len() - 2]) {
        lemma_words_nonempty(s.drop_last());
    }
}

/// Every word is non-empty and holds no whitespace.
pub open spec fn solid_words(w: Seq<Seq<char>>) -> bool {
    forall|k: int| 0 <= k < w.len() ==> (#[trigger] w[k]).len() > 0 && forall|j: int|
        0 <= j < w[k].len() ==> !is_ws(w[k][j])
}

/// Empty, or ending in a character that is not whitespace.
pub open spec fn ends_without_ws(s: Seq<char>) -> bool {
    s.len() == 0 || !is_ws(s.last())
}

proof fn lemma_words_solid(s: Seq<char>)
    ensures
        solid_words(words(s)),
    decreases s.len(),
{
    if s.len() > 0 {
        let p = s.drop_last();
        lemma_words_solid(p);
        let w = words(p);
        let c = s.last();
        if !is_ws(c) && s.len() >= 2 && !is_ws(s[s.len() - 2]) {
            assert(p.last() == s[s.len() - 2]);
            lemma_words_nonempty(p);
            let w2 = w.update(w.len() - 1, w.last().push(c));
            assert forall|k: int| 0 <= k < w2.len() implies (#[trigger] w2[k]).len() > 0 && forall|j: int|
                0 <= j < w2[k].len() ==> !is_ws(w2[k][j]) by {
                if k == w.len() - 1 {
                    assert(w2[k] == w[k].push(c));
                    assert forall|j: int| 0 <= j < w2[k].len() implies !is_ws(w2[k][j]) by {
                        if j < w[k].len() {
                            assert(w2[k][j] == w[k][j]);
                        }
                    }
                } else {
                    assert(w2[k] == w[k]);
                }
            }
        } else if !is_ws(c) {
            let w2 = w.push(seq![c]);
            assert forall|k: int| 0 <= k < w2.len() implies (#[trigger] w2[k]).len() > 0 && forall|j: int|
                0 <= j < w2[k].len() ==> !is_ws(w2[k][j]) by {
                if k < w.len() {
                    assert(w2[k] == w[k]);
                } else {
                    assert(w2[k] == seq![c]);
                }
            }
        }
    }
}

proof fn lemma_join_ends_without_ws(w: Seq<Seq<char>>)
    requires
        solid_words(w),
    ensures
        ends_without_ws(join_words(w)),
        (join_words(w).len() == 0) == (w.len() == 0),
    decreases w.len(),
{
    if w.len() > 1 {
        assert(solid_words(w.drop_last())) by {
            assert forall|k: int| 0 <= k < w.drop_last().len() implies (#[trigger] w.drop_last()[k]).len() > 0
                && forall|j: int| 0 <= j < w.drop_last()[k].len() ==> !is_ws(w.drop_last()[k][j]) by {
                assert(w.drop_last()[k] == w[k]);
            }
        }
        lemma_join_ends_without_ws(w.drop_last());
        let x = w[w.len() - 1];
        assert(x.len() > 0);
        assert(!is_ws(x[x.len() - 1]));
    } else if w.len() == 1 {
        let x = w[0];
        assert(x.len() > 0);
        assert(!is_ws(x[x.len() - 1]));
    }
}

/// Dropping spaces between ideographs never drops the last character.
proof fn lemma_fix_cjk_keeps_end(s: Seq<char>)
    ensures
        s.len() == 0 ==> fix_cjk_spacing_spec(s).len() == 0,
        s.len() > 0 ==> fix_cjk_spacing_spec(s).len() > 0 && fix_cjk_spacing_spec(s).last() == s.last(),
{
    if s.len() > 0 {
        let drop = |i: int| cjk_gap(s, i);
        lemma_select_prefix_step(s, drop, s.len() - 1);
        assert(!drop(s.len() - 1));
    }
}

/// The cleaned text, before any trailing space, never ends in whitespace.
proof fn lemma_cleaned_ends_without_ws(text: Seq<char>)
    ensures
        ends_without_ws(fix_cjk_spacing_spec(collapse_ws(strip_unwanted(text)))),
{
    let w = words(strip_unwanted(text));
    lemma_words_solid(strip_unwanted(text));
    lemma_join_ends_without_ws(w);
    lemma_fix_cjk_keeps_end(join_words(w));
}

/// Asking for a trailing space appends exactly one space to the cleaned
/// text, the empty text included.
pub proof fn law_trailing_space_is_one_space(text: Seq<char>)
    ensures
        clean_spec(text, true) == clean_spec(text, false).push(' '),
{
    lemma_cleaned_ends_without_ws(text);
}

/// Single spaces only, each between two characters that are not whitespace.
pub open spec fn normal_spacing(s: Seq<char>) -> bool {
    forall|i: int| 0 <= i < s.len() && is_ws(#[trigger] s[i]) ==> s[i] == ' ' && 0 < i && i + 1 < s.len()
        && !is_ws(s[i - 1]) && !is_ws(s[i + 1])
}

/// Every character is one that the first clean-up step keeps.
pub open spec fn all_kept(s: Seq<char>) -> bool {
    forall|i: int| 0 <= i < s.len() ==> keeps(#[trigger] s[i])
}

/// Every word holds only characters that the first clean-up step keeps.
pub open spec fn kept_words(w: Seq<Seq<char>>) -> bool {
    forall|k: int| 0 <= k < w.len() ==> all_kept(#[trigger] w[k])
}

proof fn lemma_strip_all_kept(t: Seq<char>)
    ensures
        all_kept(strip_unwanted(t)),
    decreases t.len(),
{
    if t.len() > 0 {
        lemma_strip_all_kept(t.drop_last());
        let p = strip_unwanted(t.drop_last());
        if keeps(t.last()) {
            let q = p.push(t.last());
            assert forall|i: int| 0 <= i < q.len() implies keeps(#[trigger] q[i]) by {
                if i < p.len() {
                    assert(q[i] == p[i]);
                }
            }
        }
    }
}

proof fn lemma_strip_keeps_kept(s: Seq<char>)
    requires
        all_kept(s),
    ensures
        strip_unwanted(s) == s,
    decreases s.len(),
{
    if s.len() > 0 {
        let p = s.drop_last();
        assert forall|i: int| 0 <= i < p.len() implies keeps(#[trigger] p[i]) by {
            assert(p[i] == s[i]);
        }
        lemma_strip_keeps_kept(p);
        assert(keeps(s[s.len() - 1]));
        assert(p.push(s.last()) =~= s);
    }
}

proof fn lemma_words_kept(s: Seq<char>)
    requires
        all_kept(s),
    ensures
        kept_words(words(s)),
    decreases s.len(),
{
    if s.len() > 0 {
        let p = s.drop_last();
        assert forall|i: int| 0 <= i < p.len() implies keeps(#[trigger] p[i]) by {
            assert(p[i] == s[i]);
        }
        lemma_words_kept(p);
        let w = words(p);
        let c = s.last();
        assert(keeps(s[s.len() - 1]));
        if !is_ws(c) && s.len() >= 2 && !is_ws(s[s.len() - 2]) {
            assert(p.last() == s[s.len() - 2]);
            lemma_words_nonempty(p);
            let w2 = w.update(w.len() - 1, w.last().push(c));
            assert forall|k: int| 0 <= k < w2.len() implies all_kept(#[trigger] w2[k]) by {
                if k == w.len() - 1 {
                    assert(w2[k] == w[k].push(c));
                    assert forall|j: int| 0 <= j < w2[k].len() implies keeps(#[trigger] w2[k][j]) by {
                        if j < w[k].len() {
                            assert(w2[k][j] == w[k][j]);
                        }
                    }
                } else {
                    assert(w2[k] == w[k]);
                }
            }
        } else if !is_ws(c) {
            let w2 = w.push(seq![c]);
            assert forall|k: int| 0 <= k < w2.len() implies all_kept(#[trigger] w2[k]) by {
                if k < w.len() {
                    assert(w2[k] == w[k]);
                } else {
                    assert(w2[k] == seq![c]);
                    assert forall|j: int| 0 <= j < w2[k].len() implies keeps(#[trigger] w2[k][j]) by {
                        assert(w2[k][j] == c);
                    }
                }
            }
        }
    }
}

/// Words joined by single spaces are normally spaced, and keep only kept
/// characters.
proof fn lemma_join_normal(w: Seq<Seq<char>>)
    requires
        solid_words(w),
        kept_words(w),
    ensures
        normal_spacing(join_words(w)),
        all_kept(join_words(w)),
    decreases w.len(),
{
    if w.len() == 1 {
        let x = w[0];
        assert(all_kept(x));
        assert forall|i: int| 0 <= i < x.len() && is_ws(#[trigger] x[i]) implies x[i] == ' ' && 0 < i && i + 1
            < x.len() && !is_ws(x[i - 1]) && !is_ws(x[i + 1]) by {
            assert(!is_ws(x[i]));
        }
    } else if w.len() > 1 {
        let d = w.drop_last();
        assert(solid_words(d)) by {
            assert forall|k: int| 0 <= k < d.len() implies (#[trigger] d[k]).len() > 0 && forall|j: int|
                0 <= j < d[k].len() ==> !is_ws(d[k][j]) by {
                assert(d[k] == w[k]);
            }
        }
        assert(kept_words(d)) by {
            assert forall|k: int| 0 <= k < d.len() implies all_kept(#[trigger] d[k]) by {
                assert(d[k] == w[k]);
            }
        }
        lemma_join_normal(d);
        lemma_join_ends_without_ws(d);
        let j = join_words(d);
        let x = w[w.len() - 1];
        assert(x.len() > 0 && all_kept(x));
        let r = j + seq![' '] + x;
        assert(join_words(w) == r);
        assert forall|i: int| 0 <= i < r.len() && is_ws(#[trigger] r[i]) implies r[i] == ' ' && 0 < i && i + 1
            < r.len() && !is_ws(r[i - 1]) && !is_ws(r[i + 1]) by {
            if i < j.len() {
                assert(r[i] == j[i]);
                assert(is_ws(j[i]));
                assert(r[i - 1] == j[i - 1]);
                assert(r[i + 1] == j[i + 1]);
            } else if i == j.len() {
                assert(r[i - 1] == j[j.len() - 1]);
                assert(r[i + 1] == x[0]);
            } else {
                assert(r[i] == x[i - j.len() - 1]);
            }
        }
        assert forall|i: int| 0 <= i < r.len() implies keeps(#[trigger] r[i]) by {
            if i < j.len() {
                assert(r[i] == j[i]);
            } else if i > j.len() {
                assert(r[i] == x[i - j.len() - 1]);
            }
        }
    }
}

/// Collapsing whitespace rebuilds every prefix of a normally spaced text,
/// but for a space it ends with.
proof fn lemma_collapse_prefix(s: Seq<char>, n: int)
    requires
        normal_spacing(s),
        0 <= n <= s.len(),
    ensures
        join_words(words(s.take(n))) == (if n > 0 && is_ws(s[n - 1]) {
            s.take(n - 1)
        } else {
            s.take(n)
        }),
        (words(s.take(n)).len() == 0) == (n == 0),
    decreases n,
{
    if n > 0 {
        let p = s.take(n);
        let q = s.take(n - 1);
        assert(p.drop_last() =~= q);
        let c = s[n - 1];
        assert(p.last() == c);
        lemma_collapse_prefix(s, n - 1);
        if is_ws(c) {
            assert(!is_ws(s[n - 2]));
        } else if n >= 2 && !is_ws(s[n - 2]) {
            assert(p[p.len() - 2] == s[n - 2]);
            lemma_join_extend(words(q), c);
            assert(q.push(c) =~= p);
        } else {
            if n >= 2 {
                assert(p[p.len() - 2] == s[n - 2]);
            }
            lemma_join_push(words(q), seq![c]);
            if n == 1 {
                assert(q =~= Seq::<char>::empty());
                assert(p =~= seq![c]);
            } else {
                assert(s[n - 2] == ' ');
                assert(s.take(n - 2) + seq![' '] + seq![c] =~= p);
            }
        }
    }
}

proof fn lemma_collapse_normal(s: Seq<char>)
    requires
        normal_spacing(s),
    ensures
        collapse_ws(s) == s,
{
    lemma_collapse_prefix(s, s.len() as int);
    assert(s.take(s.len() as int) =~= s);
    if s.len() > 0 && is_ws(s[s.len() - 1]) {
        assert(false);
    }
}

/// What dropping the spaces between ideographs has built from the first
/// `n` characters of a normally spaced text.
proof fn lemma_fix_prefix(s: Seq<char>, n: int)
    requires
        normal_spacing(s),
        all_kept(s),
        0 <= n <= s.len(),
    ensures
        ({
            let r = select_prefix(s, |i: int| cjk_gap(s, i), n);
            &&& all_kept(r)
            &&& forall|i: int| 0 <= i < r.len() && is_ws(#[trigger] r[i]) ==> r[i] == ' ' && 0 < i && !is_ws(r[i - 1])
                && (i + 1 < r.len() ==> !is_ws(r[i + 1]))
            &&& forall|i: int| i + 1 < r.len() ==> !#[trigger] cjk_gap(r, i)
            &&& (r.len() == 0) == (n == 0)
            &&& n > 0 && !is_ws(s[n - 1]) ==> r.last() == s[n - 1]
            &&& n > 0 && is_ws(s[n - 1]) && !cjk_gap(s, n - 1) ==> r.len() >= 2 && r.last() == ' ' && r[r.len() - 2]
                == s[n - 2]
            &&& n > 0 && cjk_gap(s, n - 1) ==> r.last() == s[n - 2]
        }),
    decreases n,
{
    if n > 0 {
        let drop = |i: int| cjk_gap(s, i);
        let m = n - 1;
        lemma_fix_prefix(s, m);
        lemma_select_prefix_step(s, drop, m);
        let rm = select_prefix(s, drop, m);
        let rn = select_prefix(s, drop, n);
        assert(keeps(s[m]));
        if !is_ws(s[m]) {
            assert(!drop(m));
            assert(rn =~= rm.push(s[m]));
            assert forall|i: int| 0 <= i < rn.len() implies keeps(#[trigger] rn[i]) by {
                if i < rm.len() {
                    assert(rn[i] == rm[i]);
                }
            }
            assert forall|i: int| 0 <= i < rn.len() && is_ws(#[trigger] rn[i]) implies rn[i] == ' ' && 0 < i && !is_ws(
                rn[i - 1],
            ) && (i + 1 < rn.len() ==> !is_ws(rn[i + 1])) by {
                assert(i < rm.len());
                assert(rn[i] == rm[i]);
                assert(is_ws(rm[i]));
                assert(rn[i - 1] == rm[i - 1]);
                if i + 1 < rm.len() {
                    assert(rn[i + 1] == rm[i + 1]);
                }
            }
            assert forall|i: int| i + 1 < rn.len() implies !#[trigger] cjk_gap(rn, i) by {
                if 0 < i && i + 1 < rm.len() {
                    assert(rn[i - 1] == rm[i - 1] && rn[i] == rm[i] && rn[i + 1] == rm[i + 1]);
                    assert(!cjk_gap(rm, i));
                } else if 0 < i && i == rm.len() - 1 && rn[i] == ' ' {
                    assert(rm.last() == ' ');
                    assert(m > 0);
                    if !is_ws(s[m - 1]) {
                        assert(false);
                    } else if cjk_gap(s, m - 1) {
                        assert(!is_ws(s[m - 2]));
                        assert(false);
                    } else {
                        assert(rn[i - 1] == s[m - 2]);
                        assert(rn[i + 1] == s[m]);
                    }
                }
            }
        } else if !cjk_gap(s, m) {
            assert(!drop(m));
            assert(rn =~= rm.push(s[m]));
            assert(m > 0 && !is_ws(s[m - 1]));
            assert forall|i: int| 0 <= i < rn.len() implies keeps(#[trigger] rn[i]) by {
                if i < rm.len() {
                    assert(rn[i] == rm[i]);
                }
            }
            assert forall|i: int| 0 <= i < rn.len() && is_ws(#[trigger] rn[i]) implies rn[i] == ' ' && 0 < i && !is_ws(
                rn[i - 1],
            ) && (i + 1 < rn.len() ==> !is_ws(rn[i + 1])) by {
                if i < rm.len() {
                    assert(rn[i] == rm[i]);
                    assert(rn[i - 1] == rm[i - 1]);
                    if i + 1 < rm.len() {
                        assert(rn[i + 1] == rm[i + 1]);
                    } else {
                        assert(rm[i] == rm.last());
                    }
                } else {
                    assert(rn[i - 1] == rm.last());
                }
            }
            assert forall|i: int| i + 1 < rn.len() implies !#[trigger] cjk_gap(rn, i) by {
                if 0 < i && i + 1 < rm.len() {
                    assert(rn[i - 1] == rm[i - 1] && rn[i] == rm[i] && rn[i + 1] == rm[i + 1]);
                    assert(!cjk_gap(rm, i));
                } else if i == rm.len() - 1 {
                    assert(rn[i] == rm.last());
                }
            }
        } else {
            assert(drop(m));
            assert(rn =~= rm);
            assert(m > 0 && !is_ws(s[m - 1]));
        }
    }
}

/// Spaces between ideographs dropped from a normally spaced text leave it
/// normally spaced, with no such space left.
proof fn lemma_fix_normal(s: Seq<char>)
    requires
        normal_spacing(s),
        all_kept(s),
    ensures
        normal_spacing(fix_cjk_spacing_spec(s)),
        all_kept(fix_cjk_spacing_spec(s)),
        forall|i: int| !#[trigger] cjk_gap(fix_cjk_spacing_spec(s), i),
{
    lemma_fix_prefix(s, s.len() as int);
    let r = fix_cjk_spacing_spec(s);
    if s.len() > 0 {
        assert(!is_ws(s[s.len() - 1]));
    }
    assert forall|i: int| 0 <= i < r.len() && is_ws(#[trigger] r[i]) implies r[i] == ' ' && 0 < i && i + 1 < r.len()
        && !is_ws(r[i - 1]) && !is_ws(r[i + 1]) by {
        if i + 1 >= r.len() {
            assert(r[i] == r.last());
        }
    }
}

/// A text with no space between two ideographs is left as it is.
proof fn lemma_fix_without_gaps(s: Seq<char>, n: int)
    requires
        forall|i: int| !#[trigger] cjk_gap(s, i),
        0 <= n <= s.len(),
    ensures
        select_prefix(s, |i: int| cjk_gap(s, i), n) == s.take(n),
    decreases n,
{
    if n > 0 {
        lemma_fix_without_gaps(s, n - 1);
        lemma_select_prefix_step(s, |i: int| cjk_gap(s, i), n - 1);
        assert(!cjk_gap(s, n - 1));
        assert(s.take(n - 1) + seq![s[n - 1]] =~= s.take(n));
    }
}

/// The cleaned text holds no control character, byte-order mark or
/// replacement character; its only whitespace is single spaces, each
/// between two other characters; and no space is left between two
/// ideographs.
pub proof fn law_cleaned_text_shape(text: Seq<char>)
    ensures
        all_kept(clean_spec(text, false)),
        normal_spacing(clean_spec(text, false)),
        forall|i: int| !#[trigger] cjk_gap(clean_spec(text, false), i),
{
    let st = strip_unwanted(text);
    lemma_strip_all_kept(text);
    lemma_words_solid(st);
    lemma_words_kept(st);
    lemma_join_normal(words(st));
    lemma_fix_normal(collapse_ws(st));
}

/// Cleaning a transcript a second time changes nothing.
pub proof fn law_cleaning_is_idempotent(text: Seq<char>)
    ensures
        clean_spec(clean_spec(text, false), false) == clean_spec(text, false),
{
    law_cleaned_text_shape(text);
    let x = clean_spec(text, false);
    lemma_strip_keeps_kept(x);
    lemma_collapse_normal(x);
    lemma_fix_without_gaps(x, x.len() as int);
    assert(x.take(x.len() as int) =~= x);
}

fn collapse_ws_exec(s: &Vec<char>) -> (r: Vec<char>)
    ensures
        r@ == collapse_ws(s@),
{
    let mut r: Vec<char> = Vec::new();
    let mut i: usize = 0;
    let mut in_word = false;
    while i < s.len()
        invariant
            i <= s.len(),
            r@ == join_words(words(s@.take(i as int))),
            in_word == (i > 0 && !is_ws(s@[i - 1])),
            (r@.len() == 0) == (words(s@.take(i as int)).len() == 0),
            words(s@.take(i as int)).len() > 0 ==> words(s@.take(i as int)).last().len() > 0,
        decreases s.len() - i,
    {
        let c = s[i];
        let ghost p = s@.take(i as int);
        let ghost q = s@.take(i + 1);
        proof {
            assert(q.drop_last() =~= p);
            assert(q.last() == c);
            if i > 0 {
                assert(q[q.len() - 2] == s@[i - 1]);
            }
        }
        if is_whitespace(c) {
            in_word = false;
        } else if in_word {
            proof {
                lemma_words_nonempty(p);
                lemma_join_extend(words(p), c);
            }
            r.push(c);
        } else {
            proof {
                lemma_join_push(words(p), seq![c]);
            }
            if r.len() > 0 {
                r.push(' ');
            }
            r.push(c);
            proof {
                if words(p).len() > 0 {
                    assert(r@ =~= join_words(words(p)) + seq![' '] + seq![c]);
                } else {
                    assert(r@ =~= seq![c]);
                }
            }
            in_word = true;
        }
        i += 1;
    }
    proof {
        assert(s@.take(i as int) =~= s@);
    }
    r
}

fn fix_cjk_spacing_exec(s: &Vec<char>) -> (r: Vec<char>)
    ensures
        r@ == fix_cjk_spacing_spec(s@),
{
    let mut r: Vec<char> = Vec::new();
    let mut i: usize = 0;
    let ghost drop = |k: int| cjk_gap(s@, k);
    while i < s.len()
        invariant
            i <= s.len(),
            drop == (|k: int| cjk_gap(s@, k)),
            r@ == select_prefix(s@, drop, i as int),
        decreases s.len() - i,
    {
        let c = s[i];
        let gap = c == ' ' && i > 0 && i + 1 < s.len() && is_cjk(s[i - 1]) && is_cjk(s[i + 1]);
        proof {
            lemma_select_prefix_step(s@, drop, i as int);
            assert(gap == drop(i as int));
        }
        if !gap {
            r.push(c);
        }
        i += 1;
    }
    r
}

fn with_trailing_space_exec(r: &mut Vec<char>, append_space: bool)
    ensures
        final(r)@ == with_trailing_space(old(r)@, append_space),
{
    if append_space && !(r.len() > 0 && is_whitespace(r[r.len() - 1])) {
        r.push(' ');
    }
}

// ---------------------------------------------------------------------------
// Cleaning
// ---------------------------------------------------------------------------

fn clean_chars(text: &str, append_space: bool) -> (r: Vec<char>)
    ensures
        r@ == clean_spec(text@, append_space),
{
    let chars = chars_of(text);
    let a = strip_unwanted_exec(&chars);
    let b = collapse_ws_exec(&a);
    let mut c = fix_cjk_spacing_exec(&b);
    with_trailing_space_exec(&mut c, append_space);
    c
}

/// Removes control characters, byte-order marks and replacement characters,
/// collapses whitespace runs to single spaces, trims, and removes spaces
/// between CJK ideographs; then appends one space when asked and the text
/// does not already end with whitespace.
pub fn clean_transcript(text: &str, append_space: bool) -> (r: String)
    ensures
        r@ == clean_spec(text@, append_space),
{
    let c = clean_chars(text, append_space);
    string_from_chars(c.as_slice())
}

// ---------------------------------------------------------------------------
// Punctuation
// ---------------------------------------------------------------------------

fn left_nonws_exec(s: &Vec<char>, i: usize) -> (r: Option<char>)
    requires
        i <= s.len(),
    ensures
        r == left_nonws(s@, i as int),
{
    let mut k = i;
    while k > 0 && is_whitespace(s[k - 1])
        invariant
            k <= i <= s.len(),
            left_nonws(s@, i as int) == left_nonws(s@, k as int),
        decreases k,
    {
        k -= 1;
    }
    if k == 0 {
        None
    } else {
        Some(s[k - 1])
    }
}

fn right_nonws_exec(s: &Vec<char>, i: usize) -> (r: Option<char>)
    requires
        i < s.len(),
    ensures
        r == right_nonws(s@, i as int),
{
    let mut k = i;
    while k + 1 < s.len() && is_whitespace(s[k + 1])
        invariant
            i <= k < s.len(),
            right_nonws(s@, i as int) == right_nonws(s@, k as int),
        decreases s.len() - k,
    {
        k += 1;
    }
    if k + 1 >= s.len() {
        None
    } else {
        Some(s[k + 1])
    }
}

fn opt_is_cjk(o: Option<char>) -> (b: bool)
    ensures
        b == opt_cjk(o),
{
    match o {
        Some(c) => is_cjk(c),
        None => false,
    }
}

fn opt_is_digit(o: Option<char>) -> (b: bool)
    ensures
        b == opt_digit(o),
{
    match o {
        Some(c) => is_ascii_digit(c),
        None => false,
    }
}

fn widen_punctuation_exec(s: &Vec<char>) -> (r: Vec<char>)
    ensures
        r@ == widen_punctuation(s@),
{
    let mut r: Vec<char> = Vec::new();
    let mut i: usize = 0;
    while i < s.len()
        invariant
            i <= s.len(),
            r@.len() == i,
            forall|k: int| 0 <= k < i ==> r@[k] == punct_at(s@, k),
        decreases s.len() - i,
    {
        let l = left_nonws_exec(s, i);
        let rt = right_nonws_exec(s, i);
        let c = s[i];
        let n = if opt_is_cjk(l) || opt_is_cjk(rt) {
            if c == ',' {
                '，'
            } else if c == '.' && !(opt_is_digit(l) && opt_is_digit(rt)) {
                '。'
            } else if c == '!' {
                '！'
            } else if c == '?' {
                '？'
            } else if c == ':' {
                '：'
            } else if c == ';' {
                '；'
            } else {
                c
            }
        } else {
            c
        };
        r.push(n);
        i += 1;
    }
    proof {
        assert(r@ =~= widen_punctuation(s@));
    }
    r
}

fn remove_spaces_exec(s: &Vec<char>) -> (r: Vec<char>)
    ensures
        r@ == remove_spaces_spec(s@),
{
    let mut r: Vec<char> = Vec::new();
    let mut i: usize = 0;
    let ghost drop = |k: int| space_by_cjk_punct(s@, k);
    while i < s.len()
        invariant
            i <= s.len(),
            drop == (|k: int| space_by_cjk_punct(s@, k)),
            r@ == select_prefix(s@, drop, i as int),
        decreases s.len() - i,
    {
        let c = s[i];
        let skip = c == ' ' && ((i > 0 && is_cjk_punctuation(s[i - 1])) || (i + 1 < s.len()
            && is_cjk_punctuation(s[i + 1])));
        proof {
            lemma_select_prefix_step(s@, drop, i as int);
            assert(skip == drop(i as int));
        }
        if !skip {
            r.push(c);
        }
        i += 1;
    }
    r
}

fn normalize_punctuation_exec(s: &Vec<char>) -> (r: Vec<char>)
    ensures
        r@ == normalize_punctuation_spec(s@),
{
    let w = widen_punctuation_exec(s);
    remove_spaces_exec(&w)
}

/// Turns `,` `.` `!` `?` `:` `;` into their full-width forms when the nearest
/// non-whitespace character on either side is a CJK ideograph (a `.` between
/// two digits stays), then removes spaces next to full-width punctuation.
pub fn normalize_chinese_punctuation(text: &str) -> (r: String)
    ensures
        r@ == normalize_punctuation_spec(text@),
{
    let c = chars_of(text);
    let r = normalize_punctuation_exec(&c);
    string_from_chars(r.as_slice())
}

/// Removes every space that touches full-width CJK punctuation.
pub fn remove_spaces_around_cjk_punctuation(text: &str) -> (r: String)
    ensures
        r@ == remove_spaces_spec(text@),
{
    let c = chars_of(text);
    let r = remove_spaces_exec(&c);
    string_from_chars(r.as_slice())
}

/// Removes every single space that stands between two CJK ideographs.
pub fn fix_cjk_spacing(text: &str) -> (r: String)
    ensures
        r@ == fix_cjk_spacing_spec(text@),
{
    let c = chars_of(text);
    let r = fix_cjk_spacing_exec(&c);
    string_from_chars(r.as_slice())
}

// ---------------------------------------------------------------------------
// Variant conversion
// ---------------------------------------------------------------------------

/// `zhhz::Converter::convert` with the `s2twp` configuration when
/// `to_traditional`, else with `tw2sp`; the contract claims only that the
/// result is a function of the direction and the text.
#[verifier::external_body]
fn zhhz_convert(to_traditional: bool, text: &str) -> (r: String)
    ensures
        r@ == zhhz_converted(to_traditional, text@),
{
    let config = if to_traditional {
        zhhz::Config::S2twp
    } else {
        zhhz::Config::Tw2sp
    };
    zhhz::Converter::new(config).convert(text)
}

/// Converts the text between Taiwan Traditional and Simplified Chinese, or
/// leaves it unchanged.
pub fn convert_chinese_variant(text: &str, variant: ChineseVariant) -> (r: String)
    ensures
        r@ == convert_spec(text@, variant),
{
    match variant {
        ChineseVariant::Preserve => {
            let c = chars_of(text);
            string_from_chars(c.as_slice())
        },
        ChineseVariant::Traditional => zhhz_convert(true, text),
        ChineseVariant::Simplified => zhhz_convert(false, text),
    }
}


// ---------------------------------------------------------------------------
// Dictionary
// ---------------------------------------------------------------------------

fn utf8_len_exec(s: &Vec<char>) -> (n: u128)
    ensures
        n == utf8_len(s@),
{
    let mut n: u128 = 0;
    let mut i: usize = 0;
    while i < s.len()
        invariant
            i <= s.len(),
            n == utf8_len(s@.take(i as int)),
            n <= 4 * i,
        decreases s.len() - i,
    {
        let u = s[i] as u32;
        let w: u128 = if u < 0x80 {
            1
        } else if u < 0x800 {
            2
        } else if u < 0x10000 {
            3
        } else {
            4
        };
        proof {
            assert(s@.take(i + 1).drop_last() =~= s@.take(i as int));
        }
        n = n + w;
        i += 1;
    }
    proof {
        assert(s@.take(i as int) =~= s@);
    }
    n
}

/// Whether `source` may be replaced at index `i` of `text`.
pub fn replacement_boundaries_match(text: &Vec<char>, i: usize, source: &Vec<char>) -> (b: bool)
    ensures
        b == entry_matches(text@, i as int, source@),
{
    if source.len() == 0 || !occurs_at_exec(text.as_slice(), i, source.as_slice()) {
        return false;
    }
    let first = source[0];
    let last = source[source.len() - 1];
    let starts_safely = !is_ascii_word(first) || i == 0 || !is_ascii_word(text[i - 1]);
    proof {
        assert(occurs_at(text@, i as int, source@));
        assert(i + source@.len() <= text@.len());
        assert(i + source.len() <= text.len());
    }
    let end = i + source.len();
    let ends_safely = !is_ascii_word(last) || end >= text.len() || !is_ascii_word(text[end]);
    starts_safely && ends_safely
}

struct PreparedEntry {
    source: Vec<char>,
    replacement: Vec<char>,
    width: u128,
}

fn prepare_entries(d: &[DictionaryEntry]) -> (v: Vec<PreparedEntry>)
    ensures
        v@.len() == d@.len(),
        forall|k: int|
            0 <= k < v@.len() ==> (#[trigger] v@[k]).source@ == entries_view(d@)[k].0
                && v@[k].replacement@ == entries_view(d@)[k].1 && v@[k].width == utf8_len(
                v@[k].source@,
            ),
{
    let mut v: Vec<PreparedEntry> = Vec::new();
    let mut k: usize = 0;
    while k < d.len()
        invariant
            k <= d@.len(),
            v@.len() == k,
            forall|m: int|
                0 <= m < k ==> (#[trigger] v@[m]).source@ == entries_view(d@)[m].0
                    && v@[m].replacement@ == entries_view(d@)[m].1 && v@[m].width == utf8_len(
                    v@[m].source@,
                ),
        decreases d@.len() - k,
    {
        let source = chars_of(d[k].source.as_str());
        let replacement = chars_of(d[k].replacement.as_str());
        let width = utf8_len_exec(&source);
        v.push(PreparedEntry { source, replacement, width });
        k += 1;
    }
    v
}

fn best_entry_exec(
    entries: &Vec<PreparedEntry>,
    Ghost(ev): Ghost<Seq<(Seq<char>, Seq<char>)>>,
    text: &Vec<char>,
    i: usize,
) -> (r: Option<usize>)
    requires
        entries@.len() == ev.len(),
        forall|k: int|
            0 <= k < entries@.len() ==> (#[trigger] entries@[k]).source@ == ev[k].0
                && entries@[k].width == utf8_len(entries@[k].source@),
    ensures
        r matches Some(j) ==> best_entry(ev, text@, i as int, ev.len() as int) == Some(j as int),
        r is None ==> best_entry(ev, text@, i as int, ev.len() as int) is None,
{
    let mut best: Option<usize> = None;
    let mut n: usize = 0;
    while n < entries.len()
        invariant
            n <= entries@.len(),
            entries@.len() == ev.len(),
            forall|k: int|
                0 <= k < entries@.len() ==> (#[trigger] entries@[k]).source@ == ev[k].0
                    && entries@[k].width == utf8_len(entries@[k].source@),
            best matches Some(j) ==> j < n && best_entry(ev, text@, i as int, n as int) == Some(
                j as int,
            ),
            best is None ==> best_entry(ev, text@, i as int, n as int) is None,
        decreases entries@.len() - n,
    {
        let e = &entries[n];
        if replacement_boundaries_match(text, i, &e.source) {
            let better = match best {
                None => true,
                Some(j) => e.width > entries[j].width,
            };
            if better {
                best = Some(n);
            }
        }
        n += 1;
    }
    best
}

/// The dictionary applied once, left to right: at each position the longest
/// matching source (the first listed among equally long ones) is replaced,
/// and the replacement is never scanned again. A source that starts or ends
/// with an ASCII letter, digit or `_` only matches on a word boundary.
pub fn apply_dictionary_once(text: &str, dictionary: &[DictionaryEntry]) -> (r: String)
    ensures
        r@ == dictionary_spec(dictionary@, text@),
{
    let t = chars_of(text);
    let out = apply_dictionary_chars(&t, dictionary);
    string_from_chars(out.as_slice())
}

fn apply_dictionary_chars(t: &Vec<char>, dictionary: &[DictionaryEntry]) -> (out: Vec<char>)
    ensures
        out@ == dictionary_spec(dictionary@, t@),
{
    let entries = prepare_entries(dictionary);
    let ghost ev = entries_view(dictionary@);
    let mut out: Vec<char> = Vec::new();
    let mut i: usize = 0;
    while i < t.len()
        invariant
            i <= t.len(),
            ev == entries_view(dictionary@),
            entries@.len() == ev.len(),
            forall|k: int|
                0 <= k < entries@.len() ==> (#[trigger] entries@[k]).source@ == ev[k].0
                    && entries@[k].replacement@ == ev[k].1 && entries@[k].width == utf8_len(
                    entries@[k].source@,
                ),
            out@ + dict_from(ev, t@, i as int) == dict_from(ev, t@, 0),
        decreases t.len() - i,
    {
        let best = best_entry_exec(&entries, Ghost(ev), t, i);
        proof {
            lemma_best_entry(ev, t@, i as int, ev.len() as int);
        }
        match best {
            Some(j) => {
                let e = &entries[j];
                proof {
                    assert(dict_from(ev, t@, i as int) == ev[j as int].1 + dict_from(
                        ev,
                        t@,
                        i + ev[j as int].0.len(),
                    ));
                    assert(out@ + e.replacement@ + dict_from(ev, t@, i + e.source@.len())
                        =~= out@ + dict_from(ev, t@, i as int));
                }
                push_chars(&mut out, &e.replacement);
                i = i + e.source.len();
            },
            None => {
                proof {
                    assert(out@.push(t@[i as int]) + dict_from(ev, t@, i + 1) =~= out@
                        + dict_from(ev, t@, i as int));
                }
                out.push(t[i]);
                i += 1;
            },
        }
    }
    proof {
        assert(dict_from(ev, t@, i as int) =~= Seq::<char>::empty());
        assert(out@ + Seq::<char>::empty() =~= out@);
    }
    out
}


// ---------------------------------------------------------------------------
// Formatting and commands
// ---------------------------------------------------------------------------

proof fn lemma_no_entry_matches(entries: Seq<(Seq<char>, Seq<char>)>, text: Seq<char>, i: int, n: int)
    requires
        n <= entries.len(),
        forall|k: int| 0 <= k < entries.len() ==> (#[trigger] entries[k]).0.len() == 0,
    ensures
        best_entry(entries, text, i, n) is None,
    decreases n,
{
    if n > 0 {
        lemma_no_entry_matches(entries, text, i, n - 1);
        assert(entries[n - 1].0.len() == 0);
    }
}

proof fn lemma_empty_sources_keep_text(entries: Seq<(Seq<char>, Seq<char>)>, text: Seq<char>, i: int)
    requires
        0 <= i <= text.len(),
        forall|k: int| 0 <= k < entries.len() ==> (#[trigger] entries[k]).0.len() == 0,
    ensures
        dict_from(entries, text, i) == text.skip(i),
    decreases text.len() - i,
{
    if i < text.len() {
        lemma_no_entry_matches(entries, text, i, entries.len() as int);
        lemma_empty_sources_keep_text(entries, text, i + 1);
        assert(seq![text[i]] + text.skip(i + 1) =~= text.skip(i));
    } else {
        assert(text.skip(i) =~= Seq::<char>::empty());
    }
}

/// With no punctuation normalisation, the variant preserved and only
/// dictionary entries with an empty source, formatting a transcript gives
/// the same text as cleaning it.
pub proof fn law_plain_formatting_is_cleaning(text: Seq<char>, config: TextProcessingConfig, append_space: bool)
    requires
        !config.normalize_chinese_punctuation,
        config.chinese_variant == ChineseVariant::Preserve,
        forall|k: int| 0 <= k < config.dictionary@.len() ==> (#[trigger] config.dictionary@[k]).source@.len() == 0,
    ensures
        format_cleaned_spec(clean_spec(text, false), config, append_space) == clean_spec(text, append_space),
{
    let x = clean_spec(text, false);
    let entries = entries_view(config.dictionary@);
    assert forall|k: int| 0 <= k < entries.len() implies (#[trigger] entries[k]).0.len() == 0 by {
        assert(entries[k].0 == config.dictionary@[k].source@);
    }
    lemma_empty_sources_keep_text(entries, x, 0);
    assert(x.skip(0) =~= x);
}

fn format_cleaned_chars(output: Vec<char>, config: &TextProcessingConfig, append_space: bool) -> (r: Vec<char>)
    ensures
        r@ == format_cleaned_spec(output@, *config, append_space),
{
    let a = if config.normalize_chinese_punctuation {
        normalize_punctuation_exec(&output)
    } else {
        output
    };
    let b = match config.chinese_variant {
        ChineseVariant::Preserve => a,
        _ => {
            let s = string_from_chars(a.as_slice());
            let converted = convert_chinese_variant(s.as_str(), config.chinese_variant);
            chars_of(converted.as_str())
        },
    };
    let mut c = apply_dictionary_chars(&b, config.dictionary.as_slice());
    with_trailing_space_exec(&mut c, append_space);
    c
}

/// Punctuation normalisation (when enabled), Chinese variant conversion and
/// the dictionary, applied to an already cleaned transcript; then the
/// trailing space when asked.
pub fn format_cleaned_transcript(output: String, config: &TextProcessingConfig, append_space: bool) -> (r: String)
    ensures
        r@ == format_cleaned_spec(output@, *config, append_space),
{
    let chars = chars_of(output.as_str());
    let r = format_cleaned_chars(chars, config, append_space);
    string_from_chars(r.as_slice())
}

/// A transcript cleaned and then formatted under `config`.
pub fn format_transcript(text: &str, config: &TextProcessingConfig, append_space: bool) -> (r: String)
    ensures
        r@ == format_cleaned_spec(clean_spec(text@, false), *config, append_space),
{
    let cleaned = clean_chars(text, false);
    let r = format_cleaned_chars(cleaned, config, append_space);
    string_from_chars(r.as_slice())
}

proof fn lemma_first_command_stable(cmds: Seq<VoiceCommand>, target: Seq<char>, k: int, m: int)
    requires
        0 <= k < m,
        first_command(cmds, target, k + 1) == Some(k),
    ensures
        first_command(cmds, target, m) == Some(k),
    decreases m - k,
{
    if m > k + 1 {
        lemma_first_command_stable(cmds, target, k, m - 1);
    }
}

fn find_command(commands: &Vec<VoiceCommand>, target: &Vec<char>) -> (r: Option<usize>)
    ensures
        r matches Some(k) ==> first_command(commands@, target@, commands@.len() as int) == Some(
            k as int,
        ) && k < commands@.len(),
        r is None ==> first_command(commands@, target@, commands@.len() as int) is None,
{
    let mut n: usize = 0;
    while n < commands.len()
        invariant
            n <= commands@.len(),
            first_command(commands@, target@, n as int) is None,
        decreases commands@.len() - n,
    {
        let phrase = chars_of(commands[n].phrase.as_str());
        if seq_eq(phrase.as_slice(), target.as_slice()) {
            proof {
                lemma_first_command_stable(commands@, target@, n as int, commands@.len() as int);
            }
            return Some(n);
        }
        n += 1;
    }
    None
}

/// The delivery that `process_transcript` gives, or `None` when it fails.
pub open spec fn process_spec(text: Seq<char>, config: TextProcessingConfig, append_space: bool) -> Option<(Seq<char>, DeliveryMode)> {
    match triggered_command(text, config) {
        Some(k) => {
            let command = config.voice_commands@[k];
            if trim(command.phrase@).len() == 0 {
                None
            } else {
                match command.action {
                    VoiceCommandAction::InsertText { text } => Some(
                        (format_cleaned_spec(text@, config, append_space), DeliveryMode::Normal),
                    ),
                    VoiceCommandAction::CopyOnly { text } => Some(
                        (format_cleaned_spec(text@, config, append_space), DeliveryMode::CopyOnly),
                    ),
                    VoiceCommandAction::Discard => Some((Seq::<char>::empty(), DeliveryMode::Discard)),
                }
            }
        },
        None => Some((format_cleaned_spec(clean_spec(text, false), config, append_space), DeliveryMode::Normal)),
    }
}

/// Cleans the transcript; when spoken commands are enabled and the whole
/// cleaned transcript equals a command's phrase, the first such command
/// decides what is delivered (its text, formatted, normally or copy-only,
/// or nothing); otherwise the cleaned transcript is formatted and delivered
/// normally. A matching command with a blank phrase is a configuration error.
pub fn process_transcript(text: &str, config: &TextProcessingConfig, append_space: bool) -> (r: AppResult<ProcessedTranscript>)
    ensures
        match process_spec(text@, *config, append_space) {
            Some((t, d)) => r matches Ok(p) && p.text@ == t && p.delivery == d,
            None => r matches Err(AppError::Configuration(m)) && m@ == "語音命令片語不可為空"@,
        },
{
    let cleaned = clean_chars(text, false);
    if config.voice_commands_enabled {
        if let Some(k) = find_command(&config.voice_commands, &cleaned) {
            let command = &config.voice_commands[k];
            if is_blank(command.phrase.as_str()) {
                return Err(AppError::Configuration(String::from_str("語音命令片語不可為空")));
            }
            match &command.action {
                VoiceCommandAction::InsertText { text } => {
                    let chars = chars_of(text.as_str());
                    let out = format_cleaned_chars(chars, config, append_space);
                    return Ok(
                        ProcessedTranscript {
                            text: string_from_chars(out.as_slice()),
                            delivery: DeliveryMode::Normal,
                        },
                    );
                },
                VoiceCommandAction::CopyOnly { text } => {
                    let chars = chars_of(text.as_str());
                    let out = format_cleaned_chars(chars, config, append_space);
                    return Ok(
                        ProcessedTranscript {
                            text: string_from_chars(out.as_slice()),
                            delivery: DeliveryMode::CopyOnly,
                        },
                    );
                },
                VoiceCommandAction::Discard => {
                    return Ok(ProcessedTranscript { text: String::new(), delivery: DeliveryMode::Discard });
                },
            }
        }
    }
    let out = format_cleaned_chars(cleaned, config, append_space);
    Ok(ProcessedTranscript { text: string_from_chars(out.as_slice()), delivery: DeliveryMode::Normal })
}

} // verus!
