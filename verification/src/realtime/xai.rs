//! xAI streaming speech-to-text: the transcript event parser.
use vstd::prelude::*;
use vstd::string::StringExecFns;
use crate::chars::{chars_of, push_chars, push_str, starts_with, starts_with_exec, string_from_chars};
use crate::json::{json_bool, json_bool_field, json_error, json_parse_error, json_render, json_rendered, json_str, json_string_field};
use super::{event_view, sanitize_chars, sanitize_spec, EventView, RealtimeEvent};
use crate::error::{AppError, AppResult};

verus! {

pub const OFFICIAL_ENDPOINT: &'static str = "wss://api.x.ai/v1/stt";

pub const SAMPLE_RATE: u32 = 16000;

pub const MAX_FRAME_SAMPLES: usize = 1600;

/// The message that asks the server to finish the current transcript.
pub const FINALIZE_MESSAGE: &'static str = "{\"type\":\"Finalize\"}";

/// The text of an utterance so far: the locked text is repeated unless the
/// new text already starts with it.
pub open spec fn reconcile_spec(locked: Seq<char>, text: Seq<char>) -> Seq<char> {
    if locked.len() == 0 || starts_with(text, locked) {
        text
    } else {
        locked + text
    }
}

pub fn reconcile_locked(locked: &str, text: &str) -> (r: String)
    ensures
        r@ == reconcile_spec(locked@, text@),
{
    let l = chars_of(locked);
    let t = chars_of(text);
    if l.len() == 0 || starts_with_exec(t.as_slice(), l.as_slice()) {
        string_from_chars(t.as_slice())
    } else {
        let mut out = l;
        push_chars(&mut out, &t);
        string_from_chars(out.as_slice())
    }
}

/// What one message does to the locked text, and the event it reports.
pub open spec fn xai_step(locked: Seq<char>, text: Seq<char>, api_key: Seq<char>) -> (Seq<char>, Option<EventView>) {
    match json_parse_error(text) {
        Some(e) => (locked, Some(EventView::Error(sanitize_spec("xAI realtime JSON 錯誤："@ + e, api_key)))),
        None => {
            let ty = match json_string_field(text, "type"@) {
                Some(t) => t,
                None => Seq::<char>::empty(),
            };
            if ty == "audio.done"@ {
                (locked, Some(EventView::Done))
            } else if ty == "error"@ {
                (locked, Some(EventView::Error(sanitize_spec(json_rendered(text), api_key))))
            } else {
                match json_string_field(text, "text"@) {
                    None => (locked, None),
                    Some(t) => {
                        let combined = reconcile_spec(locked, t);
                        if json_bool_field(text, "speech_final"@) == Some(true) {
                            (Seq::<char>::empty(), Some(EventView::Final(combined)))
                        } else if json_bool_field(text, "is_final"@) == Some(true) {
                            (combined, Some(EventView::Partial(combined)))
                        } else {
                            (locked, Some(EventView::Partial(combined)))
                        }
                    },
                }
            }
        },
    }
}

/// Turns xAI messages into events. Chunk-final text is locked and repeated
/// in later partials; only `speech_final` ends an utterance, which clears
/// the locked text.
pub struct XaiEventParser {
    locked: String,
}

impl XaiEventParser {
    pub closed spec fn locked_spec(self) -> Seq<char> {
        self.locked@
    }

    pub fn new(_smart_turn: bool) -> (p: XaiEventParser)
        ensures
            p.locked_spec() == Seq::<char>::empty(),
    {
        XaiEventParser { locked: String::new() }
    }

    pub fn locked_text(&self) -> (s: &str)
        ensures
            s@ == self.locked_spec(),
    {
        self.locked.as_str()
    }

    pub fn parse(&mut self, text: &str, api_key: &str) -> (r: Option<RealtimeEvent>)
        ensures
            final(self).locked_spec() == xai_step(old(self).locked_spec(), text@, api_key@).0,
            match xai_step(old(self).locked_spec(), text@, api_key@).1 {
                None => r is None,
                Some(e) => r matches Some(x) && event_view(x) == e,
            },
    {
        if let Some(e) = json_error(text) {
            let mut m = chars_of("xAI realtime JSON 錯誤：");
            push_str(&mut m, e.as_str());
            let s = sanitize_chars(&m, api_key);
            return Some(RealtimeEvent::Error(string_from_chars(s.as_slice())));
        }
        let ty: String = match json_str(text, "type") {
            Some(t) => t,
            None => String::new(),
        };
        if crate::chars::str_eq(ty.as_str(), "audio.done") {
            return Some(RealtimeEvent::Done);
        }
        if crate::chars::str_eq(ty.as_str(), "error") {
            let rendered = json_render(text);
            let m = chars_of(rendered.as_str());
            let s = sanitize_chars(&m, api_key);
            return Some(RealtimeEvent::Error(string_from_chars(s.as_slice())));
        }
        let t = match json_str(text, "text") {
            Some(t) => t,
            None => {
                return None;
            },
        };
        let speech_final = match json_bool(text, "speech_final") {
            Some(b) => b,
            None => false,
        };
        let is_final = match json_bool(text, "is_final") {
            Some(b) => b,
            None => false,
        };
        let combined = reconcile_locked(self.locked.as_str(), t.as_str());
        if speech_final {
            self.locked = String::new();
            Some(RealtimeEvent::Final(combined))
        } else if is_final {
            self.locked = combined.clone();
            Some(RealtimeEvent::Partial(combined))
        } else {
            Some(RealtimeEvent::Partial(combined))
        }
    }
}

/// An utterance's final text clears the locked text, so the next utterance
/// starts afresh and no final is reported twice.
pub proof fn lemma_speech_final_clears_lock(locked: Seq<char>, text: Seq<char>, api_key: Seq<char>)
    requires
        xai_step(locked, text, api_key).1 matches Some(EventView::Final(_)),
    ensures
        xai_step(locked, text, api_key).0 == Seq::<char>::empty(),
{
}

/// Only a message marked `speech_final` ends an utterance.
pub proof fn lemma_final_needs_speech_final(locked: Seq<char>, text: Seq<char>, api_key: Seq<char>)
    requires
        xai_step(locked, text, api_key).1 matches Some(EventView::Final(_)),
    ensures
        json_bool_field(text, "speech_final"@) == Some(true),
{
}

/// The text a partial or final event reports.
pub open spec fn event_text(e: Option<EventView>) -> Seq<char> {
    match e {
        Some(EventView::Partial(x)) => x,
        Some(EventView::Final(x)) => x,
        _ => Seq::<char>::empty(),
    }
}

/// A transcript message reports the utterance so far: its text begins with
/// everything locked before and ends with the message's text. A
/// `speech_final` message reports it as final and clears the lock; an
/// `is_final` one locks exactly the text it reports, so every chunk-final
/// text stays at the front of what follows; any other leaves the lock.
pub proof fn law_locked_text_accumulates(locked: Seq<char>, text: Seq<char>, api_key: Seq<char>, t: Seq<char>)
    requires
        json_parse_error(text) is None,
        json_string_field(text, "type"@) != Some("audio.done"@),
        json_string_field(text, "type"@) != Some("error"@),
        json_string_field(text, "text"@) == Some(t),
    ensures
        ({
            let (next, reported) = xai_step(locked, text, api_key);
            let speech_final = json_bool_field(text, "speech_final"@) == Some(true);
            let x = event_text(reported);
            &&& reported matches Some(e) && (if speech_final {
                e is Final
            } else {
                e is Partial
            })
            &&& starts_with(x, locked)
            &&& x.len() >= t.len() && x.subrange(x.len() - t.len(), x.len() as int) == t
            &&& next == (if speech_final {
                Seq::<char>::empty()
            } else if json_bool_field(text, "is_final"@) == Some(true) {
                x
            } else {
                locked
            })
        }),
{
    reveal_strlit("audio.done");
    reveal_strlit("error");
    let x = reconcile_spec(locked, t);
    if locked.len() == 0 || starts_with(t, locked) {
        assert(x == t);
        assert(t.subrange(0, t.len() as int) =~= t);
        if locked.len() == 0 {
            assert(x.subrange(0, 0) =~= locked);
        }
    } else {
        assert(x == locked + t);
        assert(x.subrange(0, locked.len() as int) =~= locked);
        assert(x.subrange(x.len() - t.len(), x.len() as int) =~= t);
    }
    assert(starts_with(x, locked));
}

pub const CREATED_REQUIRED_MESSAGE: &'static str = "xAI 必須先傳回 transcript.created";

/// The first message of an xAI session must be the JSON event
/// `transcript.created`.
pub open spec fn created_check_spec(text: Seq<char>) -> Result<(), Seq<char>> {
    match json_parse_error(text) {
        Some(e) => Err("xAI realtime JSON 錯誤："@ + e),
        None => if json_string_field(text, "type"@) == Some("transcript.created"@) {
            Ok(())
        } else {
            Err(CREATED_REQUIRED_MESSAGE@)
        },
    }
}

/// Checks the first text message of an xAI session (see `created_check_spec`).
pub fn check_created(text: &str) -> (r: AppResult<()>)
    ensures
        match created_check_spec(text@) {
            Ok(()) => r is Ok,
            Err(m) => r matches Err(AppError::Transcription(e)) && e@ == m,
        },
{
    if let Some(e) = json_error(text) {
        let mut m = chars_of("xAI realtime JSON 錯誤：");
        push_str(&mut m, e.as_str());
        return Err(AppError::Transcription(string_from_chars(m.as_slice())));
    }
    let ty = json_str(text, "type");
    let ok = match &ty {
        Some(t) => crate::chars::str_eq(t.as_str(), "transcript.created"),
        None => false,
    };
    if ok {
        Ok(())
    } else {
        Err(AppError::Transcription(String::from_str(CREATED_REQUIRED_MESSAGE)))
    }
}

pub open spec fn pair(a: Seq<char>, b: Seq<char>) -> (Seq<char>, Seq<char>) {
    (a, b)
}

/// The query of an xAI session URL: 16 kHz PCM with interim results, and
/// the turn detection settings when smart turn is on (its threshold as
/// already written out, and its timeout in milliseconds).
pub fn query_pairs(smart_turn: bool, threshold_text: &str, timeout_ms: u64) -> (r: Vec<(String, String)>)
    ensures
        r@.map_values(|p: (String, String)| (p.0@, p.1@)) == seq![
            pair("sample_rate"@, "16000"@),
            pair("encoding"@, "pcm"@),
            pair("interim_results"@, "true"@),
        ] + (if smart_turn {
            seq![
                pair("smart_turn"@, threshold_text@),
                pair("smart_turn_timeout"@, crate::chars::decimal_spec(timeout_ms as nat)),
            ]
        } else {
            Seq::<(Seq<char>, Seq<char>)>::empty()
        }),
{
    let mut v: Vec<(String, String)> = Vec::new();
    v.push((String::from_str("sample_rate"), String::from_str("16000")));
    v.push((String::from_str("encoding"), String::from_str("pcm")));
    v.push((String::from_str("interim_results"), String::from_str("true")));
    if smart_turn {
        v.push((String::from_str("smart_turn"), String::from_str(threshold_text)));
        v.push((String::from_str("smart_turn_timeout"), crate::chars::decimal(timeout_ms)));
    }
    proof {
        let expected = seq![
            pair("sample_rate"@, "16000"@),
            pair("encoding"@, "pcm"@),
            pair("interim_results"@, "true"@),
        ] + (if smart_turn {
            seq![
                pair("smart_turn"@, threshold_text@),
                pair("smart_turn_timeout"@, crate::chars::decimal_spec(timeout_ms as nat)),
            ]
        } else {
            Seq::<(Seq<char>, Seq<char>)>::empty()
        });
        assert(v@.map_values(|p: (String, String)| (p.0@, p.1@)) =~= expected);
    }
    v
}

} // verus!
