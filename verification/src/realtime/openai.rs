//! OpenAI realtime transcription: the event parser that accumulates deltas
//! and delivers final transcripts in commit order.
use vstd::prelude::*;
use vstd::string::StringExecFns;
use crate::chars::{chars_of, push_str, str_eq, string_from_chars};
use crate::config::{delay_api_text, OpenAiTranscriptionDelay};
use crate::json::{
    json_error, json_parse_error, json_quote, json_quoted, json_render, json_rendered, json_str, json_string_field,
};
use super::{
    base64_encode, base64_standard, event_view, events_view, lemma_pcm16_len, pcm16_le_bytes, pcm16_le_spec,
    sanitize_chars, sanitize_spec, EventView, RealtimeEvent,
};

verus! {

pub const OFFICIAL_ENDPOINT: &'static str = "wss://api.openai.com/v1/realtime";

pub const SAMPLE_RATE: u32 = 24000;

pub const MAX_FRAME_SAMPLES: usize = 2400;

/// The message that commits the audio sent so far.
pub const COMMIT_MESSAGE: &'static str = "{\"type\":\"input_audio_buffer.commit\"}";

/// The message that appends `samples` to the input audio buffer: their
/// little-endian bytes in base64.
pub open spec fn append_message_spec(samples: Seq<i16>) -> Seq<char> {
    "{\"type\":\"input_audio_buffer.append\",\"audio\":\""@ + base64_standard(pcm16_le_spec(samples)) + "\"}"@
}

/// Builds the message that appends `samples` (see `append_message_spec`).
pub fn audio_append_message(samples: &[i16]) -> (r: String)
    requires
        samples@.len() <= usize::MAX / 4,
    ensures
        r@ == append_message_spec(samples@),
{
    let bytes = pcm16_le_bytes(samples);
    proof {
        lemma_pcm16_len(samples@);
    }
    let audio = base64_encode(bytes.as_slice());
    let mut m = chars_of("{\"type\":\"input_audio_buffer.append\",\"audio\":\"");
    push_str(&mut m, audio.as_str());
    push_str(&mut m, "\"}");
    string_from_chars(m.as_slice())
}

/// The message that configures a transcription session: 24 kHz PCM in,
/// `model` and `language` (as JSON strings) with the delay `delay`, and no
/// server turn detection.
pub open spec fn session_update_spec(model: Seq<char>, language: Seq<char>, delay: OpenAiTranscriptionDelay) -> Seq<char> {
    "{\"type\":\"session.update\",\"session\":{\"type\":\"transcription\",\"audio\":{\"input\":{\"format\":{\"type\":\"audio/pcm\",\"rate\":24000},\"transcription\":{\"model\":"@
        + json_quoted(model) + ",\"language\":"@ + json_quoted(language) + ",\"delay\":\""@ + delay_api_text(delay)
        + "\"},\"turn_detection\":null}}}}"@
}

/// Builds the session configuration message (see `session_update_spec`).
pub fn session_update_message(model: &str, language: &str, delay: OpenAiTranscriptionDelay) -> (r: String)
    ensures
        r@ == session_update_spec(model@, language@, delay),
{
    let mut m = chars_of(
        "{\"type\":\"session.update\",\"session\":{\"type\":\"transcription\",\"audio\":{\"input\":{\"format\":{\"type\":\"audio/pcm\",\"rate\":24000},\"transcription\":{\"model\":",
    );
    let quoted_model = json_quote(model);
    push_str(&mut m, quoted_model.as_str());
    push_str(&mut m, ",\"language\":");
    let quoted_language = json_quote(language);
    push_str(&mut m, quoted_language.as_str());
    push_str(&mut m, ",\"delay\":\"");
    push_str(&mut m, delay.as_api_str());
    push_str(&mut m, "\"},\"turn_detection\":null}}}}");
    string_from_chars(m.as_slice())
}

/// One committed audio buffer: the item the server gave it, and its final
/// transcript once complete.
pub struct CommitState {
    pub item_id: Option<String>,
    pub completed: Option<String>,
}

impl CommitState {
    pub fn default() -> (c: CommitState)
        ensures
            c.item_id is None,
            c.completed is None,
    {
        CommitState { item_id: None, completed: None }
    }
}

pub type Text = Seq<char>;

/// A commit as (item id, completed transcript).
pub type CommitView = (Option<Text>, Option<Text>);

/// Key/value pairs that stand for a map from item ids to texts.
pub type PairsView = Seq<(Text, Text)>;

pub open spec fn opt_text(o: Option<String>) -> Option<Text> {
    match o {
        Some(s) => Some(s@),
        None => None,
    }
}

pub open spec fn commit_view(c: CommitState) -> CommitView {
    (opt_text(c.item_id), opt_text(c.completed))
}

pub open spec fn commits_view(v: Seq<CommitState>) -> Seq<CommitView> {
    v.map_values(|c: CommitState| commit_view(c))
}

pub open spec fn pairs_view(v: Seq<(String, String)>) -> PairsView {
    v.map_values(|p: (String, String)| (p.0@, p.1@))
}

/// The first index below `n` whose key is `k`.
pub open spec fn key_index(l: PairsView, k: Text, n: int) -> Option<int>
    decreases n,
{
    if n <= 0 {
        None
    } else {
        match key_index(l, k, n - 1) {
            Some(i) => Some(i),
            None => if l[n - 1].0 == k {
                Some(n - 1)
            } else {
                None
            },
        }
    }
}

pub open spec fn find_key(l: PairsView, k: Text) -> Option<int> {
    key_index(l, k, l.len() as int)
}

pub open spec fn lookup(l: PairsView, k: Text) -> Option<Text> {
    match find_key(l, k) {
        Some(i) => Some(l[i].1),
        None => None,
    }
}

/// The pairs without the one for `k`.
pub open spec fn remove_key(l: PairsView, k: Text) -> PairsView {
    match find_key(l, k) {
        Some(i) => l.remove(i),
        None => l,
    }
}

/// The pairs with `d` appended to the text for `k` (a new pair when absent).
pub open spec fn append_at(l: PairsView, k: Text, d: Text) -> PairsView {
    match find_key(l, k) {
        Some(i) => l.update(i, (k, l[i].1 + d)),
        None => l.push((k, d)),
    }
}

/// The pairs with the text for `k` set to `v`.
pub open spec fn set_at(l: PairsView, k: Text, v: Text) -> PairsView {
    match find_key(l, k) {
        Some(i) => l.update(i, (k, v)),
        None => l.push((k, v)),
    }
}

/// The first commit below `n` that has no item yet.
pub open spec fn first_open(c: Seq<CommitView>, n: int) -> Option<int>
    decreases n,
{
    if n <= 0 {
        None
    } else {
        match first_open(c, n - 1) {
            Some(i) => Some(i),
            None => if c[n - 1].0 is None {
                Some(n - 1)
            } else {
                None
            },
        }
    }
}

/// The first commit below `n` for item `id`.
pub open spec fn commit_for(c: Seq<CommitView>, id: Text, n: int) -> Option<int>
    decreases n,
{
    if n <= 0 {
        None
    } else {
        match commit_for(c, id, n - 1) {
            Some(i) => Some(i),
            None => if c[n - 1].0 == Some(id) {
                Some(n - 1)
            } else {
                None
            },
        }
    }
}

/// Completed commits at the front are delivered, in order; the first
/// incomplete commit holds back everything after it.
pub open spec fn drain(c: Seq<CommitView>) -> (Seq<CommitView>, Seq<Text>)
    decreases c.len(),
{
    if c.len() > 0 && c[0].1 is Some {
        let rest = drain(c.drop_first());
        (rest.0, seq![c[0].1->0] + rest.1)
    } else {
        (c, Seq::<Text>::empty())
    }
}

pub open spec fn finals(t: Seq<Text>) -> Seq<EventView> {
    t.map_values(|x: Text| EventView::Final(x))
}

/// The parser state in the mathematical world.
pub struct ParserView {
    pub commits: Seq<CommitView>,
    pub deltas: PairsView,
    pub early: PairsView,
}

pub open spec fn text_or_empty(o: Option<Text>) -> Text {
    match o {
        Some(t) => t,
        None => Seq::<char>::empty(),
    }
}

/// What one server message does to the parser, and the events it reports.
pub open spec fn openai_step(st: ParserView, text: Text, api_key: Text) -> (ParserView, Seq<EventView>) {
    match json_parse_error(text) {
        Some(e) => (st, seq![EventView::Error(sanitize_spec("OpenAI realtime JSON 錯誤："@ + e, api_key))]),
        None => {
            let ty = text_or_empty(json_string_field(text, "type"@));
            if ty == "session.updated"@ {
                (st, seq![EventView::Created])
            } else if ty == "input_audio_buffer.committed"@ {
                match json_string_field(text, "item_id"@) {
                    None => (st, Seq::<EventView>::empty()),
                    Some(id) => {
                        let (commits, early) = match first_open(st.commits, st.commits.len() as int) {
                            Some(i) => (
                                st.commits.update(i, (Some(id), lookup(st.early, id))),
                                remove_key(st.early, id),
                            ),
                            None => (st.commits, st.early),
                        };
                        let d = drain(commits);
                        (ParserView { commits: d.0, deltas: st.deltas, early }, finals(d.1))
                    },
                }
            } else if ty == "conversation.item.input_audio_transcription.delta"@ {
                match (json_string_field(text, "item_id"@), json_string_field(text, "delta"@)) {
                    (Some(id), Some(delta)) => {
                        let deltas = append_at(st.deltas, id, delta);
                        (
                            ParserView { deltas, ..st },
                            seq![EventView::Partial(text_or_empty(lookup(deltas, id)))],
                        )
                    },
                    _ => (st, Seq::<EventView>::empty()),
                }
            } else if ty == "conversation.item.input_audio_transcription.completed"@ {
                match json_string_field(text, "item_id"@) {
                    None => (st, Seq::<EventView>::empty()),
                    Some(id) => {
                        let accumulated = lookup(st.deltas, id);
                        let deltas = remove_key(st.deltas, id);
                        let transcript = match json_string_field(text, "transcript"@) {
                            Some(t) => if t.len() > 0 {
                                t
                            } else {
                                text_or_empty(accumulated)
                            },
                            None => text_or_empty(accumulated),
                        };
                        let (commits, early) = match commit_for(st.commits, id, st.commits.len() as int) {
                            Some(i) => (st.commits.update(i, (st.commits[i].0, Some(transcript))), st.early),
                            None => (st.commits, set_at(st.early, id, transcript)),
                        };
                        let d = drain(commits);
                        (ParserView { commits: d.0, deltas, early }, finals(d.1))
                    },
                }
            } else if ty == "error"@ {
                (st, seq![EventView::Error(sanitize_spec(json_rendered(text), api_key))])
            } else {
                (st, Seq::<EventView>::empty())
            }
        },
    }
}

/// Turns OpenAI realtime messages into events. Deltas accumulate per item;
/// completed transcripts are delivered as finals strictly in the order in
/// which the audio was committed, even when the server completes items out
/// of order.
pub struct OpenAiEventParser {
    pub commits: Vec<CommitState>,
    pub deltas: Vec<(String, String)>,
    pub completed_before_commit: Vec<(String, String)>,
}

impl OpenAiEventParser {
    pub open spec fn view_state(self) -> ParserView {
        ParserView {
            commits: commits_view(self.commits@),
            deltas: pairs_view(self.deltas@),
            early: pairs_view(self.completed_before_commit@),
        }
    }

    pub fn default() -> (p: OpenAiEventParser)
        ensures
            p.view_state().commits.len() == 0,
            p.view_state().deltas.len() == 0,
            p.view_state().early.len() == 0,
    {
        OpenAiEventParser { commits: Vec::new(), deltas: Vec::new(), completed_before_commit: Vec::new() }
    }

    /// Records that an audio buffer was committed; its item comes later.
    pub fn register_commit(&mut self)
        ensures
            final(self).view_state() == (ParserView {
                commits: old(self).view_state().commits.push((None, None)),
                ..old(self).view_state()
            }),
    {
        self.commits.push(CommitState::default());
        proof {
            assert(commits_view(self.commits@) =~= commits_view(old(self).commits@).push((None, None)));
        }
    }

    /// Delivers the completed commits at the front, in order.
    pub fn drain_completed(&mut self) -> (r: Vec<RealtimeEvent>)
        ensures
            final(self).view_state() == (ParserView {
                commits: drain(old(self).view_state().commits).0,
                ..old(self).view_state()
            }),
            events_view(r@) == finals(drain(old(self).view_state().commits).1),
    {
        let mut events: Vec<RealtimeEvent> = Vec::new();
        let ghost start = commits_view(self.commits@);
        let ghost deltas0 = self.deltas@;
        let ghost early0 = self.completed_before_commit@;
        loop
            invariant
                self.deltas@ == deltas0,
                self.completed_before_commit@ == early0,
                drain(start).0 == drain(commits_view(self.commits@)).0,
                drain(start).1 == events_text(events@) + drain(commits_view(self.commits@)).1,
                events_view(events@) == finals(events_text(events@)),
            ensures
                self.deltas@ == deltas0,
                self.completed_before_commit@ == early0,
                drain(start).0 == commits_view(self.commits@),
                drain(start).1 == events_text(events@),
                events_view(events@) == finals(events_text(events@)),
            decreases self.commits@.len(),
        {
            if self.commits.len() == 0 || self.commits[0].completed.is_none() {
                proof {
                    let c = commits_view(self.commits@);
                    assert(drain(c).1 =~= Seq::<Text>::empty());
                    assert(events_text(events@) + Seq::<Text>::empty() =~= events_text(events@));
                }
                break;
            }
            let ghost before = commits_view(self.commits@);
            let commit = self.commits.remove(0);
            let text = match commit.completed {
                Some(t) => t,
                None => String::new(),
            };
            proof {
                assert(commits_view(self.commits@) =~= before.drop_first());
                assert(before[0].1 == Some(text@));
            }
            let ghost old_events = events@;
            events.push(RealtimeEvent::Final(text));
            proof {
                assert(events_text(events@) =~= events_text(old_events).push(text@));
                assert(events_view(events@) =~= events_view(old_events).push(EventView::Final(text@)));
                assert(finals(events_text(events@)) =~= finals(events_text(old_events)).push(EventView::Final(text@)));
                assert(events_text(old_events) + (seq![text@] + drain(before.drop_first()).1) =~= events_text(events@) + drain(before.drop_first()).1);
            }
        }
        events
    }

    /// Reads one server message and reports the events it gives rise to.
    pub fn parse(&mut self, text: &str, api_key: &str) -> (r: Vec<RealtimeEvent>)
        ensures
            final(self).view_state() == openai_step(old(self).view_state(), text@, api_key@).0,
            events_view(r@) == openai_step(old(self).view_state(), text@, api_key@).1,
    {
        if let Some(e) = json_error(text) {
            let mut m = chars_of("OpenAI realtime JSON 錯誤：");
            push_str(&mut m, e.as_str());
            let s = sanitize_chars(&m, api_key);
            let mut v: Vec<RealtimeEvent> = Vec::new();
            v.push(RealtimeEvent::Error(string_from_chars(s.as_slice())));
            proof {
                assert(events_view(v@) =~= openai_step(old(self).view_state(), text@, api_key@).1);
            }
            return v;
        }
        let ty: String = match json_str(text, "type") {
            Some(t) => t,
            None => String::new(),
        };
        proof {
            reveal_strlit("");
            assert(""@ =~= Seq::<char>::empty());
        }
        if str_eq(ty.as_str(), "session.updated") {
            let mut v: Vec<RealtimeEvent> = Vec::new();
            v.push(RealtimeEvent::Created);
            proof {
                assert(events_view(v@) =~= seq![EventView::Created]);
            }
            return v;
        }
        if str_eq(ty.as_str(), "input_audio_buffer.committed") {
            let id = match json_str(text, "item_id") {
                Some(id) => id,
                None => {
                    let v: Vec<RealtimeEvent> = Vec::new();
                    proof {
                        assert(events_view(v@) =~= Seq::<EventView>::empty());
                    }
                    return v;
                },
            };
            if let Some(i) = find_open_commit(&self.commits) {
                let early = remove_pair(&mut self.completed_before_commit, id.as_str());
                let ghost before = commits_view(self.commits@);
                self.commits.set(i, CommitState { item_id: Some(id), completed: early });
                proof {
                    assert(commits_view(self.commits@) =~= before.update(
                        i as int,
                        (Some(json_string_field(text@, "item_id"@)->0), lookup(pairs_view(old(self).completed_before_commit@), json_string_field(text@, "item_id"@)->0)),
                    ));
                }
            }
            return self.drain_completed();
        }
        if str_eq(ty.as_str(), "conversation.item.input_audio_transcription.delta") {
            let id = match json_str(text, "item_id") {
                Some(id) => id,
                None => {
                    let v: Vec<RealtimeEvent> = Vec::new();
                    proof {
                        assert(events_view(v@) =~= Seq::<EventView>::empty());
                    }
                    return v;
                },
            };
            let delta = match json_str(text, "delta") {
                Some(d) => d,
                None => {
                    let v: Vec<RealtimeEvent> = Vec::new();
                    proof {
                        assert(events_view(v@) =~= Seq::<EventView>::empty());
                    }
                    return v;
                },
            };
            let accumulated = append_pair(&mut self.deltas, id.as_str(), delta.as_str());
            let mut v: Vec<RealtimeEvent> = Vec::new();
            v.push(RealtimeEvent::Partial(accumulated));
            proof {
                assert(events_view(v@) =~= openai_step(old(self).view_state(), text@, api_key@).1);
            }
            return v;
        }
        if str_eq(ty.as_str(), "conversation.item.input_audio_transcription.completed") {
            let id = match json_str(text, "item_id") {
                Some(id) => id,
                None => {
                    let v: Vec<RealtimeEvent> = Vec::new();
                    proof {
                        assert(events_view(v@) =~= Seq::<EventView>::empty());
                    }
                    return v;
                },
            };
            let accumulated = remove_pair(&mut self.deltas, id.as_str());
            let transcript: String = match json_str(text, "transcript") {
                Some(t) => if t.as_str().is_empty() {
                    match accumulated {
                        Some(a) => a,
                        None => String::new(),
                    }
                } else {
                    t
                },
                None => match accumulated {
                    Some(a) => a,
                    None => String::new(),
                },
            };
            match find_commit_for(&self.commits, id.as_str()) {
                Some(i) => {
                    let item_id = match &self.commits[i].item_id {
                        Some(s) => Some(s.clone()),
                        None => None,
                    };
                    let ghost before = commits_view(self.commits@);
                    let ghost transcript_view = transcript@;
                    self.commits.set(i, CommitState { item_id, completed: Some(transcript) });
                    proof {
                        assert(commits_view(self.commits@) =~= before.update(
                            i as int,
                            (before[i as int].0, Some(transcript_view)),
                        ));
                    }
                },
                None => {
                    set_pair(&mut self.completed_before_commit, id.as_str(), transcript);
                },
            }
            return self.drain_completed();
        }
        if str_eq(ty.as_str(), "error") {
            let rendered = json_render(text);
            let m = chars_of(rendered.as_str());
            let s = sanitize_chars(&m, api_key);
            let mut v: Vec<RealtimeEvent> = Vec::new();
            v.push(RealtimeEvent::Error(string_from_chars(s.as_slice())));
            proof {
                assert(events_view(v@) =~= openai_step(old(self).view_state(), text@, api_key@).1);
            }
            return v;
        }
        let v: Vec<RealtimeEvent> = Vec::new();
        proof {
            assert(events_view(v@) =~= Seq::<EventView>::empty());
        }
        v
    }
}

/// The texts of the final events.
pub open spec fn events_text(v: Seq<RealtimeEvent>) -> Seq<Text> {
    v.map_values(
        |e: RealtimeEvent|
            match e {
                RealtimeEvent::Final(t) => t@,
                _ => Seq::<char>::empty(),
            },
    )
}

pub open spec fn index_of(r: Option<usize>) -> Option<int> {
    match r {
        Some(i) => Some(i as int),
        None => None,
    }
}

/// A found key is the first occurrence: nothing before it matches.
proof fn lemma_key_index_found(l: PairsView, k: Text, n: int)
    requires
        n <= l.len(),
    ensures
        key_index(l, k, n) matches Some(i) ==> 0 <= i < n && l[i].0 == k && key_index(l, k, i) is None,
    decreases n,
{
    if n > 0 {
        lemma_key_index_found(l, k, n - 1);
    }
}

proof fn lemma_key_index_stable(l: PairsView, k: Text, i: int, m: int)
    requires
        0 <= i < m <= l.len(),
        key_index(l, k, i + 1) == Some(i),
    ensures
        key_index(l, k, m) == Some(i),
    decreases m - i,
{
    if m > i + 1 {
        lemma_key_index_stable(l, k, i, m - 1);
    }
}

fn find_pair(list: &Vec<(String, String)>, key: &str) -> (r: Option<usize>)
    ensures
        index_of(r) == find_key(pairs_view(list@), key@),
        r matches Some(i) ==> i < list@.len(),
{
    let ghost l = pairs_view(list@);
    let mut n: usize = 0;
    while n < list.len()
        invariant
            n <= list@.len(),
            l == pairs_view(list@),
            key_index(l, key@, n as int) is None,
        decreases list@.len() - n,
    {
        if str_eq(list[n].0.as_str(), key) {
            proof {
                lemma_key_index_stable(l, key@, n as int, list@.len() as int);
            }
            return Some(n);
        }
        n += 1;
    }
    None
}

/// Removes the pair for `key` and gives back its text.
fn remove_pair(list: &mut Vec<(String, String)>, key: &str) -> (r: Option<String>)
    ensures
        pairs_view(final(list)@) == remove_key(pairs_view(old(list)@), key@),
        opt_text(r) == lookup(pairs_view(old(list)@), key@),
{
    match find_pair(list, key) {
        Some(i) => {
            let ghost before = pairs_view(list@);
            let (_k, v) = list.remove(i);
            proof {
                assert(pairs_view(list@) =~= before.remove(i as int));
            }
            Some(v)
        },
        None => None,
    }
}

/// Appends `delta` to the text for `key` and gives back the new text.
fn append_pair(list: &mut Vec<(String, String)>, key: &str, delta: &str) -> (r: String)
    ensures
        pairs_view(final(list)@) == append_at(pairs_view(old(list)@), key@, delta@),
        r@ == text_or_empty(lookup(append_at(pairs_view(old(list)@), key@, delta@), key@)),
{
    let ghost before = pairs_view(list@);
    match find_pair(list, key) {
        Some(i) => {
            let mut v = chars_of(list[i].1.as_str());
            push_str(&mut v, delta);
            let value = string_from_chars(v.as_slice());
            let k = String::from_str(key);
            let result = value.clone();
            list.set(i, (k, value));
            proof {
                assert(pairs_view(list@) =~= before.update(i as int, (key@, before[i as int].1 + delta@)));
                lemma_key_index_found(before, key@, before.len() as int);
                let after = pairs_view(list@);
                assert(key_index(after, key@, i as int) == key_index(before, key@, i as int)) by {
                    lemma_key_index_prefix(before, after, key@, i as int);
                }
                assert(key_index(after, key@, i + 1) == Some(i as int));
                lemma_key_index_stable(after, key@, i as int, after.len() as int);
            }
            result
        },
        None => {
            let k = String::from_str(key);
            let value = String::from_str(delta);
            let result = value.clone();
            list.push((k, value));
            proof {
                let after = pairs_view(list@);
                assert(after =~= before.push((key@, delta@)));
                assert(key_index(after, key@, before.len() as int) is None) by {
                    lemma_key_index_prefix(before, after, key@, before.len() as int);
                }
                assert(key_index(after, key@, after.len() as int) == Some(before.len() as int));
            }
            result
        },
    }
}

/// Sets the text for `key`.
fn set_pair(list: &mut Vec<(String, String)>, key: &str, value: String)
    ensures
        pairs_view(final(list)@) == set_at(pairs_view(old(list)@), key@, value@),
{
    let ghost before = pairs_view(list@);
    let k = String::from_str(key);
    match find_pair(list, key) {
        Some(i) => {
            list.set(i, (k, value));
            proof {
                assert(pairs_view(list@) =~= before.update(i as int, (key@, value@)));
            }
        },
        None => {
            list.push((k, value));
            proof {
                assert(pairs_view(list@) =~= before.push((key@, value@)));
            }
        },
    }
}

proof fn lemma_key_index_prefix(a: PairsView, b: PairsView, k: Text, n: int)
    requires
        0 <= n <= a.len(),
        n <= b.len(),
        forall|j: int| 0 <= j < n ==> a[j].0 == b[j].0,
    ensures
        key_index(a, k, n) == key_index(b, k, n),
    decreases n,
{
    if n > 0 {
        lemma_key_index_prefix(a, b, k, n - 1);
    }
}

proof fn lemma_first_open_stable(c: Seq<CommitView>, i: int, m: int)
    requires
        0 <= i < m <= c.len(),
        first_open(c, i + 1) == Some(i),
    ensures
        first_open(c, m) == Some(i),
    decreases m - i,
{
    if m > i + 1 {
        lemma_first_open_stable(c, i, m - 1);
    }
}

proof fn lemma_commit_for_stable(c: Seq<CommitView>, id: Text, i: int, m: int)
    requires
        0 <= i < m <= c.len(),
        commit_for(c, id, i + 1) == Some(i),
    ensures
        commit_for(c, id, m) == Some(i),
    decreases m - i,
{
    if m > i + 1 {
        lemma_commit_for_stable(c, id, i, m - 1);
    }
}

fn find_open_commit(commits: &Vec<CommitState>) -> (r: Option<usize>)
    ensures
        index_of(r) == first_open(commits_view(commits@), commits@.len() as int),
        r matches Some(i) ==> i < commits@.len(),
{
    let ghost c = commits_view(commits@);
    let mut n: usize = 0;
    while n < commits.len()
        invariant
            n <= commits@.len(),
            c == commits_view(commits@),
            first_open(c, n as int) is None,
        decreases commits@.len() - n,
    {
        if commits[n].item_id.is_none() {
            proof {
                lemma_first_open_stable(c, n as int, commits@.len() as int);
            }
            return Some(n);
        }
        n += 1;
    }
    None
}

fn find_commit_for(commits: &Vec<CommitState>, id: &str) -> (r: Option<usize>)
    ensures
        index_of(r) == commit_for(commits_view(commits@), id@, commits@.len() as int),
        r matches Some(i) ==> i < commits@.len(),
{
    let ghost c = commits_view(commits@);
    let mut n: usize = 0;
    while n < commits.len()
        invariant
            n <= commits@.len(),
            c == commits_view(commits@),
            commit_for(c, id@, n as int) is None,
        decreases commits@.len() - n,
    {
        let same = match &commits[n].item_id {
            Some(s) => str_eq(s.as_str(), id),
            None => false,
        };
        if same {
            proof {
                lemma_commit_for_stable(c, id@, n as int, commits@.len() as int);
            }
            return Some(n);
        }
        n += 1;
    }
    None
}

/// After delivery the first remaining commit is never complete: a completed
/// transcript waits only for the commits before it.
pub proof fn lemma_drain_leaves_incomplete_front(c: Seq<CommitView>)
    ensures
        drain(c).0.len() > 0 ==> drain(c).0[0].1 is None,
        drain(c).1.len() + drain(c).0.len() == c.len(),
    decreases c.len(),
{
    if c.len() > 0 && c[0].1 is Some {
        lemma_drain_leaves_incomplete_front(c.drop_first());
    }
}

/// Finals come out in commit order: the delivered texts are the completed
/// transcripts of the first commits, and what remains is the rest.
pub proof fn lemma_drain_in_commit_order(c: Seq<CommitView>)
    ensures
        forall|i: int|
            0 <= i < drain(c).1.len() ==> c[i].1 == Some(#[trigger] drain(c).1[i]),
        drain(c).0 == c.skip(drain(c).1.len() as int),
    decreases c.len(),
{
    lemma_drain_leaves_incomplete_front(c);
    if c.len() > 0 && c[0].1 is Some {
        lemma_drain_in_commit_order(c.drop_first());
        let rest = drain(c.drop_first());
        assert forall|i: int| 0 <= i < drain(c).1.len() implies c[i].1 == Some(
            #[trigger] drain(c).1[i],
        ) by {
            if i > 0 {
                assert(drain(c).1[i] == rest.1[i - 1]);
                assert(c.drop_first()[i - 1] == c[i]);
            }
        }
        assert(c.drop_first().skip(rest.1.len() as int) =~= c.skip(rest.1.len() + 1int));
    } else {
        assert(c.skip(0) =~= c);
    }
}

/// No item id appears twice among the pairs.
pub open spec fn distinct_keys(l: PairsView) -> bool {
    forall|i: int, j: int| 0 <= i < j < l.len() ==> l[i].0 != l[j].0
}

proof fn lemma_key_index_none(l: PairsView, k: Text, n: int)
    requires
        0 <= n <= l.len(),
    ensures
        key_index(l, k, n) is None <==> forall|i: int| 0 <= i < n ==> l[i].0 != k,
    decreases n,
{
    if n > 0 {
        lemma_key_index_none(l, k, n - 1);
    }
}

proof fn lemma_find_key(l: PairsView, k: Text)
    ensures
        find_key(l, k) is None <==> forall|i: int| 0 <= i < l.len() ==> l[i].0 != k,
        find_key(l, k) matches Some(i) ==> 0 <= i < l.len() && l[i].0 == k,
{
    lemma_key_index_none(l, k, l.len() as int);
    lemma_key_index_found(l, k, l.len() as int);
}

proof fn lemma_append_keeps_distinct(l: PairsView, k: Text, d: Text)
    requires
        distinct_keys(l),
    ensures
        distinct_keys(append_at(l, k, d)),
        distinct_keys(set_at(l, k, d)),
{
    lemma_find_key(l, k);
    let a = append_at(l, k, d);
    let b = set_at(l, k, d);
    match find_key(l, k) {
        Some(i) => {
            assert forall|x: int, y: int| 0 <= x < y < a.len() implies a[x].0 != a[y].0 by {
                assert(a[x].0 == l[x].0);
                assert(a[y].0 == l[y].0);
            }
            assert forall|x: int, y: int| 0 <= x < y < b.len() implies b[x].0 != b[y].0 by {
                assert(b[x].0 == l[x].0);
                assert(b[y].0 == l[y].0);
            }
        },
        None => {
            assert forall|x: int, y: int| 0 <= x < y < a.len() implies a[x].0 != a[y].0 by {
                if y == l.len() {
                    assert(l[x].0 != k);
                }
            }
            assert forall|x: int, y: int| 0 <= x < y < b.len() implies b[x].0 != b[y].0 by {
                if y == l.len() {
                    assert(l[x].0 != k);
                }
            }
        },
    }
}

proof fn lemma_remove_keeps_distinct(l: PairsView, k: Text)
    requires
        distinct_keys(l),
    ensures
        distinct_keys(remove_key(l, k)),
        find_key(remove_key(l, k), k) is None,
{
    lemma_find_key(l, k);
    let r = remove_key(l, k);
    match find_key(l, k) {
        Some(i) => {
            assert forall|x: int, y: int| 0 <= x < y < r.len() implies r[x].0 != r[y].0 by {
                let lx = if x < i { x } else { x + 1 };
                let ly = if y < i { y } else { y + 1 };
                assert(r[x] == l[lx]);
                assert(r[y] == l[ly]);
            }
            assert forall|x: int| 0 <= x < r.len() implies r[x].0 != k by {
                let lx = if x < i { x } else { x + 1 };
                assert(r[x] == l[lx]);
                assert(lx != i);
            }
        },
        None => {},
    }
    lemma_find_key(r, k);
}

/// Every message keeps the parser's item ids distinct, among the
/// accumulated deltas and among the transcripts that came before their
/// commit.
pub proof fn lemma_step_keeps_ids_distinct(st: ParserView, text: Text, api_key: Text)
    requires
        distinct_keys(st.deltas),
        distinct_keys(st.early),
    ensures
        distinct_keys(openai_step(st, text, api_key).0.deltas),
        distinct_keys(openai_step(st, text, api_key).0.early),
{
    if json_parse_error(text) is None {
        match json_string_field(text, "item_id"@) {
            Some(id) => {
                lemma_remove_keeps_distinct(st.early, id);
                lemma_remove_keeps_distinct(st.deltas, id);
                match json_string_field(text, "delta"@) {
                    Some(d) => lemma_append_keeps_distinct(st.deltas, id, d),
                    None => {},
                }
                lemma_append_keeps_distinct(st.early, id, Seq::<char>::empty());
                let ty = text_or_empty(json_string_field(text, "type"@));
                if ty == "conversation.item.input_audio_transcription.completed"@ {
                    let accumulated = lookup(st.deltas, id);
                    let transcript = match json_string_field(text, "transcript"@) {
                        Some(t) => if t.len() > 0 {
                            t
                        } else {
                            text_or_empty(accumulated)
                        },
                        None => text_or_empty(accumulated),
                    };
                    lemma_append_keeps_distinct(st.early, id, transcript);
                }
            },
            None => {},
        }
    }
}

/// A completed item leaves no accumulated delta behind, even when the
/// server sent its own transcript.
pub proof fn lemma_completed_item_clears_its_delta(st: ParserView, text: Text, api_key: Text, id: Text)
    requires
        distinct_keys(st.deltas),
        json_parse_error(text) is None,
        json_string_field(text, "type"@) == Some("conversation.item.input_audio_transcription.completed"@),
        json_string_field(text, "item_id"@) == Some(id),
    ensures
        lookup(openai_step(st, text, api_key).0.deltas, id) is None,
{
    reveal_strlit("session.updated");
    reveal_strlit("input_audio_buffer.committed");
    reveal_strlit("conversation.item.input_audio_transcription.delta");
    reveal_strlit("conversation.item.input_audio_transcription.completed");
    let ty = text_or_empty(json_string_field(text, "type"@));
    assert(ty.len() != "session.updated"@.len());
    assert(ty.len() != "input_audio_buffer.committed"@.len());
    assert(ty.len() != "conversation.item.input_audio_transcription.delta"@.len());
    assert(ty != "session.updated"@);
    assert(ty != "input_audio_buffer.committed"@);
    assert(ty != "conversation.item.input_audio_transcription.delta"@);
    lemma_remove_keeps_distinct(st.deltas, id);
    lemma_find_key(remove_key(st.deltas, id), id);
    assert(openai_step(st, text, api_key).0.deltas == remove_key(st.deltas, id));
}


/// The commits once one server message has given an item to the first open
/// commit or a transcript to the commit of its item, before delivery.
pub open spec fn updated_commits(st: ParserView, text: Text) -> Seq<CommitView> {
    match json_parse_error(text) {
        Some(_) => st.commits,
        None => {
            let ty = text_or_empty(json_string_field(text, "type"@));
            if ty == "session.updated"@ {
                st.commits
            } else if ty == "input_audio_buffer.committed"@ {
                match json_string_field(text, "item_id"@) {
                    None => st.commits,
                    Some(id) => match first_open(st.commits, st.commits.len() as int) {
                        Some(i) => st.commits.update(i, (Some(id), lookup(st.early, id))),
                        None => st.commits,
                    },
                }
            } else if ty == "conversation.item.input_audio_transcription.delta"@ {
                st.commits
            } else if ty == "conversation.item.input_audio_transcription.completed"@ {
                match json_string_field(text, "item_id"@) {
                    None => st.commits,
                    Some(id) => {
                        let accumulated = lookup(st.deltas, id);
                        let transcript = match json_string_field(text, "transcript"@) {
                            Some(t) => if t.len() > 0 {
                                t
                            } else {
                                text_or_empty(accumulated)
                            },
                            None => text_or_empty(accumulated),
                        };
                        match commit_for(st.commits, id, st.commits.len() as int) {
                            Some(i) => st.commits.update(i, (st.commits[i].0, Some(transcript))),
                            None => st.commits,
                        }
                    },
                }
            } else {
                st.commits
            }
        },
    }
}

/// The texts of the final events, in order.
pub open spec fn final_texts(evs: Seq<EventView>) -> Seq<Text>
    decreases evs.len(),
{
    if evs.len() == 0 {
        Seq::<Text>::empty()
    } else {
        let rest = final_texts(evs.drop_last());
        match evs.last() {
            EventView::Final(t) => rest.push(t),
            _ => rest,
        }
    }
}

/// No commit waits at the front with its transcript already there.
pub open spec fn front_incomplete(c: Seq<CommitView>) -> bool {
    c.len() == 0 || c[0].1 is None
}

/// One thing that happens to the parser: an audio buffer committed by the
/// client, or a message from the server.
pub enum RunStep {
    Commit,
    Message(Text),
}

/// A run of the parser so far: its state; every commit sent, oldest first,
/// as it stands now; how many of them were delivered; and the texts of all
/// final events reported, in order.
pub struct RunView {
    pub parser: ParserView,
    pub ledger: Seq<CommitView>,
    pub delivered: nat,
    pub finals: Seq<Text>,
}

/// The run of a fresh parser through `steps`: `register_commit` for each
/// commit, `parse` for each message.
pub open spec fn run(steps: Seq<RunStep>, api_key: Text) -> RunView
    decreases steps.len(),
{
    if steps.len() == 0 {
        RunView {
            parser: ParserView {
                commits: Seq::<CommitView>::empty(),
                deltas: Seq::<(Text, Text)>::empty(),
                early: Seq::<(Text, Text)>::empty(),
            },
            ledger: Seq::<CommitView>::empty(),
            delivered: 0,
            finals: Seq::<Text>::empty(),
        }
    } else {
        let r = run(steps.drop_last(), api_key);
        match steps.last() {
            RunStep::Commit => RunView {
                parser: ParserView { commits: r.parser.commits.push((None, None)), ..r.parser },
                ledger: r.ledger.push((None, None)),
                ..r
            },
            RunStep::Message(t) => {
                let u = updated_commits(r.parser, t);
                let next = openai_step(r.parser, t, api_key);
                RunView {
                    parser: next.0,
                    ledger: r.ledger.take(r.delivered as int) + u,
                    delivered: r.delivered + drain(u).1.len(),
                    finals: r.finals + final_texts(next.1),
                }
            },
        }
    }
}

/// How many commits the client sent in `steps`.
pub open spec fn commits_sent(steps: Seq<RunStep>) -> nat
    decreases steps.len(),
{
    if steps.len() == 0 {
        0
    } else {
        commits_sent(steps.drop_last()) + if steps.last() is Commit {
            1nat
        } else {
            0nat
        }
    }
}

proof fn lemma_first_open_in_range(c: Seq<CommitView>, n: int)
    ensures
        first_open(c, n) matches Some(i) ==> 0 <= i < n,
    decreases n,
{
    if n > 0 {
        lemma_first_open_in_range(c, n - 1);
    }
}

proof fn lemma_commit_for_in_range(c: Seq<CommitView>, id: Text, n: int)
    ensures
        commit_for(c, id, n) matches Some(i) ==> 0 <= i < n,
    decreases n,
{
    if n > 0 {
        lemma_commit_for_in_range(c, id, n - 1);
    }
}

proof fn lemma_final_texts_of_finals(t: Seq<Text>)
    ensures
        final_texts(finals(t)) == t,
    decreases t.len(),
{
    if t.len() > 0 {
        assert(finals(t).drop_last() =~= finals(t.drop_last()));
        lemma_final_texts_of_finals(t.drop_last());
        assert(t.drop_last().push(t.last()) =~= t);
    }
}

/// One server message delivers exactly what draining its updated commits
/// delivers, and leaves the front commit incomplete.
proof fn lemma_step_drains(st: ParserView, text: Text, api_key: Text)
    requires
        front_incomplete(st.commits),
    ensures
        openai_step(st, text, api_key).0.commits == drain(updated_commits(st, text)).0,
        final_texts(openai_step(st, text, api_key).1) == drain(updated_commits(st, text)).1,
        front_incomplete(openai_step(st, text, api_key).0.commits),
        updated_commits(st, text).len() == st.commits.len(),
{
    let u = updated_commits(st, text);
    lemma_first_open_in_range(st.commits, st.commits.len() as int);
    match json_string_field(text, "item_id"@) {
        Some(id) => lemma_commit_for_in_range(st.commits, id, st.commits.len() as int),
        None => {},
    }
    lemma_drain_leaves_incomplete_front(u);
    lemma_final_texts_of_finals(drain(u).1);
    reveal_with_fuel(final_texts, 2);
    if st.commits.len() > 0 {
        assert(st.commits[0].1 is None);
    }
    assert(drain(st.commits) == (st.commits, Seq::<Text>::empty()));
    let evs = openai_step(st, text, api_key).1;
    if u == st.commits && openai_step(st, text, api_key).0.commits == st.commits {
        assert(final_texts(seq![EventView::Created]) == Seq::<Text>::empty()) by {
            assert(seq![EventView::Created].drop_last() =~= Seq::<EventView>::empty());
        }
        assert forall|e: Text| #![auto] final_texts(seq![EventView::Error(e)]) == Seq::<Text>::empty() by {
            assert(seq![EventView::Error(e)].drop_last() =~= Seq::<EventView>::empty());
        }
        assert forall|e: Text| #![auto] final_texts(seq![EventView::Partial(e)]) == Seq::<Text>::empty() by {
            assert(seq![EventView::Partial(e)].drop_last() =~= Seq::<EventView>::empty());
        }
    }
}

/// Over a whole run, finals come out in commit order: the parser holds the
/// commits not yet delivered, the finals reported are the transcripts of
/// the first commits, one each and oldest first, and a delivered commit is
/// never reported again.
pub proof fn law_finals_follow_commit_order(steps: Seq<RunStep>, api_key: Text)
    ensures
        run(steps, api_key).ledger.len() == commits_sent(steps),
        run(steps, api_key).delivered <= run(steps, api_key).ledger.len(),
        run(steps, api_key).parser.commits == run(steps, api_key).ledger.skip(run(steps, api_key).delivered as int),
        run(steps, api_key).finals.len() == run(steps, api_key).delivered,
        forall|j: int| 0 <= j < run(steps, api_key).delivered ==> run(steps, api_key).ledger[j].1 == Some(
            #[trigger] run(steps, api_key).finals[j],
        ),
        front_incomplete(run(steps, api_key).parser.commits),
    decreases steps.len(),
{
    if steps.len() > 0 {
        let prev = steps.drop_last();
        law_finals_follow_commit_order(prev, api_key);
        let r = run(prev, api_key);
        let d = r.delivered as int;
        let n = run(steps, api_key);
        match steps.last() {
            RunStep::Commit => {
                assert(r.ledger.push((None, None)).skip(d) =~= r.ledger.skip(d).push((None, None)));
                assert forall|j: int| 0 <= j < n.delivered implies n.ledger[j].1 == Some(#[trigger] n.finals[j]) by {
                    assert(n.ledger[j] == r.ledger[j]);
                }
            },
            RunStep::Message(t) => {
                let u = updated_commits(r.parser, t);
                lemma_step_drains(r.parser, t, api_key);
                lemma_drain_in_commit_order(u);
                lemma_drain_leaves_incomplete_front(u);
                let k = drain(u).1.len() as int;
                assert(n.ledger == r.ledger.take(d) + u);
                assert(n.ledger.skip(d + k) =~= u.skip(k));
                assert(n.finals == r.finals + drain(u).1);
                assert forall|j: int| 0 <= j < n.delivered implies n.ledger[j].1 == Some(#[trigger] n.finals[j]) by {
                    if j < d {
                        assert(n.ledger[j] == r.ledger[j]);
                        assert(n.finals[j] == r.finals[j]);
                    } else {
                        assert(n.ledger[j] == u[j - d]);
                        assert(n.finals[j] == drain(u).1[j - d]);
                    }
                }
            },
        }
    }
}


proof fn lemma_final_texts_append(a: Seq<EventView>, b: Seq<EventView>)
    ensures
        final_texts(a + b) == final_texts(a) + final_texts(b),
    decreases b.len(),
{
    if b.len() == 0 {
        assert(a + b =~= a);
        assert(final_texts(a) + Seq::<Text>::empty() =~= final_texts(a));
    } else {
        lemma_final_texts_append(a, b.drop_last());
        assert((a + b).drop_last() =~= a + b.drop_last());
        assert((a + b).last() == b.last());
        match b.last() {
            EventView::Final(t) => {
                assert(final_texts(a) + final_texts(b.drop_last()).push(t) =~= (final_texts(a) + final_texts(
                    b.drop_last(),
                )).push(t));
            },
            _ => {},
        }
    }
}

/// One recorded input of a realtime session: an audio buffer the client
/// committed, or a message the server sent.
pub enum RunInput {
    Commit,
    Message(String),
}

pub open spec fn run_steps(v: Seq<RunInput>) -> Seq<RunStep> {
    v.map_values(
        |i: RunInput|
            match i {
                RunInput::Commit => RunStep::Commit,
                RunInput::Message(t) => RunStep::Message(t@),
            },
    )
}

impl OpenAiEventParser {
    /// Feeds a recorded session to a fresh parser, in order: a commit is
    /// registered, a message is parsed. Gives back the parser and every
    /// event it reported; the finals among them are those of `run`, so
    /// they come in commit order (`law_finals_follow_commit_order`).
    pub fn replay(inputs: &Vec<RunInput>, api_key: &str) -> (r: (OpenAiEventParser, Vec<RealtimeEvent>))
        ensures
            r.0.view_state() == run(run_steps(inputs@), api_key@).parser,
            final_texts(events_view(r.1@)) == run(run_steps(inputs@), api_key@).finals,
    {
        let mut parser = OpenAiEventParser::default();
        let mut events: Vec<RealtimeEvent> = Vec::new();
        proof {
            assert(run_steps(inputs@.take(0)) =~= Seq::<RunStep>::empty());
            assert(parser.view_state().commits =~= Seq::<CommitView>::empty());
            assert(parser.view_state().deltas =~= Seq::<(Text, Text)>::empty());
            assert(parser.view_state().early =~= Seq::<(Text, Text)>::empty());
            assert(events_view(events@) =~= Seq::<EventView>::empty());
        }
        let mut i: usize = 0;
        while i < inputs.len()
            invariant
                i <= inputs@.len(),
                parser.view_state() == run(run_steps(inputs@.take(i as int)), api_key@).parser,
                final_texts(events_view(events@)) == run(run_steps(inputs@.take(i as int)), api_key@).finals,
            decreases inputs@.len() - i,
        {
            let ghost before = events@;
            proof {
                assert(run_steps(inputs@.take(i + 1)).drop_last() =~= run_steps(inputs@.take(i as int)));
            }
            match &inputs[i] {
                RunInput::Commit => {
                    parser.register_commit();
                    proof {
                        assert(run_steps(inputs@.take(i + 1)).last() == RunStep::Commit);
                    }
                },
                RunInput::Message(text) => {
                    let mut reported = parser.parse(text.as_str(), api_key);
                    let ghost more = reported@;
                    events.append(&mut reported);
                    proof {
                        assert(run_steps(inputs@.take(i + 1)).last() == RunStep::Message(text@));
                        assert(events_view(events@) =~= events_view(before) + events_view(more));
                        lemma_final_texts_append(events_view(before), events_view(more));
                    }
                },
            }
            i += 1;
        }
        proof {
            assert(inputs@.take(i as int) =~= inputs@);
        }
        (parser, events)
    }
}

} // verus!
