//! Streaming transcription: the events a session reports, protocol error
//! redaction, endpoint checks, and the two providers' event parsers.
pub mod openai;
pub mod xai;

use vstd::prelude::*;
use vstd::string::StringExecFns;
use crate::chars::{
    chars_of, contains_seq, occurs_at, occurs_at_exec, push_chars, push_str, replace_all, seq_eq, starts_with,
    string_from_chars,
};
use crate::error::{AppError, AppResult};
use crate::url::{parse_url, parsed_url};

verus! {

pub const MAX_INBOUND_MESSAGE_BYTES: usize = 262144;

#[derive(Clone, Debug)]
pub enum RealtimeEvent {
    Created,
    Partial(String),
    Final(String),
    Done,
    Error(String),
    Cancelled,
}

/// A realtime event with its text as a character sequence.
pub enum EventView {
    Created,
    Partial(Seq<char>),
    Final(Seq<char>),
    Done,
    Error(Seq<char>),
    Cancelled,
}

pub open spec fn event_view(e: RealtimeEvent) -> EventView {
    match e {
        RealtimeEvent::Created => EventView::Created,
        RealtimeEvent::Partial(t) => EventView::Partial(t@),
        RealtimeEvent::Final(t) => EventView::Final(t@),
        RealtimeEvent::Done => EventView::Done,
        RealtimeEvent::Error(t) => EventView::Error(t@),
        RealtimeEvent::Cancelled => EventView::Cancelled,
    }
}

pub open spec fn events_view(v: Seq<RealtimeEvent>) -> Seq<EventView> {
    v.map_values(|e: RealtimeEvent| event_view(e))
}

impl PartialEq for RealtimeEvent {
    fn eq(&self, other: &Self) -> (r: bool) {
        match (self, other) {
            (RealtimeEvent::Created, RealtimeEvent::Created) => true,
            (RealtimeEvent::Partial(a), RealtimeEvent::Partial(b)) => crate::chars::str_eq(a.as_str(), b.as_str()),
            (RealtimeEvent::Final(a), RealtimeEvent::Final(b)) => crate::chars::str_eq(a.as_str(), b.as_str()),
            (RealtimeEvent::Done, RealtimeEvent::Done) => true,
            (RealtimeEvent::Error(a), RealtimeEvent::Error(b)) => crate::chars::str_eq(a.as_str(), b.as_str()),
            (RealtimeEvent::Cancelled, RealtimeEvent::Cancelled) => true,
            _ => false,
        }
    }
}

impl vstd::std_specs::cmp::PartialEqSpecImpl for RealtimeEvent {
    open spec fn obeys_eq_spec() -> bool {
        true
    }

    open spec fn eq_spec(&self, other: &Self) -> bool {
        event_view(*self) == event_view(*other)
    }
}

pub const REDACTED: &'static str = "[REDACTED]";

/// A protocol error with every occurrence of the API key replaced.
pub open spec fn sanitize_spec(message: Seq<char>, api_key: Seq<char>) -> Seq<char> {
    if api_key.len() == 0 {
        message
    } else {
        replace_all(message, api_key, REDACTED@)
    }
}

proof fn lemma_replace_all_step(s: Seq<char>, pat: Seq<char>, rep: Seq<char>, i: int)
    requires
        pat.len() > 0,
        0 <= i < s.len(),
    ensures
        occurs_at(s, i, pat) ==> replace_all(s.skip(i), pat, rep) == rep + replace_all(
            s.skip(i + pat.len()),
            pat,
            rep,
        ),
        !occurs_at(s, i, pat) ==> replace_all(s.skip(i), pat, rep) == seq![s[i]] + replace_all(
            s.skip(i + 1),
            pat,
            rep,
        ),
{
    let t = s.skip(i);
    if occurs_at(s, i, pat) {
        assert(t.subrange(0, pat.len() as int) =~= s.subrange(i, i + pat.len()));
        assert(t.skip(pat.len() as int) =~= s.skip(i + pat.len()));
    } else {
        assert(t.drop_first() =~= s.skip(i + 1));
        if t.len() >= pat.len() {
            assert(t.subrange(0, pat.len() as int) =~= s.subrange(i, i + pat.len()));
        } else {
            let u = s.skip(i + 1);
            assert(u.len() < pat.len());
            assert(replace_all(u, pat, rep) == u);
            assert(t =~= seq![s[i]] + u);
        }
    }
}

/// Every occurrence of `pat` (non-empty), left to right without overlap,
/// replaced by `rep`.
pub fn replace_all_exec(s: &[char], pat: &[char], rep: &[char]) -> (r: Vec<char>)
    requires
        pat@.len() > 0,
    ensures
        r@ == replace_all(s@, pat@, rep@),
{
    let mut out: Vec<char> = Vec::new();
    let mut i: usize = 0;
    let rv = slice_to_vec(rep);
    proof {
        assert(s@.skip(0) =~= s@);
        assert(out@ + replace_all(s@, pat@, rep@) =~= replace_all(s@, pat@, rep@));
    }
    while i < s.len()
        invariant
            i <= s@.len(),
            pat@.len() > 0,
            rv@ == rep@,
            out@ + replace_all(s@.skip(i as int), pat@, rep@) == replace_all(s@, pat@, rep@),
        decreases s@.len() - i,
    {
        proof {
            lemma_replace_all_step(s@, pat@, rep@, i as int);
        }
        if occurs_at_exec(s, i, pat) {
            proof {
                assert(out@ + rep@ + replace_all(s@.skip(i + pat@.len()), pat@, rep@) =~= out@
                    + replace_all(s@.skip(i as int), pat@, rep@));
            }
            push_chars(&mut out, &rv);
            i = i + pat.len();
        } else {
            proof {
                assert(out@.push(s@[i as int]) + replace_all(s@.skip(i + 1), pat@, rep@) =~= out@
                    + replace_all(s@.skip(i as int), pat@, rep@));
            }
            out.push(s[i]);
            i += 1;
        }
    }
    proof {
        assert(s@.skip(i as int) =~= Seq::<char>::empty());
        assert(out@ + Seq::<char>::empty() =~= out@);
    }
    out
}

fn slice_to_vec(s: &[char]) -> (r: Vec<char>)
    ensures
        r@ == s@,
{
    let mut r: Vec<char> = Vec::new();
    let mut i: usize = 0;
    while i < s.len()
        invariant
            i <= s@.len(),
            r@ == s@.take(i as int),
        decreases s@.len() - i,
    {
        r.push(s[i]);
        i += 1;
        proof {
            assert(r@ =~= s@.take(i as int));
        }
    }
    proof {
        assert(s@.take(i as int) =~= s@);
    }
    r
}

pub fn sanitize_chars(message: &Vec<char>, api_key: &str) -> (r: Vec<char>)
    ensures
        r@ == sanitize_spec(message@, api_key@),
{
    let key = chars_of(api_key);
    if key.len() == 0 {
        return slice_to_vec(message.as_slice());
    }
    let rep = chars_of(REDACTED);
    replace_all_exec(message.as_slice(), key.as_slice(), rep.as_slice())
}

/// The message with every occurrence of the API key replaced by `[REDACTED]`.
pub fn sanitized_protocol_error(message: &str, api_key: &str) -> (r: String)
    ensures
        r@ == sanitize_spec(message@, api_key@),
{
    let m = chars_of(message);
    let s = sanitize_chars(&m, api_key);
    string_from_chars(s.as_slice())
}

pub open spec fn local_test_host(h: Option<Seq<char>>) -> bool {
    h == Some("127.0.0.1"@) || h == Some("localhost"@) || h == Some("::1"@)
}

/// A realtime endpoint must use `wss://`; plain `ws://` is accepted only for
/// a local test host.
pub open spec fn ws_endpoint_spec(endpoint: Seq<char>) -> Result<(), Seq<char>> {
    match parsed_url(endpoint) {
        Err(e) => Err("Realtime URL 無效："@ + e),
        Ok(u) => if u.0 == "wss"@ || (u.0 == "ws"@ && local_test_host(u.1)) {
            Ok(())
        } else {
            Err("Realtime 正式端點必須使用 wss://"@)
        },
    }
}

fn text_is(s: &String, lit: &str) -> (b: bool)
    ensures
        b == (s@ == lit@),
{
    crate::chars::str_eq(s.as_str(), lit)
}

pub fn validate_ws_endpoint(endpoint: &str) -> (r: AppResult<()>)
    ensures
        match ws_endpoint_spec(endpoint@) {
            Ok(()) => r is Ok,
            Err(m) => r matches Err(AppError::Configuration(e)) && e@ == m,
        },
{
    let parsed = match parse_url(endpoint) {
        Ok(u) => u,
        Err(e) => {
            let mut m = chars_of("Realtime URL 無效：");
            push_str(&mut m, e.as_str());
            return Err(AppError::Configuration(string_from_chars(m.as_slice())));
        },
    };
    let secure = text_is(&parsed.scheme, "wss");
    let local_host = match &parsed.host {
        Some(h) => text_is(h, "127.0.0.1") || text_is(h, "localhost") || text_is(h, "::1"),
        None => false,
    };
    let local_test = text_is(&parsed.scheme, "ws") && local_host;
    if !secure && !local_test {
        return Err(AppError::Configuration(String::from_str("Realtime 正式端點必須使用 wss://")));
    }
    Ok(())
}

pub const SESSION_CLOSED_MESSAGE: &'static str = "Realtime session 已關閉";

pub const EVENT_CHANNEL_CLOSED_MESSAGE: &'static str = "Realtime event channel 已關閉";

/// The two bytes of a 16-bit sample, low byte first.
pub open spec fn le_bytes(s: i16) -> Seq<u8> {
    seq![((s as u16) % 256) as u8, ((s as u16) / 256) as u8]
}

/// 16-bit PCM samples as little-endian bytes, in order.
pub open spec fn pcm16_le_spec(samples: Seq<i16>) -> Seq<u8>
    decreases samples.len(),
{
    if samples.len() == 0 {
        Seq::<u8>::empty()
    } else {
        pcm16_le_spec(samples.drop_last()) + le_bytes(samples.last())
    }
}

/// Two bytes for each sample.
pub(crate) proof fn lemma_pcm16_len(samples: Seq<i16>)
    ensures
        pcm16_le_spec(samples).len() == 2 * samples.len(),
    decreases samples.len(),
{
    if samples.len() > 0 {
        lemma_pcm16_len(samples.drop_last());
    }
}

/// The text that the `base64` crate's `STANDARD` engine (RFC 4648
/// alphabet, `=` padding) writes for `bytes`.
pub uninterp spec fn base64_standard(bytes: Seq<u8>) -> Seq<char>;

/// `Engine::encode` with `base64::engine::general_purpose::STANDARD`; it
/// panics when the encoded length overflows `usize`, which the bound on
/// `bytes` rules out.
#[verifier::external_body]
pub(crate) fn base64_encode(bytes: &[u8]) -> (r: String)
    requires
        bytes@.len() <= usize::MAX / 2,
    ensures
        r@ == base64_standard(bytes@),
{
    base64::Engine::encode(&base64::engine::general_purpose::STANDARD, bytes)
}

/// The bytes of an audio message: each sample as two little-endian bytes.
pub fn pcm16_le_bytes(samples: &[i16]) -> (r: Vec<u8>)
    ensures
        r@ == pcm16_le_spec(samples@),
{
    let mut out: Vec<u8> = Vec::new();
    let mut i: usize = 0;
    while i < samples.len()
        invariant
            i <= samples@.len(),
            out@ == pcm16_le_spec(samples@.take(i as int)),
        decreases samples@.len() - i,
    {
        let u = samples[i] as u16;
        let ghost before = out@;
        out.push((u % 256) as u8);
        out.push((u / 256) as u8);
        proof {
            assert(samples@.take(i + 1).drop_last() =~= samples@.take(i as int));
            assert(out@ =~= before + le_bytes(samples@[i as int]));
        }
        i += 1;
    }
    proof {
        assert(samples@.take(i as int) =~= samples@);
    }
    out
}

/// An audio message must hold between one and `max` samples.
pub fn check_audio_frame(len: usize, max: usize) -> (r: AppResult<()>)
    ensures
        (len == 0 || len > max) ==> (r matches Err(AppError::Audio(m)) && m@ == "Realtime 音訊 frame 必須介於 1 與 "@
            + crate::chars::decimal_spec(max as nat) + " samples"@),
        !(len == 0 || len > max) ==> r is Ok,
{
    if len == 0 || len > max {
        let mut m = chars_of("Realtime 音訊 frame 必須介於 1 與 ");
        let n = crate::chars::decimal(max as u64);
        push_str(&mut m, n.as_str());
        push_str(&mut m, " samples");
        Err(AppError::Audio(string_from_chars(m.as_slice())))
    } else {
        Ok(())
    }
}

/// A letter of the word inside the redaction marker.
pub open spec fn is_marker_letter(c: char) -> bool {
    c == 'R' || c == 'E' || c == 'D' || c == 'A' || c == 'C' || c == 'T'
}

/// A key that the marker cannot spell out: not empty, without square
/// brackets, and with at least one character that is not a letter of
/// `REDACTED` (as every real API key has).
pub open spec fn redactable_key(k: Seq<char>) -> bool {
    &&& k.len() > 0
    &&& forall|j: int| 0 <= j < k.len() ==> k[j] != '[' && k[j] != ']'
    &&& exists|j: int| 0 <= j < k.len() && !is_marker_letter(#[trigger] k[j])
}

/// A prefix of a replacement's output is the same prefix of its input, or
/// holds the opening bracket of a marker.
proof fn lemma_output_prefix(t: Seq<char>, k: Seq<char>, n: int)
    requires
        k.len() > 0,
        0 <= n <= replace_all(t, k, REDACTED@).len(),
    ensures
        (n <= t.len() && replace_all(t, k, REDACTED@).take(n) == t.take(n)) || replace_all(
            t,
            k,
            REDACTED@,
        ).take(n).contains('['),
    decreases t.len(),
{
    reveal_strlit("[REDACTED]");
    let r = replace_all(t, k, REDACTED@);
    if t.len() < k.len() {
    } else if starts_with(t, k) {
        if n > 0 {
            assert(r.take(n)[0] == '[');
        } else {
            assert(r.take(0) =~= t.take(0));
        }
    } else if n > 0 {
        let rest = replace_all(t.drop_first(), k, REDACTED@);
        assert(r == seq![t[0]] + rest);
        lemma_output_prefix(t.drop_first(), k, n - 1);
        if n - 1 <= t.drop_first().len() && rest.take(n - 1) == t.drop_first().take(n - 1) {
            assert(r.take(n) =~= seq![t[0]] + rest.take(n - 1));
            assert(t.take(n) =~= seq![t[0]] + t.drop_first().take(n - 1));
            assert(r.take(n) =~= t.take(n));
        } else {
            let j = choose|j: int| 0 <= j < rest.take(n - 1).len() && #[trigger] rest.take(n - 1)[j] == '[';
            assert(r.take(n)[j + 1] == '[');
        }
    } else {
        assert(r.take(0) =~= t.take(0));
    }
}

/// Replacing every occurrence of a redactable key leaves no occurrence of it.
pub proof fn lemma_replacement_hides_key(s: Seq<char>, k: Seq<char>)
    requires
        redactable_key(k),
    ensures
        !contains_seq(replace_all(s, k, REDACTED@), k),
    decreases s.len(),
{
    reveal_strlit("[REDACTED]");
    let m = REDACTED@;
    assert(m =~= seq!['[', 'R', 'E', 'D', 'A', 'C', 'T', 'E', 'D', ']']);
    let r = replace_all(s, k, m);
    if s.len() < k.len() {
        assert forall|i: int| !occurs_at(r, i, k) by {}
    } else if starts_with(s, k) {
        let rest = replace_all(s.skip(k.len() as int), k, m);
        assert(r == m + rest);
        lemma_replacement_hides_key(s.skip(k.len() as int), k);
        assert forall|i: int| !occurs_at(r, i, k) by {
            if occurs_at(r, i, k) {
                if i + k.len() <= 10 {
                    let w = choose|j: int| 0 <= j < k.len() && !is_marker_letter(#[trigger] k[j]);
                    assert(k[0] == r[i]);
                    assert(k[k.len() - 1] == r[i + k.len() - 1]);
                    assert(k[w] == r[i + w]);
                    assert(r[i + w] == m[i + w]);
                } else if i < 10 {
                    assert(k[9 - i] == r[9]);
                    assert(r[9] == ']');
                } else {
                    assert(rest.subrange(i - 10, i - 10 + k.len()) =~= r.subrange(i, i + k.len()));
                    assert(occurs_at(rest, i - 10, k));
                }
            }
        }
    } else {
        let rest = replace_all(s.drop_first(), k, m);
        assert(r == seq![s[0]] + rest);
        lemma_replacement_hides_key(s.drop_first(), k);
        assert forall|i: int| !occurs_at(r, i, k) by {
            if occurs_at(r, i, k) {
                if i >= 1 {
                    assert(rest.subrange(i - 1, i - 1 + k.len()) =~= r.subrange(i, i + k.len()));
                    assert(occurs_at(rest, i - 1, k));
                } else {
                    let n = k.len() - 1;
                    lemma_output_prefix(s.drop_first(), k, n);
                    assert(r.take(k.len() as int) =~= seq![s[0]] + rest.take(n));
                    if n <= s.drop_first().len() && rest.take(n) == s.drop_first().take(n) {
                        assert(r.take(k.len() as int) =~= s.take(k.len() as int));
                        assert(s.subrange(0, k.len() as int) =~= k);
                    } else {
                        let j = choose|j: int| 0 <= j < rest.take(n).len() && #[trigger] rest.take(n)[j] == '[';
                        assert(k[j + 1] == r[j + 1]);
                    }
                }
            }
        }
    }
}

/// A protocol or HTTP error, once redacted, never shows the API key.
pub proof fn lemma_redaction_hides_key(message: Seq<char>, api_key: Seq<char>)
    requires
        redactable_key(api_key),
    ensures
        !contains_seq(sanitize_spec(message, api_key), api_key),
{
    lemma_replacement_hides_key(message, api_key);
}

} // verus!
