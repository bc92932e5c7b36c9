//! Batch speech-to-text providers: the request a provider receives, the
//! endpoint and form fields it sends, and how its answers and failures are
//! reported.
use vstd::prelude::*;
use vstd::string::StringExecFns;
use crate::chars::{chars_of, eq_ignore_ascii_case, is_blank, is_ws, lower_seq, lowered, push_str, seq_eq, string_from_chars, trim};
use crate::error::{error_text, AppError, AppResult};
use crate::realtime::{sanitize_chars, sanitize_spec};

verus! {

/// What is sent to a provider: the recording as WAV bytes, and optionally
/// the language and a prompt.
#[derive(Debug, Clone)]
pub struct ProviderRequest {
    pub wav_bytes: Vec<u8>,
    pub language: Option<String>,
    pub prompt: Option<String>,
}

/// At most this many characters of an error body are shown.
pub const MAX_ERROR_BODY_CHARS: usize = 800;

/// At most this many key terms are sent to xAI.
pub const MAX_XAI_KEYTERMS: usize = 100;

pub const EMPTY_TRANSCRIPT_MESSAGE: &'static str = "API 回傳空白辨識結果";

/// A transcript is accepted unless it is blank.
pub fn nonempty_transcript(text: String) -> (r: AppResult<String>)
    ensures
        trim(text@).len() == 0 ==> (r matches Err(AppError::Transcription(m)) && m@ == EMPTY_TRANSCRIPT_MESSAGE@),
        trim(text@).len() != 0 ==> (r matches Ok(t) && t == text),
{
    if is_blank(text.as_str()) {
        Err(AppError::Transcription(String::from_str(EMPTY_TRANSCRIPT_MESSAGE)))
    } else {
        Ok(text)
    }
}

/// An error body as shown to the user: the API key replaced by
/// `[REDACTED]`, and cut after 800 characters.
pub open spec fn error_body_spec(body: Seq<char>, api_key: Seq<char>) -> Seq<char> {
    let redacted = sanitize_spec(body, api_key);
    if redacted.len() <= MAX_ERROR_BODY_CHARS {
        redacted
    } else {
        redacted.take(MAX_ERROR_BODY_CHARS as int)
    }
}

/// The body of a failed HTTP answer, safe to show (see `error_body_spec`).
pub fn sanitized_error_body(body: &str, api_key: &str) -> (r: String)
    ensures
        r@ == error_body_spec(body@, api_key@),
{
    let b = chars_of(body);
    let redacted = sanitize_chars(&b, api_key);
    let mut out: Vec<char> = Vec::new();
    let mut i: usize = 0;
    while i < redacted.len() && i < MAX_ERROR_BODY_CHARS
        invariant
            i <= redacted@.len(),
            i <= MAX_ERROR_BODY_CHARS,
            out@ == redacted@.take(i as int),
        decreases redacted@.len() - i,
    {
        out.push(redacted[i]);
        proof {
            assert(redacted@.take(i + 1) =~= redacted@.take(i as int).push(redacted@[i as int]));
        }
        i += 1;
    }
    proof {
        if redacted@.len() <= MAX_ERROR_BODY_CHARS {
            assert(redacted@.take(i as int) =~= redacted@);
        }
    }
    string_from_chars(out.as_slice())
}

/// The languages for which xAI formats the text, as lower-case codes.
pub open spec fn xai_formatting_languages() -> Seq<Seq<char>> {
    seq![
        "ar"@, "cs"@, "da"@, "de"@, "en"@, "es"@, "fa"@, "fil"@, "fr"@, "hi"@, "id"@, "it"@,
        "ja"@, "ko"@, "mk"@, "ms"@, "nl"@, "pl"@, "pt"@, "ro"@, "ru"@, "sv"@, "th"@, "tr"@,
        "vi"@,
    ]
}

/// Whether xAI formats text in `language` (its code in any case).
pub open spec fn xai_formats(language: Seq<char>) -> bool {
    xai_formatting_languages().contains(lower_seq(language))
}

fn is_code(l: &Vec<char>, code: &str) -> (b: bool)
    ensures
        b == (l@ == code@),
{
    let c = chars_of(code);
    seq_eq(l.as_slice(), c.as_slice())
}

/// Whether xAI supports formatting for `language`; Chinese, for one, is
/// sent without a language.
pub fn supports_xai_formatting(language: &str) -> (b: bool)
    ensures
        b == xai_formats(language@),
{
    let l = lowered(chars_of(language).as_slice());
    let ghost codes = xai_formatting_languages();
    proof {
        reveal_strlit("ar");
        reveal_strlit("cs");
        reveal_strlit("da");
        reveal_strlit("de");
        reveal_strlit("en");
        reveal_strlit("es");
        reveal_strlit("fa");
        reveal_strlit("fil");
        reveal_strlit("fr");
        reveal_strlit("hi");
        reveal_strlit("id");
        reveal_strlit("it");
        reveal_strlit("ja");
        reveal_strlit("ko");
        reveal_strlit("mk");
        reveal_strlit("ms");
        reveal_strlit("nl");
        reveal_strlit("pl");
        reveal_strlit("pt");
        reveal_strlit("ro");
        reveal_strlit("ru");
        reveal_strlit("sv");
        reveal_strlit("th");
        reveal_strlit("tr");
        reveal_strlit("vi");
    }
    let b = is_code(&l, "ar") || is_code(&l, "cs") || is_code(&l, "da") || is_code(&l, "de")
        || is_code(&l, "en") || is_code(&l, "es") || is_code(&l, "fa") || is_code(&l, "fil")
        || is_code(&l, "fr") || is_code(&l, "hi") || is_code(&l, "id") || is_code(&l, "it")
        || is_code(&l, "ja") || is_code(&l, "ko") || is_code(&l, "mk") || is_code(&l, "ms")
        || is_code(&l, "nl") || is_code(&l, "pl") || is_code(&l, "pt") || is_code(&l, "ro")
        || is_code(&l, "ru") || is_code(&l, "sv") || is_code(&l, "th") || is_code(&l, "tr")
        || is_code(&l, "vi");
    proof {
        if b {
            assert(codes.contains(l@));
        } else {
            assert forall|i: int| 0 <= i < codes.len() implies codes[i] != l@ by {}
        }
    }
    b
}

/// `s` without its trailing slashes (`str::trim_end_matches('/')`).
pub open spec fn trim_slashes(s: Seq<char>) -> Seq<char>
    decreases s.len(),
{
    if s.len() > 0 && s.last() == '/' {
        trim_slashes(s.drop_last())
    } else {
        s
    }
}

/// The base URL without trailing slashes, followed by `path`.
pub fn endpoint(base_url: &str, path: &str) -> (r: String)
    ensures
        r@ == trim_slashes(base_url@) + path@,
{
    let b = chars_of(base_url);
    let mut n: usize = b.len();
    proof {
        assert(b@.take(n as int) =~= b@);
    }
    while n > 0 && b[n - 1] == '/'
        invariant
            n <= b@.len(),
            trim_slashes(b@) == trim_slashes(b@.take(n as int)),
        decreases n,
    {
        proof {
            assert(b@.take(n as int).drop_last() =~= b@.take(n - 1));
        }
        n -= 1;
    }
    let mut out: Vec<char> = Vec::new();
    let mut i: usize = 0;
    while i < n
        invariant
            i <= n <= b@.len(),
            out@ == b@.take(i as int),
        decreases n - i,
    {
        out.push(b[i]);
        proof {
            assert(b@.take(i + 1) =~= b@.take(i as int).push(b@[i as int]));
        }
        i += 1;
    }
    proof {
        assert(trim_slashes(b@.take(n as int)) == b@.take(n as int));
    }
    push_str(&mut out, path);
    string_from_chars(out.as_slice())
}

/// The OpenAI transcription endpoint under `base_url`.
pub fn openai_endpoint(base_url: &str) -> (r: String)
    ensures
        r@ == trim_slashes(base_url@) + "/v1/audio/transcriptions"@,
{
    endpoint(base_url, "/v1/audio/transcriptions")
}

/// The xAI speech-to-text endpoint under `base_url`.
pub fn xai_endpoint(base_url: &str) -> (r: String)
    ensures
        r@ == trim_slashes(base_url@) + "/v1/stt"@,
{
    endpoint(base_url, "/v1/stt")
}

pub open spec fn field(name: Seq<char>, value: Seq<char>) -> (Seq<char>, Seq<char>) {
    (name, value)
}

pub open spec fn fields_view(v: Seq<(String, String)>) -> Seq<(Seq<char>, Seq<char>)> {
    v.map_values(|f: (String, String)| (f.0@, f.1@))
}

/// The non-blank key terms, at most `limit` of them, in order.
pub open spec fn usable_keyterms(terms: Seq<Seq<char>>, limit: nat) -> Seq<Seq<char>>
    decreases terms.len(),
{
    if terms.len() == 0 || limit == 0 {
        Seq::<Seq<char>>::empty()
    } else if trim(terms[0]).len() == 0 {
        usable_keyterms(terms.drop_first(), limit)
    } else {
        seq![terms[0]] + usable_keyterms(terms.drop_first(), (limit - 1) as nat)
    }
}

/// The text fields of an xAI request, in the order they are sent, before
/// the file: `format` when formatting is on and the language is supported,
/// `language` when supported, then the usable key terms. The file part
/// comes after all of them.
pub open spec fn xai_fields_spec(
    format_text: bool,
    language: Option<Seq<char>>,
    keyterms: Seq<Seq<char>>,
) -> Seq<(Seq<char>, Seq<char>)> {
    let lang = match language {
        Some(l) => if xai_formats(l) {
            Some(l)
        } else {
            None
        },
        None => None,
    };
    let head = match lang {
        Some(l) => if format_text {
            seq![field("format"@, "true"@), field("language"@, l)]
        } else {
            seq![field("language"@, l)]
        },
        None => Seq::<(Seq<char>, Seq<char>)>::empty(),
    };
    head + usable_keyterms(keyterms, MAX_XAI_KEYTERMS as nat).map_values(
        |t: Seq<char>| field("keyterm"@, t),
    )
}

pub open spec fn opt_view(o: Option<String>) -> Option<Seq<char>> {
    match o {
        Some(s) => Some(s@),
        None => None,
    }
}

/// The text fields of an xAI request (see `xai_fields_spec`).
pub fn xai_form_fields(format_text: bool, language: Option<String>, keyterms: &[String]) -> (r: Vec<(String, String)>)
    ensures
        fields_view(r@) == xai_fields_spec(format_text, opt_view(language), keyterms@.map_values(|s: String| s@)),
{
    let ghost terms = keyterms@.map_values(|s: String| s@);
    let mut out: Vec<(String, String)> = Vec::new();
    let lang = match language {
        Some(l) => if supports_xai_formatting(l.as_str()) {
            Some(l)
        } else {
            None
        },
        None => None,
    };
    match lang {
        Some(l) => {
            if format_text {
                out.push((String::from_str("format"), String::from_str("true")));
            }
            out.push((String::from_str("language"), l));
        },
        None => {},
    }
    let ghost head = fields_view(out@);
    proof {
        assert(head =~= xai_fields_spec(format_text, opt_view(language), Seq::<Seq<char>>::empty()));
    }
    let mut i: usize = 0;
    let mut left: usize = MAX_XAI_KEYTERMS;
    proof {
        assert(terms.skip(0) =~= terms);
    }
    while i < keyterms.len() && left > 0
        invariant
            i <= keyterms@.len(),
            left <= MAX_XAI_KEYTERMS,
            terms == keyterms@.map_values(|s: String| s@),
            fields_view(out@) + usable_keyterms(terms.skip(i as int), left as nat).map_values(
                |t: Seq<char>| field("keyterm"@, t),
            ) == head + usable_keyterms(terms, MAX_XAI_KEYTERMS as nat).map_values(
                |t: Seq<char>| field("keyterm"@, t),
            ),
        decreases keyterms@.len() - i,
    {
        let ghost rest = terms.skip(i as int);
        proof {
            assert(rest.drop_first() =~= terms.skip(i + 1));
            assert(rest[0] == keyterms@[i as int]@);
        }
        if is_blank(keyterms[i].as_str()) {
        } else {
            let ghost before = fields_view(out@);
            let t = keyterms[i].clone();
            out.push((String::from_str("keyterm"), t));
            left -= 1;
            proof {
                let f = |t: Seq<char>| field("keyterm"@, t);
                assert(fields_view(out@) =~= before.push(field("keyterm"@, rest[0])));
                let tail = usable_keyterms(rest.drop_first(), left as nat);
                assert((seq![rest[0]] + tail).map_values(f) =~= seq![field("keyterm"@, rest[0])] + tail.map_values(f));
                assert(before + (seq![field("keyterm"@, rest[0])] + tail.map_values(f)) =~= before.push(field("keyterm"@, rest[0])) + tail.map_values(f));
            }
        }
        i += 1;
    }
    proof {
        let rest = terms.skip(i as int);
        assert(usable_keyterms(rest, left as nat) =~= Seq::<Seq<char>>::empty());
        assert(usable_keyterms(rest, left as nat).map_values(|t: Seq<char>| field("keyterm"@, t)) =~= Seq::<(Seq<char>, Seq<char>)>::empty());
        assert(fields_view(out@) + Seq::<(Seq<char>, Seq<char>)>::empty() =~= fields_view(out@));
    }
    out
}

/// The text fields of an OpenAI request, in the order they are sent: the
/// model and the answer format come before the file, a non-blank language
/// and a non-blank prompt after it.
pub open spec fn openai_fields_spec(
    model: Seq<char>,
    language: Option<Seq<char>>,
    prompt: Option<Seq<char>>,
) -> (Seq<(Seq<char>, Seq<char>)>, Seq<(Seq<char>, Seq<char>)>) {
    let before = seq![field("model"@, model), field("response_format"@, "json"@)];
    let lang = match language {
        Some(l) => if trim(l).len() > 0 {
            seq![field("language"@, l)]
        } else {
            Seq::<(Seq<char>, Seq<char>)>::empty()
        },
        None => Seq::<(Seq<char>, Seq<char>)>::empty(),
    };
    let prm = match prompt {
        Some(p) => if trim(p).len() > 0 {
            seq![field("prompt"@, p)]
        } else {
            Seq::<(Seq<char>, Seq<char>)>::empty()
        },
        None => Seq::<(Seq<char>, Seq<char>)>::empty(),
    };
    (before, lang + prm)
}

/// The text fields of an OpenAI request: those before the file and those
/// after it (see `openai_fields_spec`).
pub fn openai_form_fields(model: &str, language: Option<String>, prompt: Option<String>) -> (r: (
    Vec<(String, String)>,
    Vec<(String, String)>,
))
    ensures
        (fields_view(r.0@), fields_view(r.1@)) == openai_fields_spec(model@, opt_view(language), opt_view(prompt)),
{
    let mut before: Vec<(String, String)> = Vec::new();
    before.push((String::from_str("model"), String::from_str(model)));
    before.push((String::from_str("response_format"), String::from_str("json")));
    let mut after: Vec<(String, String)> = Vec::new();
    match language {
        Some(l) => if !is_blank(l.as_str()) {
            after.push((String::from_str("language"), l));
        },
        None => {},
    }
    let ghost lang_part = fields_view(after@);
    match prompt {
        Some(p) => if !is_blank(p.as_str()) {
            after.push((String::from_str("prompt"), p));
        },
        None => {},
    }
    proof {
        let spec = openai_fields_spec(model@, opt_view(language), opt_view(prompt));
        assert(fields_view(before@) =~= spec.0);
        assert(fields_view(after@) =~= spec.1);
    }
    (before, after)
}

/// The message for a failed HTTP answer: the provider, the status, and the
/// safe form of the body.
pub fn http_error_message(provider: &str, status: &str, body: &str, api_key: &str) -> (r: String)
    ensures
        r@ == provider@ + " HTTP "@ + status@ + ": "@ + error_body_spec(body@, api_key@),
{
    let mut v = chars_of(provider);
    push_str(&mut v, " HTTP ");
    push_str(&mut v, status);
    push_str(&mut v, ": ");
    let b = sanitized_error_body(body, api_key);
    push_str(&mut v, b.as_str());
    string_from_chars(v.as_slice())
}

/// What a failed request is reported as: a timeout, a failed connection,
/// or the transport's own description.
pub fn network_message(provider: &str, is_timeout: bool, is_connect: bool, description: &str) -> (r: String)
    ensures
        r@ == (if is_timeout {
            provider@ + " 請求逾時"@
        } else if is_connect {
            "無法連線 "@ + provider@ + " API"@
        } else {
            description@
        }),
{
    if is_timeout {
        let mut v = chars_of(provider);
        push_str(&mut v, " 請求逾時");
        string_from_chars(v.as_slice())
    } else if is_connect {
        let mut v = chars_of("無法連線 ");
        push_str(&mut v, provider);
        push_str(&mut v, " API");
        string_from_chars(v.as_slice())
    } else {
        String::from_str(description)
    }
}

/// The API key read from the environment variable `env_name` (`value`,
/// when it is set): a missing or blank variable is a configuration error
/// that names it.
pub fn api_key_from_environment(env_name: &str, value: Option<String>) -> (r: AppResult<String>)
    ensures
        match value {
            None => r matches Err(AppError::Configuration(m)) && m@ == "找不到環境變數 "@ + env_name@
                + "。請先設定 API Key，再重新啟動程式。"@,
            Some(v) => if trim(v@).len() == 0 {
                r matches Err(AppError::Configuration(m)) && m@ == "環境變數 "@ + env_name@
                    + " 未包含 API Key。請設定後再重新啟動程式。"@
            } else {
                r matches Ok(k) && k == v
            },
        },
{
    match value {
        None => {
            let mut m = chars_of("找不到環境變數 ");
            push_str(&mut m, env_name);
            push_str(&mut m, "。請先設定 API Key，再重新啟動程式。");
            Err(AppError::Configuration(string_from_chars(m.as_slice())))
        },
        Some(v) => if is_blank(v.as_str()) {
            let mut m = chars_of("環境變數 ");
            push_str(&mut m, env_name);
            push_str(&mut m, " 未包含 API Key。請設定後再重新啟動程式。");
            Err(AppError::Configuration(string_from_chars(m.as_slice())))
        } else {
            Ok(v)
        },
    }
}

/// An error body as shown holds at most 800 characters and never shows
/// the API key.
pub proof fn lemma_error_body_is_safe(body: Seq<char>, api_key: Seq<char>)
    requires
        crate::realtime::redactable_key(api_key),
    ensures
        error_body_spec(body, api_key).len() <= MAX_ERROR_BODY_CHARS,
        !crate::chars::contains_seq(error_body_spec(body, api_key), api_key),
{
    crate::realtime::lemma_redaction_hides_key(body, api_key);
    let redacted = sanitize_spec(body, api_key);
    let shown = error_body_spec(body, api_key);
    assert forall|i: int| !crate::chars::occurs_at(shown, i, api_key) by {
        if crate::chars::occurs_at(shown, i, api_key) {
            assert(redacted.subrange(i, i + api_key.len()) =~= shown.subrange(i, i + api_key.len()));
            assert(crate::chars::occurs_at(redacted, i, api_key));
        }
    }
}

/// At most this many characters of a failed model-list answer are shown.
pub const MAX_MODELS_ERROR_CHARS: usize = 400;

/// A failed model-list answer as shown: the API key replaced by
/// `[REDACTED]`, cut after 400 characters.
pub open spec fn models_error_body_spec(body: Seq<char>, api_key: Seq<char>) -> Seq<char> {
    let redacted = sanitize_spec(body, api_key);
    if redacted.len() <= MAX_MODELS_ERROR_CHARS {
        redacted
    } else {
        redacted.take(MAX_MODELS_ERROR_CHARS as int)
    }
}

/// The error for a failed model-list answer: the status, the safe form of
/// the body, and whether it may be retried (server errors only).
pub fn models_http_error(status_code: u16, status: &str, body: &str, api_key: &str) -> (e: AppError)
    ensures
        e matches AppError::Provider { message, retryable } && message@ == "API HTTP "@ + status@ + "："@
            + models_error_body_spec(body@, api_key@) && retryable == (status_code >= 500),
{
    let b = chars_of(body);
    let redacted = sanitize_chars(&b, api_key);
    let mut m = chars_of("API HTTP ");
    push_str(&mut m, status);
    push_str(&mut m, "：");
    let ghost head = m@;
    let mut i: usize = 0;
    while i < redacted.len() && i < MAX_MODELS_ERROR_CHARS
        invariant
            i <= redacted@.len(),
            i <= MAX_MODELS_ERROR_CHARS,
            m@ == head + redacted@.take(i as int),
        decreases redacted@.len() - i,
    {
        m.push(redacted[i]);
        proof {
            assert(head + redacted@.take(i + 1) =~= (head + redacted@.take(i as int)).push(redacted@[i as int]));
        }
        i += 1;
    }
    proof {
        if redacted@.len() <= MAX_MODELS_ERROR_CHARS {
            assert(redacted@.take(i as int) =~= redacted@);
        }
    }
    AppError::Provider { message: string_from_chars(m.as_slice()), retryable: status_code >= 500 }
}

/// `a` comes strictly before `b` in the order of `str`: character by
/// character by code point, a proper prefix first.
pub open spec fn lex_lt(a: Seq<char>, b: Seq<char>) -> bool
    decreases a.len(),
{
    if a.len() == 0 {
        b.len() > 0
    } else if b.len() == 0 {
        false
    } else if a[0] != b[0] {
        (a[0] as int) < (b[0] as int)
    } else {
        lex_lt(a.drop_first(), b.drop_first())
    }
}

pub open spec fn lex_le(a: Seq<char>, b: Seq<char>) -> bool {
    a == b || lex_lt(a, b)
}

/// The model ids are in ascending order.
pub open spec fn ids_sorted(s: Seq<Seq<char>>) -> bool {
    forall|i: int, j: int| 0 <= i < j < s.len() ==> lex_le(s[i], s[j])
}

proof fn lemma_lex_total(a: Seq<char>, b: Seq<char>)
    ensures
        lex_le(a, b) || lex_le(b, a),
    decreases a.len(),
{
    if a.len() == 0 && b.len() == 0 {
        assert(a =~= b);
    } else if a.len() > 0 && b.len() > 0 && a[0] != b[0] {
        assert((a[0] as int) != (b[0] as int));
    } else if a.len() > 0 && b.len() > 0 && a[0] == b[0] {
        lemma_lex_total(a.drop_first(), b.drop_first());
        if a.drop_first() == b.drop_first() {
            assert(a =~= seq![a[0]] + a.drop_first());
            assert(b =~= seq![b[0]] + b.drop_first());
        }
    }
}

proof fn lemma_lex_trans(a: Seq<char>, b: Seq<char>, c: Seq<char>)
    requires
        lex_le(a, b),
        lex_le(b, c),
    ensures
        lex_le(a, c),
    decreases a.len(),
{
    if a == b || b == c {
    } else if a.len() > 0 && b.len() > 0 && c.len() > 0 && a[0] == b[0] && b[0] == c[0] {
        lemma_lex_trans(a.drop_first(), b.drop_first(), c.drop_first());
        if a.drop_first() == c.drop_first() {
            assert(a =~= seq![a[0]] + a.drop_first());
            assert(c =~= seq![c[0]] + c.drop_first());
        }
    }
}

/// Whether `a` comes before `b` or equals it, in the order of `str`.
pub fn lex_le_exec(a: &str, b: &str) -> (r: bool)
    ensures
        r == lex_le(a@, b@),
{
    let x = chars_of(a);
    let y = chars_of(b);
    let mut i: usize = 0;
    proof {
        assert(x@.skip(0) =~= x@);
        assert(y@.skip(0) =~= y@);
        assert(x@.take(0) =~= y@.take(0));
    }
    while i < x.len() && i < y.len() && x[i] == y[i]
        invariant
            i <= x@.len(),
            i <= y@.len(),
            x@ == a@,
            y@ == b@,
            x@.take(i as int) == y@.take(i as int),
            lex_lt(x@, y@) == lex_lt(x@.skip(i as int), y@.skip(i as int)),
        decreases x@.len() - i,
    {
        proof {
            let xs = x@.skip(i as int);
            let ys = y@.skip(i as int);
            assert(xs.drop_first() =~= x@.skip(i + 1));
            assert(ys.drop_first() =~= y@.skip(i + 1));
            assert(x@.take(i + 1) =~= x@.take(i as int).push(x@[i as int]));
            assert(y@.take(i + 1) =~= y@.take(i as int).push(y@[i as int]));
        }
        i += 1;
    }
    proof {
        assert(x@ =~= x@.take(i as int) + x@.skip(i as int));
        assert(y@ =~= y@.take(i as int) + y@.skip(i as int));
    }
    if i == x.len() {
        proof {
            if i == y@.len() {
                assert(x@ =~= y@);
            } else {
                assert(x@.skip(i as int).len() == 0);
                assert(lex_lt(x@.skip(i as int), y@.skip(i as int)));
            }
        }
        true
    } else if i == y.len() {
        proof {
            assert(y@.skip(i as int).len() == 0);
            assert(!lex_lt(x@.skip(i as int), y@.skip(i as int)));
            assert(x@.len() != y@.len());
        }
        false
    } else {
        let r = x[i] < y[i];
        proof {
            let xs = x@.skip(i as int);
            let ys = y@.skip(i as int);
            assert(xs[0] == x@[i as int]);
            assert(ys[0] == y@[i as int]);
            assert(xs[0] != ys[0]);
            assert(x@ != y@) by {
                assert(x@[i as int] != y@[i as int]);
            }
        }
        r
    }
}

pub open spec fn ids_view(v: Seq<String>) -> Seq<Seq<char>> {
    v.map_values(|s: String| s@)
}

/// The model ids in ascending order: the same ids, each as often as
/// before.
pub fn sorted_model_ids(ids: Vec<String>) -> (r: Vec<String>)
    ensures
        ids_sorted(ids_view(r@)),
        ids_view(r@).to_multiset() == ids_view(ids@).to_multiset(),
{
    broadcast use vstd::seq_lib::to_multiset_build, vstd::seq_lib::to_multiset_insert;

    let ghost all = ids_view(ids@);
    let mut out: Vec<String> = Vec::new();
    let mut i: usize = 0;
    proof {
        assert(all.take(0) =~= Seq::<Seq<char>>::empty());
        assert(ids_view(out@) =~= Seq::<Seq<char>>::empty());
    }
    while i < ids.len()
        invariant
            i <= ids@.len(),
            all == ids_view(ids@),
            ids_sorted(ids_view(out@)),
            ids_view(out@).to_multiset() == all.take(i as int).to_multiset(),
        decreases ids@.len() - i,
    {
        let x = ids[i].clone();
        proof {
            assert(x@ == all[i as int]);
        }
        let ghost ov = ids_view(out@);
        let mut p: usize = 0;
        while p < out.len() && lex_le_exec(out[p].as_str(), x.as_str())
            invariant
                p <= out@.len(),
                ov == ids_view(out@),
                forall|k: int| 0 <= k < p ==> lex_le(#[trigger] ov[k], x@),
            decreases out@.len() - p,
        {
            p += 1;
        }
        out.insert(p, x);
        proof {
            let nv = ids_view(out@);
            let xv = all[i as int];
            assert(nv =~= ov.insert(p as int, xv));
            if p < ov.len() {
                lemma_lex_total(ov[p as int], xv);
                assert(lex_le(xv, ov[p as int]));
            }
            assert forall|b: int| p < b < nv.len() implies lex_le(xv, #[trigger] nv[b]) by {
                if b - 1 > p {
                    lemma_lex_trans(xv, ov[p as int], ov[b - 1]);
                }
            }
            assert forall|a: int, b: int| 0 <= a < b < nv.len() implies lex_le(nv[a], nv[b]) by {
                if b < p {
                } else if a < p && b == p {
                } else if a < p && b > p {
                    assert(lex_le(xv, nv[b]));
                    lemma_lex_trans(ov[a], xv, ov[b - 1]);
                } else if a == p {
                    assert(lex_le(xv, nv[b]));
                } else {
                }
            }
            vstd::seq_lib::to_multiset_insert(ov, p as int, xv);
            assert(all.take(i + 1) =~= all.take(i as int).push(xv));
            vstd::seq_lib::to_multiset_build(all.take(i as int), xv);
        }
        i += 1;
    }
    proof {
        assert(all.take(i as int) =~= all);
    }
    out
}

/// A failed HTTP answer is worth retrying when the request timed out on
/// the server (408), the provider is rate limiting (429) or it is failing
/// on its side (5xx).
pub fn retryable_http_status(status_code: u16) -> (b: bool)
    ensures
        b == (status_code == 408 || status_code == 429 || (500 <= status_code && status_code <= 599)),
{
    status_code == 408 || status_code == 429 || (500 <= status_code && status_code <= 599)
}

/// A failed request is worth retrying when it timed out or could not connect.
pub fn retryable_transport_error(is_timeout: bool, is_connect: bool) -> (b: bool)
    ensures
        b == (is_timeout || is_connect),
{
    is_timeout || is_connect
}

} // verus!
