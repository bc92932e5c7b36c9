//! Decisions of the main application state: paste targets, stale results,
//! recording limits and error reporting.
use vstd::prelude::*;
use std::time::Duration;
use crate::chars::{chars_of, decimal, decimal_spec, push_str, string_from_chars};
use vstd::string::StringExecFns;
use crate::config::{provider_label_text, AppConfig, ProviderKind, TextProcessingConfig, TranscriptionMode};
use crate::error::{AppError, AppResult, error_text};
use crate::hotkey::HotkeyEvent;
use crate::injector::WindowTarget;
use crate::postprocess::{format_transcript, process_transcript, DeliveryMode};
use crate::realtime::RealtimeEvent;
use crate::realtime_worker::WorkerMessage;
use crate::time::{duration_at_least, duration_from_secs, duration_nanos, nanos_per_second};

verus! {

/// The windows that recordings and transcripts are meant for.
pub struct TargetState {
    last_external: Option<WindowTarget>,
    recording: Option<WindowTarget>,
    last_text: Option<WindowTarget>,
}

impl TargetState {
    pub closed spec fn last_external_spec(self) -> Option<WindowTarget> {
        self.last_external
    }

    pub closed spec fn recording_spec(self) -> Option<WindowTarget> {
        self.recording
    }

    pub closed spec fn last_text_spec(self) -> Option<WindowTarget> {
        self.last_text
    }

    pub fn default() -> (t: TargetState)
        ensures
            t.last_external_spec() is None,
            t.recording_spec() is None,
            t.last_text_spec() is None,
    {
        TargetState { last_external: None, recording: None, last_text: None }
    }

    /// Remembers the window in the foreground when it is an outside window.
    pub fn observe(&mut self, current_external: Option<WindowTarget>)
        ensures
            final(self).last_external_spec() == if current_external is Some {
                current_external
            } else {
                old(self).last_external_spec()
            },
            final(self).recording_spec() == old(self).recording_spec(),
            final(self).last_text_spec() == old(self).last_text_spec(),
    {
        if let Some(target) = current_external {
            self.last_external = Some(target);
        }
    }

    /// A recording aims at the current outside window, else the last one
    /// seen; when targets are not preserved it aims at none (copy only).
    pub fn start_recording(&mut self, preserve_target: bool, current_external: Option<WindowTarget>) -> (r: Option<WindowTarget>)
        ensures
            final(self).last_external_spec() == if current_external is Some {
                current_external
            } else {
                old(self).last_external_spec()
            },
            r == if !preserve_target {
                None
            } else if current_external is Some {
                current_external
            } else {
                old(self).last_external_spec()
            },
            final(self).recording_spec() == r,
            final(self).last_text_spec() == old(self).last_text_spec(),
    {
        self.observe(current_external);
        self.recording = if preserve_target {
            match current_external {
                Some(t) => Some(t),
                None => self.last_external,
            }
        } else {
            None
        };
        self.recording
    }

    pub fn cancel_recording(&mut self)
        ensures
            final(self).recording_spec() is None,
            final(self).last_external_spec() == old(self).last_external_spec(),
            final(self).last_text_spec() == old(self).last_text_spec(),
    {
        self.recording = None;
    }

    /// A transcript keeps the window its recording aimed at; the recording
    /// target is kept for the next utterance only when asked.
    pub fn accept_transcript(&mut self, preserve_recording: bool) -> (r: Option<WindowTarget>)
        ensures
            r == old(self).recording_spec(),
            final(self).last_text_spec() == old(self).recording_spec(),
            final(self).recording_spec() == if preserve_recording {
                old(self).recording_spec()
            } else {
                None
            },
            final(self).last_external_spec() == old(self).last_external_spec(),
    {
        self.last_text = self.recording;
        if !preserve_recording {
            self.recording = None;
        }
        self.last_text
    }

    pub fn last_text(&self) -> (r: Option<WindowTarget>)
        ensures
            r == self.last_text_spec(),
    {
        self.last_text
    }

    /// The window the running recording aims at.
    pub fn recording_target(&self) -> (r: Option<WindowTarget>)
        ensures
            r == self.recording_spec(),
    {
        self.recording
    }
}

/// What the user is told when pasting failed and the text was copied instead
/// (or copying failed too).
pub struct DeliveryFeedback {
    pub status: &'static str,
    pub error: String,
}

/// The status after a failed paste and the copy that replaced it.
pub open spec fn fallback_status_text(copied: bool) -> Seq<char> {
    if copied {
        "自動貼上失敗，文字已複製到剪貼簿"@
    } else {
        "自動貼上與備援複製皆失敗，文字保留在最近辨識文字區"@
    }
}

/// The error reported after a failed paste and the copy that replaced it.
pub open spec fn fallback_error_text(injection_error: AppError, copy_result: AppResult<()>) -> Seq<char> {
    match copy_result {
        Ok(()) => error_text(injection_error),
        Err(copy_error) => error_text(injection_error) + "\n備援複製失敗："@ + error_text(copy_error),
    }
}

pub fn fallback_delivery_feedback(injection_error: AppError, copy_result: AppResult<()>) -> (f: DeliveryFeedback)
    ensures
        f.status@ == fallback_status_text(copy_result is Ok),
        f.error@ == fallback_error_text(injection_error, copy_result),
{
    match copy_result {
        Ok(()) => DeliveryFeedback { status: "自動貼上失敗，文字已複製到剪貼簿", error: injection_error.to_text() },
        Err(copy_error) => {
            let mut e = chars_of(injection_error.to_text().as_str());
            push_str(&mut e, "\n備援複製失敗：");
            push_str(&mut e, copy_error.to_text().as_str());
            DeliveryFeedback {
                status: "自動貼上與備援複製皆失敗，文字保留在最近辨識文字區",
                error: string_from_chars(e.as_slice()),
            }
        },
    }
}

/// A later non-fatal error is added on a new line instead of replacing the earlier ones.
pub fn record_nonfatal_error(current: &mut Option<String>, message: &str)
    ensures
        match *old(current) {
            Some(c) => *final(current) matches Some(n) && n@ == c@ + "\n"@ + message@,
            None => *final(current) matches Some(n) && n@ == message@,
        },
{
    let previous = current.take();
    let combined = match previous {
        Some(c) => {
            let mut v = chars_of(c.as_str());
            push_str(&mut v, "\n");
            push_str(&mut v, message);
            string_from_chars(v.as_slice())
        },
        None => {
            let v = chars_of(message);
            string_from_chars(v.as_slice())
        },
    };
    *current = Some(combined);
}

/// Batch recordings stop at the limit; continuous dictation does not.
pub fn should_stop_for_recording_limit(mode: TranscriptionMode, elapsed: Duration, max_duration_secs: u64) -> (b: bool)
    ensures
        b == (mode != TranscriptionMode::ContinuousDictation && duration_nanos(elapsed)
            >= max_duration_secs * nanos_per_second()),
{
    if mode == TranscriptionMode::ContinuousDictation {
        return false;
    }
    duration_at_least(elapsed, duration_from_secs(max_duration_secs))
}

/// The audio kept for a batch fallback is handed over only when the user confirmed.
pub fn take_confirmed_batch_fallback<T>(audio: &mut Option<T>, user_confirmed: bool) -> (r: Option<T>)
    ensures
        user_confirmed ==> r == *old(audio) && *final(audio) is None,
        !user_confirmed ==> r is None && *final(audio) == *old(audio),
{
    if user_confirmed {
        audio.take()
    } else {
        None
    }
}

/// What a hotkey event does to recording.
#[derive(Debug, Clone, Copy, PartialEq, Eq, Structural)]
pub enum HotkeyAction {
    Start,
    Stop,
    Toggle,
    Ignore,
}

/// In continuous dictation a press toggles the session; otherwise a held
/// hotkey records while it is down, and a plain hotkey toggles on press.
pub fn hotkey_action(mode: TranscriptionMode, hold_to_record: bool, event: HotkeyEvent) -> (a: HotkeyAction)
    ensures
        a == (if mode == TranscriptionMode::ContinuousDictation {
            if event == HotkeyEvent::Pressed {
                HotkeyAction::Toggle
            } else {
                HotkeyAction::Ignore
            }
        } else if hold_to_record {
            if event == HotkeyEvent::Pressed {
                HotkeyAction::Start
            } else {
                HotkeyAction::Stop
            }
        } else if event == HotkeyEvent::Pressed {
            HotkeyAction::Toggle
        } else {
            HotkeyAction::Ignore
        }),
{
    let continuous = match mode {
        TranscriptionMode::ContinuousDictation => true,
        _ => false,
    };
    let pressed = match event {
        HotkeyEvent::Pressed => true,
        HotkeyEvent::Released => false,
    };
    if continuous {
        if pressed {
            HotkeyAction::Toggle
        } else {
            HotkeyAction::Ignore
        }
    } else if hold_to_record {
        if pressed {
            HotkeyAction::Start
        } else {
            HotkeyAction::Stop
        }
    } else if pressed {
        HotkeyAction::Toggle
    } else {
        HotkeyAction::Ignore
    }
}

/// Job numbers count up from one and never come back to zero.
pub fn next_job_id(current: u64) -> (r: u64)
    ensures
        r == (if current == u64::MAX {
            1
        } else {
            current + 1
        }),
        r >= 1,
{
    let n = current.wrapping_add(1);
    if n < 1 {
        1
    } else {
        n
    }
}

/// The status shown when a recording starts: the realtime modes name
/// themselves; a batch recording warns when there is no window to paste
/// into.
pub open spec fn recording_status_text(mode: TranscriptionMode, auto_inject: bool, has_target: bool) -> Seq<char> {
    match mode {
        TranscriptionMode::RealtimePtt => "Realtime PTT 錄音中…"@,
        TranscriptionMode::ContinuousDictation => "Continuous Dictation 已開始；本地 VAD 監測中…"@,
        TranscriptionMode::BatchPtt => if auto_inject && !has_target {
            "錄音中…未找到外部目標，完成後只會複製文字"@
        } else {
            "錄音中…放開快捷鍵即可辨識"@
        },
    }
}

pub fn recording_status(mode: TranscriptionMode, auto_inject: bool, has_target: bool) -> (s: &'static str)
    ensures
        s@ == recording_status_text(mode, auto_inject, has_target),
{
    match mode {
        TranscriptionMode::RealtimePtt => "Realtime PTT 錄音中…",
        TranscriptionMode::ContinuousDictation => "Continuous Dictation 已開始；本地 VAD 監測中…",
        TranscriptionMode::BatchPtt => if auto_inject && !has_target {
            "錄音中…未找到外部目標，完成後只會複製文字"
        } else {
            "錄音中…放開快捷鍵即可辨識"
        },
    }
}

/// The text to deliver, how, and the non-fatal error to report: the
/// processed transcript; or, when processing fails, the formatted raw
/// transcript delivered normally, with the failure reported.
pub open spec fn delivered_transcript(raw: Seq<char>, config: TextProcessingConfig, append_space: bool) -> (
    Seq<char>,
    DeliveryMode,
) {
    match crate::postprocess::process_spec(raw, config, append_space) {
        Some((text, mode)) => (text, mode),
        None => (
            crate::postprocess::format_cleaned_spec(crate::postprocess::clean_spec(raw, false), config, append_space),
            DeliveryMode::Normal,
        ),
    }
}

pub fn transcript_for_delivery(raw: &str, config: &TextProcessingConfig, append_space: bool) -> (r: (
    String,
    DeliveryMode,
    Option<String>,
))
    ensures
        (r.0@, r.1) == delivered_transcript(raw@, *config, append_space),
        r.2 is Some <==> crate::postprocess::process_spec(raw@, *config, append_space) is None,
{
    match process_transcript(raw, config, append_space) {
        Ok(processed) => (processed.text, processed.delivery, None),
        Err(error) => {
            let mut m = chars_of("文字後處理失敗，已保留原辨識文字：");
            push_str(&mut m, error.to_text().as_str());
            (format_transcript(raw, config, append_space), DeliveryMode::Normal, Some(string_from_chars(m.as_slice())))
        },
    }
}

/// How a transcript is delivered.
#[derive(Debug, Clone, Copy)]
pub enum DeliveryPlan {
    /// A voice command asked for nothing to be delivered.
    Discard,
    /// Paste into the window the recording was meant for.
    Inject(WindowTarget),
    /// Pasting was wanted but there is no window: copy instead.
    CopyWithoutTarget,
    /// Copy to the clipboard.
    Copy,
}

/// Pasting is tried only for normal deliveries with automatic pasting on;
/// without a target window the text is copied instead.
pub open spec fn planned_delivery(delivery: DeliveryMode, auto_inject: bool, target: Option<WindowTarget>) -> DeliveryPlan {
    match delivery {
        DeliveryMode::Discard => DeliveryPlan::Discard,
        DeliveryMode::Normal => if auto_inject {
            match target {
                Some(t) => DeliveryPlan::Inject(t),
                None => DeliveryPlan::CopyWithoutTarget,
            }
        } else {
            DeliveryPlan::Copy
        },
        DeliveryMode::CopyOnly => DeliveryPlan::Copy,
    }
}

pub fn delivery_plan(delivery: DeliveryMode, auto_inject: bool, target: Option<WindowTarget>) -> (p: DeliveryPlan)
    ensures
        p == planned_delivery(delivery, auto_inject, target),
{
    match delivery {
        DeliveryMode::Discard => DeliveryPlan::Discard,
        DeliveryMode::Normal => if auto_inject {
            match target {
                Some(t) => DeliveryPlan::Inject(t),
                None => DeliveryPlan::CopyWithoutTarget,
            }
        } else {
            DeliveryPlan::Copy
        },
        DeliveryMode::CopyOnly => DeliveryPlan::Copy,
    }
}

/// The status after copying: it never claims a copy that failed.
pub open spec fn copy_outcome_text(without_target: bool, copied: bool, delivery: DeliveryMode) -> Seq<char> {
    if without_target {
        if copied {
            "未找到外部目標，文字已複製到剪貼簿"@
        } else {
            "沒有外部目標且複製失敗，文字保留在最近辨識文字區"@
        }
    } else if !copied {
        "複製失敗，文字保留在最近辨識文字區"@
    } else if delivery == DeliveryMode::CopyOnly {
        "語音命令已執行：文字已複製到剪貼簿"@
    } else {
        "已複製到剪貼簿"@
    }
}

pub fn copy_outcome_status(without_target: bool, copied: bool, delivery: DeliveryMode) -> (s: &'static str)
    ensures
        s@ == copy_outcome_text(without_target, copied, delivery),
{
    if without_target {
        if copied {
            "未找到外部目標，文字已複製到剪貼簿"
        } else {
            "沒有外部目標且複製失敗，文字保留在最近辨識文字區"
        }
    } else if !copied {
        "複製失敗，文字保留在最近辨識文字區"
    } else {
        match delivery {
            DeliveryMode::CopyOnly => "語音命令已執行：文字已複製到剪貼簿",
            _ => "已複製到剪貼簿",
        }
    }
}

/// The provider name recorded for a realtime transcript.
pub fn realtime_provider_name(provider: ProviderKind) -> (r: String)
    ensures
        r@ == provider_label_text(provider) + "-realtime"@,
{
    let mut v = chars_of(provider.label());
    push_str(&mut v, "-realtime");
    string_from_chars(v.as_slice())
}

/// The realtime final keeps the recording's target for the next utterance
/// only in continuous dictation that was not asked to stop.
pub fn preserve_target_after_final(mode: TranscriptionMode, stop_requested: bool) -> (b: bool)
    ensures
        b == (mode == TranscriptionMode::ContinuousDictation && !stop_requested),
{
    match mode {
        TranscriptionMode::ContinuousDictation => !stop_requested,
        _ => false,
    }
}

pub const STATUS_REALTIME_CONNECTED: &'static str = "Realtime session 已連線；正在接收音訊";

pub const STATUS_REALTIME_PARTIAL: &'static str = "Realtime partial 字幕更新中…";

pub const STATUS_REALTIME_NO_FINAL: &'static str = "Realtime session 已停止，provider 未回傳 final 文字";

pub const STATUS_REALTIME_DONE: &'static str = "Realtime provider 已完成目前音訊";

pub const STATUS_REALTIME_CANCELLED: &'static str = "Realtime session 已取消";

/// What the user interface does with a message of the realtime worker.
#[derive(Debug, Clone)]
pub enum RealtimeReaction {
    /// Show this status.
    Status(&'static str),
    /// Show this partial text, with the partial status.
    Partial(String),
    /// Deliver this final text; when the target is not kept, the session is
    /// over and the worker is cancelled.
    Final { text: String, preserve_target: bool },
    /// The session ended without a final text after a stop: cancel the
    /// worker and the recording's target, and show that no text came.
    StoppedWithoutFinal,
    /// The session failed with this error.
    Fail(String),
    /// The worker is gone: release it and restore the remembered status.
    WorkerStopped,
}

/// Decides the reaction to one worker message.
pub fn react_to_worker_message(message: WorkerMessage, mode: TranscriptionMode, stop_requested: bool) -> (r: RealtimeReaction)
    ensures
        match message {
            WorkerMessage::Event(RealtimeEvent::Created) => r matches RealtimeReaction::Status(s) && s@ == STATUS_REALTIME_CONNECTED@,
            WorkerMessage::Event(RealtimeEvent::Partial(t)) => r matches RealtimeReaction::Partial(u) && u == t,
            WorkerMessage::Event(RealtimeEvent::Final(t)) => r matches RealtimeReaction::Final { text, preserve_target }
                && text == t && preserve_target == (mode == TranscriptionMode::ContinuousDictation && !stop_requested),
            WorkerMessage::Event(RealtimeEvent::Done) => if stop_requested {
                r is StoppedWithoutFinal
            } else {
                r matches RealtimeReaction::Status(s) && s@ == STATUS_REALTIME_DONE@
            },
            WorkerMessage::Event(RealtimeEvent::Cancelled) => r matches RealtimeReaction::Status(s) && s@ == STATUS_REALTIME_CANCELLED@,
            WorkerMessage::Event(RealtimeEvent::Error(e)) => r matches RealtimeReaction::Fail(f) && f == e,
            WorkerMessage::Failed(e) => r matches RealtimeReaction::Fail(f) && f == e,
            WorkerMessage::Stopped => r is WorkerStopped,
        },
{
    match message {
        WorkerMessage::Event(RealtimeEvent::Created) => RealtimeReaction::Status(STATUS_REALTIME_CONNECTED),
        WorkerMessage::Event(RealtimeEvent::Partial(t)) => RealtimeReaction::Partial(t),
        WorkerMessage::Event(RealtimeEvent::Final(t)) => RealtimeReaction::Final {
            text: t,
            preserve_target: preserve_target_after_final(mode, stop_requested),
        },
        WorkerMessage::Event(RealtimeEvent::Done) => if stop_requested {
            RealtimeReaction::StoppedWithoutFinal
        } else {
            RealtimeReaction::Status(STATUS_REALTIME_DONE)
        },
        WorkerMessage::Event(RealtimeEvent::Cancelled) => RealtimeReaction::Status(STATUS_REALTIME_CANCELLED),
        WorkerMessage::Event(RealtimeEvent::Error(e)) => RealtimeReaction::Fail(e),
        WorkerMessage::Failed(e) => RealtimeReaction::Fail(e),
        WorkerMessage::Stopped => RealtimeReaction::WorkerStopped,
    }
}

/// After a realtime failure, a batch fallback is offered only when audio
/// long enough is left.
pub open spec fn realtime_failure_text(has_fallback_audio: bool) -> Seq<char> {
    if has_fallback_audio {
        "Realtime 失敗；可明確確認後改用 Batch（可能重複已出現的 partial）"@
    } else {
        "Realtime 失敗，沒有可供 Batch fallback 的完整音訊"@
    }
}

pub fn realtime_failure_status(has_fallback_audio: bool) -> (s: &'static str)
    ensures
        s@ == realtime_failure_text(has_fallback_audio),
{
    if has_fallback_audio {
        "Realtime 失敗；可明確確認後改用 Batch（可能重複已出現的 partial）"
    } else {
        "Realtime 失敗，沒有可供 Batch fallback 的完整音訊"
    }
}

/// The pieces of `s` between line breaks.
pub open spec fn split_lines(s: Seq<char>) -> Seq<Seq<char>>
    decreases s.len(),
{
    if s.len() == 0 {
        seq![Seq::<char>::empty()]
    } else {
        let p = split_lines(s.drop_last());
        if s.last() == '\n' {
            p.push(Seq::<char>::empty())
        } else {
            p.update(p.len() - 1, p.last().push(s.last()))
        }
    }
}

proof fn lemma_split_lines_nonempty(s: Seq<char>)
    ensures
        split_lines(s).len() > 0,
    decreases s.len(),
{
    if s.len() > 0 {
        lemma_split_lines_nonempty(s.drop_last());
    }
}

/// The trimmed, non-blank pieces, in order.
pub open spec fn nonblank_trimmed(pieces: Seq<Seq<char>>) -> Seq<Seq<char>>
    decreases pieces.len(),
{
    if pieces.len() == 0 {
        Seq::<Seq<char>>::empty()
    } else {
        let prev = nonblank_trimmed(pieces.drop_last());
        let t = crate::chars::trim(pieces.last());
        if t.len() == 0 {
            prev
        } else {
            prev.push(t)
        }
    }
}

/// The xAI key terms typed one per line: each line trimmed, blank lines
/// dropped.
pub fn keyterms_from_lines(text: &str) -> (r: Vec<String>)
    ensures
        r@.map_values(|s: String| s@) == nonblank_trimmed(split_lines(text@)),
{
    let s = chars_of(text);
    let mut out: Vec<String> = Vec::new();
    let mut piece: Vec<char> = Vec::new();
    let mut i: usize = 0;
    proof {
        lemma_split_lines_nonempty(s@.take(0));
        assert(s@.take(0) =~= Seq::<char>::empty());
        assert(out@.map_values(|s: String| s@) =~= nonblank_trimmed(split_lines(s@.take(0)).drop_last()));
    }
    while i < s.len()
        invariant
            i <= s@.len(),
            s@ == text@,
            split_lines(s@.take(i as int)).len() > 0,
            piece@ == split_lines(s@.take(i as int)).last(),
            out@.map_values(|s: String| s@) == nonblank_trimmed(split_lines(s@.take(i as int)).drop_last()),
        decreases s@.len() - i,
    {
        let c = s[i];
        let ghost p = s@.take(i as int);
        let ghost q = s@.take(i + 1);
        proof {
            assert(q.drop_last() =~= p);
            assert(q.last() == c);
        }
        if c == '\n' {
            let t = crate::chars::trim_chars(piece.as_slice());
            let ghost before = out@.map_values(|s: String| s@);
            if t.len() > 0 {
                out.push(string_from_chars(t.as_slice()));
            }
            piece = Vec::new();
            proof {
                let sp = split_lines(p);
                assert(split_lines(q) == sp.push(Seq::<char>::empty()));
                assert(split_lines(q).drop_last() =~= sp);
                assert(sp =~= sp.drop_last().push(sp.last()));
                assert(out@.map_values(|s: String| s@) =~= nonblank_trimmed(sp));
            }
        } else {
            piece.push(c);
            proof {
                let sp = split_lines(p);
                let sq = split_lines(q);
                assert(sq == sp.update(sp.len() - 1, sp.last().push(c)));
                assert(sq.drop_last() =~= sp.drop_last());
            }
        }
        i += 1;
    }
    let t = crate::chars::trim_chars(piece.as_slice());
    let ghost before = out@.map_values(|s: String| s@);
    if t.len() > 0 {
        out.push(string_from_chars(t.as_slice()));
    }
    proof {
        let sp = split_lines(s@.take(i as int));
        assert(s@.take(i as int) =~= text@);
        assert(sp =~= sp.drop_last().push(sp.last()));
        assert(out@.map_values(|s: String| s@) =~= nonblank_trimmed(sp));
    }
    out
}

/// The key terms as the editor shows them, one per line.
pub open spec fn join_lines(terms: Seq<Seq<char>>) -> Seq<char>
    decreases terms.len(),
{
    if terms.len() == 0 {
        Seq::<char>::empty()
    } else if terms.len() == 1 {
        terms[0]
    } else {
        join_lines(terms.drop_last()) + "\n"@ + terms.last()
    }
}

/// `terms.join("\n")`.
pub fn keyterms_to_lines(terms: &[String]) -> (r: String)
    ensures
        r@ == join_lines(terms@.map_values(|s: String| s@)),
{
    let ghost all = terms@.map_values(|s: String| s@);
    let mut out: Vec<char> = Vec::new();
    let mut i: usize = 0;
    while i < terms.len()
        invariant
            i <= terms@.len(),
            all == terms@.map_values(|s: String| s@),
            out@ == join_lines(all.take(i as int)),
        decreases terms@.len() - i,
    {
        proof {
            assert(all.take(i + 1).drop_last() =~= all.take(i as int));
            reveal_strlit("\n");
        }
        if i > 0 {
            push_str(&mut out, "\n");
        }
        push_str(&mut out, terms[i].as_str());
        proof {
            if i == 0 {
                assert(out@ =~= all.take(1)[0]);
            }
        }
        i += 1;
    }
    proof {
        assert(all.take(i as int) =~= all);
    }
    string_from_chars(out.as_slice())
}

/// Saving is refused while the settings file could not be read at start,
/// so that a broken file is never overwritten with defaults.
pub fn settings_blocked_error(load_error: &str) -> (e: AppError)
    ensures
        e matches AppError::Configuration(m) && m@ == "原設定檔載入失敗，為避免覆蓋已禁止儲存；請修正設定檔並重新啟動。"@
            + load_error@,
{
    let mut m = chars_of("原設定檔載入失敗，為避免覆蓋已禁止儲存；請修正設定檔並重新啟動。");
    push_str(&mut m, load_error);
    AppError::Configuration(string_from_chars(m.as_slice()))
}

/// The next piece of work of a settings transaction.
#[derive(Debug)]
pub enum SettingsAction {
    /// Persist the change from the previous to the next settings
    /// (`forward`), or back from the next to the previous ones.
    Persist { forward: bool },
    /// Apply the next hotkey to the running listener.
    ApplyHotkey,
    /// Done: this outcome, and whether the next settings are now current
    /// (else the previous ones are).
    Finish { result: AppResult<()>, keep_next: bool },
}

#[derive(Debug, Clone, Copy, PartialEq, Eq, Structural)]
pub enum SettingsPhase {
    Persisting,
    ApplyingHotkey,
    RollingBack,
    Finished,
}

/// Saving settings: persist them (file and login entry), then apply the
/// hotkey; when the hotkey cannot be applied, persist the previous
/// settings back and report the hotkey error (with the rollback error, if
/// that fails too). The next settings become current only on success.
pub struct SettingsTransaction {
    pub phase: SettingsPhase,
    pub hotkey_error: Option<AppError>,
}

pub open spec fn settings_rollback_text(runtime: AppError, rollback: AppError) -> Seq<char> {
    error_text(runtime) + "；設定與登入自啟回滾失敗："@ + error_text(rollback)
}

impl SettingsTransaction {
    pub fn start() -> (r: (SettingsTransaction, SettingsAction))
        ensures
            r.0.phase == SettingsPhase::Persisting,
            r.1 matches SettingsAction::Persist { forward } && forward,
    {
        (SettingsTransaction { phase: SettingsPhase::Persisting, hotkey_error: None }, SettingsAction::Persist { forward: true })
    }

    /// The outcome of the last action moves the transaction on.
    pub fn step(self, outcome: AppResult<()>) -> (r: (SettingsTransaction, SettingsAction))
        ensures
            match self.phase {
                SettingsPhase::Persisting => match outcome {
                    Err(e) => r.1 matches SettingsAction::Finish { result: Err(f), keep_next } && f == e && !keep_next,
                    Ok(()) => r.1 is ApplyHotkey && r.0.phase == SettingsPhase::ApplyingHotkey,
                },
                SettingsPhase::ApplyingHotkey => match outcome {
                    Ok(()) => r.1 matches SettingsAction::Finish { result: Ok(()), keep_next } && keep_next,
                    Err(e) => r.1 matches SettingsAction::Persist { forward } && !forward
                        && r.0.phase == SettingsPhase::RollingBack && r.0.hotkey_error == Some(e),
                },
                SettingsPhase::RollingBack => match outcome {
                    Ok(()) => match self.hotkey_error {
                        Some(e) => r.1 matches SettingsAction::Finish { result: Err(f), keep_next } && f == e && !keep_next,
                        None => r.1 matches SettingsAction::Finish { result: Err(_), keep_next } && !keep_next,
                    },
                    Err(rollback) => match self.hotkey_error {
                        Some(e) => r.1 matches SettingsAction::Finish { result: Err(AppError::Io(m)), keep_next }
                            && m@ == settings_rollback_text(e, rollback) && !keep_next,
                        None => r.1 matches SettingsAction::Finish { result: Err(_), keep_next } && !keep_next,
                    },
                },
                SettingsPhase::Finished => r.1 matches SettingsAction::Finish { result: Err(_), keep_next } && !keep_next,
            },
            r.1 is Finish ==> r.0.phase == SettingsPhase::Finished,
            r.1 matches SettingsAction::Finish { result, keep_next } ==> (keep_next <==> result is Ok),
    {
        let done = SettingsTransaction { phase: SettingsPhase::Finished, hotkey_error: None };
        match self.phase {
            SettingsPhase::Persisting => match outcome {
                Err(e) => (done, SettingsAction::Finish { result: Err(e), keep_next: false }),
                Ok(()) => (
                    SettingsTransaction { phase: SettingsPhase::ApplyingHotkey, hotkey_error: None },
                    SettingsAction::ApplyHotkey,
                ),
            },
            SettingsPhase::ApplyingHotkey => match outcome {
                Ok(()) => (done, SettingsAction::Finish { result: Ok(()), keep_next: true }),
                Err(e) => (
                    SettingsTransaction { phase: SettingsPhase::RollingBack, hotkey_error: Some(e) },
                    SettingsAction::Persist { forward: false },
                ),
            },
            SettingsPhase::RollingBack => {
                let hotkey_error = match self.hotkey_error {
                    Some(e) => e,
                    None => AppError::Configuration(String::from_str("快捷鍵套用失敗")),
                };
                match outcome {
                    Ok(()) => (done, SettingsAction::Finish { result: Err(hotkey_error), keep_next: false }),
                    Err(rollback) => {
                        let mut m = chars_of(hotkey_error.to_text().as_str());
                        push_str(&mut m, "；設定與登入自啟回滾失敗：");
                        push_str(&mut m, rollback.to_text().as_str());
                        (
                            done,
                            SettingsAction::Finish {
                                result: Err(AppError::Io(string_from_chars(m.as_slice()))),
                                keep_next: false,
                            },
                        )
                    },
                }
            },
            SettingsPhase::Finished => (
                done,
                SettingsAction::Finish {
                    result: Err(AppError::Configuration(String::from_str("設定交易已結束"))),
                    keep_next: false,
                },
            ),
        }
    }
}

/// The settings that a running realtime session depends on; when they
/// change, the session is stopped.
#[derive(Debug, Clone)]
pub struct RealtimeFingerprint {
    pub provider: ProviderKind,
    pub mode: TranscriptionMode,
    pub language: String,
    pub openai_api_key_env: String,
    pub xai_api_key_env: String,
    pub openai_model: String,
    pub openai_transcription_delay: crate::config::OpenAiTranscriptionDelay,
    pub xai_smart_turn_enabled: bool,
    pub xai_smart_turn_threshold_bits: u32,
    pub xai_smart_turn_timeout_ms: u64,
    pub vad_rms_threshold_bits: u32,
    pub vad_pre_roll_ms: u64,
    pub vad_min_speech_ms: u64,
    pub vad_silence_ms: u64,
    pub max_utterance_secs: u64,
}

pub open spec fn fingerprint_of(c: AppConfig) -> (
    ProviderKind,
    TranscriptionMode,
    Seq<char>,
    Seq<char>,
    Seq<char>,
    Seq<char>,
    crate::config::OpenAiTranscriptionDelay,
    bool,
    (u32, u64, u32, u64, u64, u64, u64),
) {
    (
        c.provider,
        c.transcription_mode,
        c.language@,
        c.openai.api_key_env@,
        c.xai.api_key_env@,
        c.realtime.openai_model@,
        c.realtime.openai_transcription_delay,
        c.realtime.xai_smart_turn_enabled,
        (
            c.realtime.xai_smart_turn_threshold_bits,
            c.realtime.xai_smart_turn_timeout_ms,
            c.realtime.vad_rms_threshold_bits,
            c.realtime.vad_pre_roll_ms,
            c.realtime.vad_min_speech_ms,
            c.realtime.vad_silence_ms,
            c.realtime.max_utterance_secs,
        ),
    )
}

impl RealtimeFingerprint {
    pub open spec fn view_tuple(self) -> (
        ProviderKind,
        TranscriptionMode,
        Seq<char>,
        Seq<char>,
        Seq<char>,
        Seq<char>,
        crate::config::OpenAiTranscriptionDelay,
        bool,
        (u32, u64, u32, u64, u64, u64, u64),
    ) {
        (
            self.provider,
            self.mode,
            self.language@,
            self.openai_api_key_env@,
            self.xai_api_key_env@,
            self.openai_model@,
            self.openai_transcription_delay,
            self.xai_smart_turn_enabled,
            (
                self.xai_smart_turn_threshold_bits,
                self.xai_smart_turn_timeout_ms,
                self.vad_rms_threshold_bits,
                self.vad_pre_roll_ms,
                self.vad_min_speech_ms,
                self.vad_silence_ms,
                self.max_utterance_secs,
            ),
        )
    }

    /// Whether two fingerprints are of the same settings.
    pub fn same_as(&self, other: &RealtimeFingerprint) -> (b: bool)
        ensures
            b == (self.view_tuple() == other.view_tuple()),
    {
        self.provider == other.provider && self.mode == other.mode && crate::chars::str_eq(
            self.language.as_str(),
            other.language.as_str(),
        ) && crate::chars::str_eq(self.openai_api_key_env.as_str(), other.openai_api_key_env.as_str())
            && crate::chars::str_eq(self.xai_api_key_env.as_str(), other.xai_api_key_env.as_str())
            && crate::chars::str_eq(self.openai_model.as_str(), other.openai_model.as_str())
            && self.openai_transcription_delay == other.openai_transcription_delay
            && self.xai_smart_turn_enabled == other.xai_smart_turn_enabled
            && self.xai_smart_turn_threshold_bits == other.xai_smart_turn_threshold_bits
            && self.xai_smart_turn_timeout_ms == other.xai_smart_turn_timeout_ms
            && self.vad_rms_threshold_bits == other.vad_rms_threshold_bits
            && self.vad_pre_roll_ms == other.vad_pre_roll_ms && self.vad_min_speech_ms
            == other.vad_min_speech_ms && self.vad_silence_ms == other.vad_silence_ms
            && self.max_utterance_secs == other.max_utterance_secs
    }
}

/// The realtime-relevant settings of `config`.
pub fn realtime_settings_fingerprint(config: &AppConfig) -> (f: RealtimeFingerprint)
    ensures
        f.view_tuple() == fingerprint_of(*config),
{
    RealtimeFingerprint {
        provider: config.provider,
        mode: config.transcription_mode,
        language: String::from_str(config.language.as_str()),
        openai_api_key_env: String::from_str(config.openai.api_key_env.as_str()),
        xai_api_key_env: String::from_str(config.xai.api_key_env.as_str()),
        openai_model: String::from_str(config.realtime.openai_model.as_str()),
        openai_transcription_delay: config.realtime.openai_transcription_delay,
        xai_smart_turn_enabled: config.realtime.xai_smart_turn_enabled,
        xai_smart_turn_threshold_bits: config.realtime.xai_smart_turn_threshold_bits,
        xai_smart_turn_timeout_ms: config.realtime.xai_smart_turn_timeout_ms,
        vad_rms_threshold_bits: config.realtime.vad_rms_threshold_bits,
        vad_pre_roll_ms: config.realtime.vad_pre_roll_ms,
        vad_min_speech_ms: config.realtime.vad_min_speech_ms,
        vad_silence_ms: config.realtime.vad_silence_ms,
        max_utterance_secs: config.realtime.max_utterance_secs,
    }
}


// ---------------------------------------------------------------------------
// What the main window shows
// ---------------------------------------------------------------------------

/// The one-line explanation of a transcription mode.
pub fn mode_description(mode: TranscriptionMode) -> (s: &'static str)
    ensures
        s@ == (match mode {
            TranscriptionMode::BatchPtt => "Batch / PTT：按住全域快捷鍵說話，放開後才上傳辨識。"@,
            TranscriptionMode::RealtimePtt => "Realtime PTT：按住時明確開始串流，放開時手動 commit。"@,
            TranscriptionMode::ContinuousDictation => "Continuous Dictation：按下開始後由本地 VAD 分段；再次按下停止。"@,
        }),
{
    match mode {
        TranscriptionMode::BatchPtt => "Batch / PTT：按住全域快捷鍵說話，放開後才上傳辨識。",
        TranscriptionMode::RealtimePtt => "Realtime PTT：按住時明確開始串流，放開時手動 commit。",
        TranscriptionMode::ContinuousDictation => "Continuous Dictation：按下開始後由本地 VAD 分段；再次按下停止。",
    }
}

/// The status line: recording and recognising show as such; otherwise the
/// last status.
pub fn status_line(recording: bool, busy: bool, status: &str) -> (r: String)
    ensures
        r@ == (if recording {
            "🔴 錄音中"@
        } else if busy {
            "☁ 辨識中"@
        } else {
            status@
        }),
{
    if recording {
        String::from_str("🔴 錄音中")
    } else if busy {
        String::from_str("☁ 辨識中")
    } else {
        String::from_str(status)
    }
}

/// The label of the record button.
pub fn record_button_label(recording: bool, mode: TranscriptionMode) -> (s: &'static str)
    ensures
        s@ == (if recording {
            if mode == TranscriptionMode::ContinuousDictation {
                "停止連續聽寫"@
            } else {
                "停止錄音"@
            }
        } else if mode == TranscriptionMode::ContinuousDictation {
            "開始連續聽寫"@
        } else {
            "開始錄音"@
        }),
{
    let continuous = match mode {
        TranscriptionMode::ContinuousDictation => true,
        _ => false,
    };
    if recording {
        if continuous {
            "停止連續聽寫"
        } else {
            "停止錄音"
        }
    } else if continuous {
        "開始連續聽寫"
    } else {
        "開始錄音"
    }
}

/// A running recognition can be cancelled once, while it runs.
pub fn cancel_transcription_enabled(busy: bool, cancelling: Option<bool>) -> (b: bool)
    ensures
        b == (busy && !(cancelling == Some(true))),
{
    busy && !matches!(cancelling, Some(true))
}

/// The warnings about dropped live audio, each shown only when something
/// was dropped.
pub fn audio_drop_warnings(dropped_chunks: u64, dropped_samples: u64) -> (r: Vec<String>)
    ensures
        r@.len() == (if dropped_chunks > 0 { 1int } else { 0int }) + (if dropped_samples > 0 { 1int } else { 0int }),
        dropped_chunks > 0 ==> r@[0]@ == "Realtime 音訊背壓：已丟棄 "@ + decimal_spec(dropped_chunks as nat)
            + " 個 callback chunks"@,
        dropped_samples > 0 ==> r@[r@.len() - 1]@ == "錄音保留 ring 已覆寫／略過 "@ + decimal_spec(
            dropped_samples as nat,
        ) + " 個 samples"@,
{
    let mut r: Vec<String> = Vec::new();
    if dropped_chunks > 0 {
        let mut m = chars_of("Realtime 音訊背壓：已丟棄 ");
        push_str(&mut m, decimal(dropped_chunks).as_str());
        push_str(&mut m, " 個 callback chunks");
        r.push(string_from_chars(m.as_slice()));
    }
    if dropped_samples > 0 {
        let mut m = chars_of("錄音保留 ring 已覆寫／略過 ");
        push_str(&mut m, decimal(dropped_samples).as_str());
        push_str(&mut m, " 個 samples");
        r.push(string_from_chars(m.as_slice()));
    }
    r
}

/// The status after pasting the last text again without its window: it
/// was copied instead, or copying failed and the text stays on screen.
pub open spec fn repaste_copy_text(copied: bool) -> Seq<char> {
    if copied {
        "沒有原外部目標，文字已複製到剪貼簿"@
    } else {
        "沒有原外部目標且複製失敗，文字仍保留"@
    }
}

pub fn repaste_copy_status(copied: bool) -> (s: &'static str)
    ensures
        s@ == repaste_copy_text(copied),
{
    if copied {
        "沒有原外部目標，文字已複製到剪貼簿"
    } else {
        "沒有原外部目標且複製失敗，文字仍保留"
    }
}

/// The status after the copy button.
pub open spec fn copy_button_text(copied: bool) -> Seq<char> {
    if copied {
        "已複製到剪貼簿"@
    } else {
        "複製失敗，文字仍保留"@
    }
}

pub fn copy_button_status(copied: bool) -> (s: &'static str)
    ensures
        s@ == copy_button_text(copied),
{
    if copied {
        "已複製到剪貼簿"
    } else {
        "複製失敗，文字仍保留"
    }
}

/// The status and the remembered shutdown reason when a realtime session
/// is cancelled for `reason`: a running worker is being cancelled and the
/// reason is shown once it stops; without a worker the reason is shown now.
pub fn realtime_cancel_report(worker_running: bool, reason: &str) -> (r: (String, Option<String>))
    ensures
        worker_running ==> r.0@ == "正在取消 Realtime session…"@ && (r.1 matches Some(m) && m@ == reason@),
        !worker_running ==> r.0@ == reason@ && r.1 is None,
{
    if worker_running {
        (String::from_str("正在取消 Realtime session…"), Some(String::from_str(reason)))
    } else {
        (String::from_str(reason), None)
    }
}

} // verus!
