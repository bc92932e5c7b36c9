//! The state of the main window between frames: the recording, the batch
//! job, the realtime session, and what the user is told. The window, the
//! recorder, the workers and the clipboard act on what these steps decide;
//! each step says which outside work follows it.
use vstd::prelude::*;
use vstd::string::StringExecFns;
use crate::app::{
    copy_button_status, copy_button_text, copy_outcome_status, copy_outcome_text, delivered_transcript, delivery_plan,
    fallback_delivery_feedback, fallback_error_text, fallback_status_text, next_job_id, planned_delivery,
    react_to_worker_message, realtime_cancel_report, realtime_failure_status, realtime_failure_text,
    record_nonfatal_error, recording_status, recording_status_text, repaste_copy_status, repaste_copy_text,
    settings_blocked_error, take_confirmed_batch_fallback, transcript_for_delivery, DeliveryPlan, RealtimeReaction,
    TargetState, STATUS_REALTIME_CANCELLED, STATUS_REALTIME_CONNECTED, STATUS_REALTIME_DONE, STATUS_REALTIME_NO_FINAL,
    STATUS_REALTIME_PARTIAL,
};
use crate::config::TextProcessingConfig;
use crate::postprocess::DeliveryMode;
use crate::realtime::RealtimeEvent;
use crate::realtime_worker::WorkerMessage;
use crate::config::{provider_label_text, ProviderKind};
use crate::transcription::is_current_job;
use crate::chars::{chars_of, push_str, string_from_chars};
use crate::config::TranscriptionMode;
use crate::error::{error_text, AppError, AppResult};
use crate::injector::WindowTarget;
use crate::transcription::JobId;

verus! {

/// The batch job that is running, and whether its cancellation was asked for.
#[derive(Debug, Clone, Copy, PartialEq, Eq, Structural)]
pub struct ActiveJob {
    pub id: JobId,
    pub cancelling: bool,
}

/// The state of the main window; `A` is the recorded audio.
pub struct AppSession<A> {
    /// A recording is running (the caller keeps the time it started).
    pub recording_started: bool,
    pub targets: TargetState,
    /// A realtime worker is running.
    pub realtime_worker: bool,
    pub partial_text: String,
    /// The audio of a stopped realtime recording, kept until its final text.
    pub pending_realtime_audio: Option<A>,
    /// The audio offered for a batch upload after a realtime failure.
    pub batch_fallback_audio: Option<A>,
    pub realtime_stop_requested: bool,
    /// The status to show once the realtime worker has stopped.
    pub realtime_shutdown_reason: Option<String>,
    pub active_job: Option<ActiveJob>,
    pub next_job_id: u64,
    pub busy: bool,
    pub status: String,
    pub last_text: String,
    pub last_error: Option<String>,
    pub hotkey_error: Option<String>,
    pub config_load_error: Option<String>,
}

pub const STATUS_READY: &'static str = "就緒";

pub const STATUS_STARTUP_PROBLEM: &'static str = "啟動時發生問題；請查看錯誤訊息";

pub const STATUS_ERROR: &'static str = "發生錯誤";

pub const STATUS_HOTKEY_UNAVAILABLE: &'static str = "全域快捷鍵不可用；仍可使用按鈕錄音";

pub const RECORDING_TOO_SHORT_MESSAGE: &'static str = "錄音太短，請按住久一點";

pub const STATUS_FINISHING_REALTIME: &'static str = "正在完成 realtime utterance…";

pub const REALTIME_UNAVAILABLE_MESSAGE: &'static str = "Realtime session 不可用";

pub const STATUS_CANCELLED_JOB: &'static str = "辨識已取消";

pub const STATUS_CANCELLING_JOB: &'static str = "正在取消辨識…";

pub const STATUS_FALLBACK_CONFIRMED: &'static str = "已由使用者確認：改用 Batch 上傳此段音訊";

/// What follows the end of a recording.
pub enum StopOutcome<A> {
    /// The recording was too short; its audio is dropped.
    TooShort,
    /// The realtime worker is asked to finish the utterance.
    FinalizeWorker,
    /// There was no realtime worker: the session failed, and the audio is
    /// offered for a batch upload.
    RealtimeUnavailable,
    /// A batch job with this id is to be started on the audio.
    Batch(JobId, A),
}

/// What the caller does after a message of the realtime worker.
pub enum WorkerFollowUp {
    Nothing,
    /// Deliver this final text, then call `after_final` with `preserve_target`.
    Deliver { text: String, preserve_target: bool },
    /// Cancel the worker.
    CancelWorker,
    /// The session failed with this error: stop the recorder if it runs,
    /// then call `realtime_audio_for_fallback` and `fail_realtime`.
    Fail(String),
    /// The worker is gone: release it.
    ReleaseWorker,
}

/// How a transcript's delivery went.
pub enum DeliveryOutcome {
    /// Pasted into the window the recording was meant for.
    Injected,
    /// The paste failed; with copying on failure enabled, the copy that
    /// replaced it.
    InjectionFailed(AppError, Option<AppResult<()>>),
    /// Copied to the clipboard (`without_target` when a paste was wanted
    /// but there was no window).
    Copied { without_target: bool, delivery: DeliveryMode, result: AppResult<()> },
}

/// How pasting the last text again went.
pub enum RepasteOutcome {
    Injected,
    /// The paste failed, and the copy that replaced it.
    InjectionFailed(AppError, AppResult<()>),
    /// There was no window: the text was copied.
    Copied(AppResult<()>),
}

/// A transcript to deliver: the text, how, and where.
pub struct AcceptPlan {
    pub text: String,
    pub delivery: DeliveryMode,
    pub plan: DeliveryPlan,
}

/// `current` with `message` added on a line of its own.
pub open spec fn with_error(current: Option<String>, message: Seq<char>) -> Seq<char> {
    match current {
        Some(c) => c@ + "\n"@ + message,
        None => message,
    }
}

pub const STATUS_RECOGNISED: &'static str = "辨識完成";

pub const STATUS_COMMAND_DISCARDED: &'static str = "語音命令已執行：不輸出文字";

pub const STATUS_INJECTED: &'static str = "已輸入錄音開始前的外部視窗";

pub const STATUS_INJECTION_FAILED: &'static str = "自動貼上失敗，文字保留在最近辨識文字區";

pub const STATUS_REPASTED: &'static str = "已再次貼到原本的外部視窗";

pub const STATUS_SETTINGS_SAVED: &'static str = "設定已儲存";

/// The job, the realtime session, the targets and the texts other than
/// the status and the error are the same in `a` and `b`.
pub open spec fn same_jobs<A>(a: AppSession<A>, b: AppSession<A>) -> bool {
    a.active_job == b.active_job && a.next_job_id == b.next_job_id && a.busy == b.busy
}

pub open spec fn same_realtime<A>(a: AppSession<A>, b: AppSession<A>) -> bool {
    &&& a.realtime_worker == b.realtime_worker
    &&& a.partial_text == b.partial_text
    &&& a.pending_realtime_audio == b.pending_realtime_audio
    &&& a.batch_fallback_audio == b.batch_fallback_audio
    &&& a.realtime_stop_requested == b.realtime_stop_requested
    &&& a.realtime_shutdown_reason == b.realtime_shutdown_reason
}

pub open spec fn same_targets<A>(a: AppSession<A>, b: AppSession<A>) -> bool {
    &&& a.targets.last_external_spec() == b.targets.last_external_spec()
    &&& a.targets.recording_spec() == b.targets.recording_spec()
    &&& a.targets.last_text_spec() == b.targets.last_text_spec()
}

pub open spec fn same_texts<A>(a: AppSession<A>, b: AppSession<A>) -> bool {
    a.last_text == b.last_text && a.hotkey_error == b.hotkey_error && a.config_load_error == b.config_load_error
}

/// The session after a failure shown as `text`: not busy, the error shown.
pub open spec fn failed_with_text<A>(a: AppSession<A>, text: Seq<char>) -> bool {
    &&& !a.busy
    &&& a.status@ == STATUS_ERROR@
    &&& a.last_error matches Some(m) && m@ == text
}

/// The session after `fail(error)`.
pub open spec fn failed_with<A>(a: AppSession<A>, error: AppError) -> bool {
    failed_with_text(a, error_text(error))
}

impl<A> AppSession<A> {
    /// The state at start: ready, or a startup problem shown when the
    /// settings could not be read or the hotkey could not be registered.
    pub fn new(config_load_error: Option<String>, hotkey_error: Option<String>) -> (s: AppSession<A>)
        ensures
            s.status@ == (if config_load_error is Some || hotkey_error is Some {
                STATUS_STARTUP_PROBLEM@
            } else {
                STATUS_READY@
            }),
            s.last_error == config_load_error,
            s.config_load_error == config_load_error,
            s.hotkey_error == hotkey_error,
            s.next_job_id == 1,
            !s.busy && !s.recording_started && !s.realtime_worker && !s.realtime_stop_requested,
            s.active_job is None,
            s.partial_text@.len() == 0 && s.last_text@.len() == 0,
            s.pending_realtime_audio is None && s.batch_fallback_audio is None,
            s.realtime_shutdown_reason is None,
            s.targets.last_external_spec() is None,
            s.targets.recording_spec() is None,
            s.targets.last_text_spec() is None,
    {
        let problem = config_load_error.is_some() || hotkey_error.is_some();
        AppSession {
            recording_started: false,
            targets: TargetState::default(),
            realtime_worker: false,
            partial_text: String::new(),
            pending_realtime_audio: None,
            batch_fallback_audio: None,
            realtime_stop_requested: false,
            realtime_shutdown_reason: None,
            active_job: None,
            next_job_id: 1,
            busy: false,
            status: if problem {
                String::from_str(STATUS_STARTUP_PROBLEM)
            } else {
                String::from_str(STATUS_READY)
            },
            last_text: String::new(),
            last_error: config_load_error.clone(),
            hotkey_error,
            config_load_error,
        }
    }

    /// An error ends the current work: not busy, and the error is shown.
    pub fn fail(&mut self, error: AppError)
        ensures
            failed_with(*final(self), error),
            final(self).active_job == old(self).active_job,
            final(self).next_job_id == old(self).next_job_id,
            final(self).recording_started == old(self).recording_started,
            same_realtime(*old(self), *final(self)),
            same_targets(*old(self), *final(self)),
            same_texts(*old(self), *final(self)),
    {
        self.busy = false;
        self.status = String::from_str(STATUS_ERROR);
        self.last_error = Some(error.to_text());
    }

    /// The hotkey listener stopped: the hotkey is dropped, its error shown,
    /// and recording stays possible with the button.
    pub fn hotkey_listener_failed(&mut self, error: String)
        ensures
            final(self).hotkey_error == Some(error),
            final(self).status@ == STATUS_HOTKEY_UNAVAILABLE@,
            final(self).last_error == old(self).last_error,
            final(self).recording_started == old(self).recording_started,
            same_jobs(*old(self), *final(self)),
            same_realtime(*old(self), *final(self)),
            same_targets(*old(self), *final(self)),
            final(self).last_text == old(self).last_text,
            final(self).config_load_error == old(self).config_load_error,
    {
        self.hotkey_error = Some(error);
        self.status = String::from_str(STATUS_HOTKEY_UNAVAILABLE);
    }

    /// Asked to start recording: nothing happens while busy or already
    /// recording; otherwise the recording aims at a window (see
    /// `TargetState::start_recording`) and the recorder is to be started.
    pub fn begin_recording(
        &mut self,
        recorder_recording: bool,
        preserve_target: bool,
        current_external: Option<WindowTarget>,
    ) -> (start: bool)
        ensures
            start == !(old(self).busy || recorder_recording),
            !start ==> *final(self) == *old(self),
            start ==> final(self).targets.recording_spec() == (if !preserve_target {
                None
            } else if current_external is Some {
                current_external
            } else {
                old(self).targets.last_external_spec()
            }),
            start ==> final(self).targets.last_text_spec() == old(self).targets.last_text_spec(),
            start ==> final(self).status == old(self).status && final(self).last_error == old(self).last_error
                && final(self).recording_started == old(self).recording_started,
            start ==> same_jobs(*old(self), *final(self)) && same_realtime(*old(self), *final(self)) && same_texts(
                *old(self),
                *final(self),
            ),
    {
        if self.busy || recorder_recording {
            return false;
        }
        self.targets.start_recording(preserve_target, current_external);
        true
    }

    /// The recorder answered the start. A started realtime recording opens
    /// a fresh session (the caller starts its worker); a started batch
    /// recording shows whether there is a window to paste into; a failure
    /// drops the recording's target and is shown.
    pub fn recorder_started(&mut self, mode: TranscriptionMode, auto_inject: bool, result: AppResult<()>)
        ensures
            match result {
                Err(e) => failed_with(*final(self), e) && final(self).targets.recording_spec() is None
                    && final(self).recording_started == old(self).recording_started
                    && same_realtime(*old(self), *final(self)),
                Ok(()) => {
                    &&& final(self).recording_started
                    &&& final(self).last_error is None
                    &&& final(self).status@ == recording_status_text(
                        mode,
                        auto_inject,
                        old(self).targets.recording_spec() is Some,
                    )
                    &&& final(self).targets.recording_spec() == old(self).targets.recording_spec()
                    &&& final(self).busy == old(self).busy
                    &&& if mode == TranscriptionMode::BatchPtt {
                        same_realtime(*old(self), *final(self))
                    } else {
                        &&& final(self).realtime_worker
                        &&& final(self).partial_text@.len() == 0
                        &&& final(self).pending_realtime_audio is None
                        &&& final(self).batch_fallback_audio is None
                        &&& !final(self).realtime_stop_requested
                        &&& final(self).realtime_shutdown_reason is None
                    }
                },
            },
            final(self).active_job == old(self).active_job,
            final(self).next_job_id == old(self).next_job_id,
            final(self).targets.last_external_spec() == old(self).targets.last_external_spec(),
            final(self).targets.last_text_spec() == old(self).targets.last_text_spec(),
            same_texts(*old(self), *final(self)),
    {
        match result {
            Err(e) => {
                self.targets.cancel_recording();
                self.fail(e);
            },
            Ok(()) => {
                let has_target = self.targets.recording_target().is_some();
                if !matches!(mode, TranscriptionMode::BatchPtt) {
                    self.realtime_worker = true;
                    self.partial_text = String::new();
                    self.pending_realtime_audio = None;
                    self.batch_fallback_audio = None;
                    self.realtime_stop_requested = false;
                    self.realtime_shutdown_reason = None;
                }
                self.recording_started = true;
                self.status = String::from_str(recording_status(mode, auto_inject, has_target));
                self.last_error = None;
            },
        }
    }

    /// The status while a batch job runs.
    pub open spec fn recognising_text(provider: ProviderKind) -> Seq<char> {
        "正在使用 "@ + provider_label_text(provider) + " 辨識…"@
    }

    /// A batch job starts: it gets the next id, the session is busy with it.
    pub fn spawn_batch_transcription(&mut self, provider: ProviderKind) -> (id: JobId)
        ensures
            id == JobId(old(self).next_job_id),
            final(self).next_job_id == (if old(self).next_job_id == u64::MAX {
                1
            } else {
                old(self).next_job_id + 1
            }),
            final(self).active_job == Some(ActiveJob { id, cancelling: false }),
            final(self).busy,
            final(self).status@ == Self::recognising_text(provider),
            final(self).last_error == old(self).last_error,
            final(self).recording_started == old(self).recording_started,
            same_realtime(*old(self), *final(self)),
            same_targets(*old(self), *final(self)),
            same_texts(*old(self), *final(self)),
    {
        let id = JobId(self.next_job_id);
        self.next_job_id = next_job_id(self.next_job_id);
        self.active_job = Some(ActiveJob { id, cancelling: false });
        self.busy = true;
        let mut m = chars_of("正在使用 ");
        push_str(&mut m, provider.label());
        push_str(&mut m, " 辨識…");
        self.status = string_from_chars(m.as_slice());
        id
    }

    /// The realtime session failed with `error`; `fallback` is the audio
    /// offered for a batch upload (the caller keeps only audio long enough).
    /// Whether a worker is to be cancelled is returned.
    pub fn fail_realtime(&mut self, error: String, fallback: Option<A>) -> (cancel_worker: bool)
        ensures
            cancel_worker == old(self).realtime_worker,
            final(self).batch_fallback_audio == fallback,
            final(self).partial_text@.len() == 0,
            !final(self).realtime_stop_requested,
            final(self).status@ == realtime_failure_text(fallback is Some),
            final(self).realtime_shutdown_reason == Some(final(self).status),
            final(self).last_error == Some(error),
            final(self).realtime_worker == old(self).realtime_worker,
            final(self).pending_realtime_audio == old(self).pending_realtime_audio,
            final(self).recording_started == old(self).recording_started,
            same_jobs(*old(self), *final(self)),
            same_targets(*old(self), *final(self)),
            same_texts(*old(self), *final(self)),
    {
        let has_fallback = fallback.is_some();
        self.batch_fallback_audio = fallback;
        self.partial_text = String::new();
        self.realtime_stop_requested = false;
        self.status = String::from_str(realtime_failure_status(has_fallback));
        self.realtime_shutdown_reason = Some(self.status.clone());
        self.last_error = Some(error);
        self.realtime_worker
    }

    /// The audio that a realtime failure may offer for a batch upload: the
    /// audio of the recording just stopped (`stopped`, when the recorder
    /// was still running), else the kept audio of the stopped recording.
    pub fn realtime_audio_for_fallback(&mut self, stopped: Option<A>) -> (r: Option<A>)
        ensures
            match stopped {
                Some(a) => r == Some(a) && !final(self).recording_started && final(self).pending_realtime_audio
                    == old(self).pending_realtime_audio,
                None => r == old(self).pending_realtime_audio && final(self).pending_realtime_audio is None
                    && final(self).recording_started == old(self).recording_started,
            },
            final(self).status == old(self).status,
            final(self).last_error == old(self).last_error,
            final(self).realtime_worker == old(self).realtime_worker,
            final(self).partial_text == old(self).partial_text,
            final(self).batch_fallback_audio == old(self).batch_fallback_audio,
            final(self).realtime_stop_requested == old(self).realtime_stop_requested,
            final(self).realtime_shutdown_reason == old(self).realtime_shutdown_reason,
            same_jobs(*old(self), *final(self)),
            same_targets(*old(self), *final(self)),
            same_texts(*old(self), *final(self)),
    {
        match stopped {
            Some(a) => {
                self.recording_started = false;
                Some(a)
            },
            None => self.pending_realtime_audio.take(),
        }
    }

    /// The recorder stopped with `audio` (`long_enough` when it lasted at
    /// least the minimum). Too short a recording is dropped and reported; a
    /// realtime recording keeps its audio and asks the worker to finish
    /// (the session fails when there is no worker); a batch recording
    /// starts a job.
    pub fn recorder_stopped(&mut self, audio: A, long_enough: bool, realtime: bool, provider: ProviderKind) -> (r: StopOutcome<A>)
        ensures
            !final(self).recording_started,
            !long_enough ==> r is TooShort && failed_with_text(
                *final(self),
                "錄音錯誤："@ + RECORDING_TOO_SHORT_MESSAGE@,
            ) && final(self).targets.recording_spec() is None && same_realtime(*old(self), *final(self)),
            long_enough && realtime && old(self).realtime_worker ==> {
                &&& r is FinalizeWorker
                &&& final(self).pending_realtime_audio == Some(audio)
                &&& final(self).realtime_stop_requested
                &&& final(self).status@ == STATUS_FINISHING_REALTIME@
                &&& final(self).last_error == old(self).last_error
                &&& same_jobs(*old(self), *final(self))
                &&& same_targets(*old(self), *final(self))
            },
            long_enough && realtime && !old(self).realtime_worker ==> {
                &&& r is RealtimeUnavailable
                &&& final(self).pending_realtime_audio is None
                &&& final(self).batch_fallback_audio == Some(audio)
                &&& !final(self).realtime_stop_requested
                &&& final(self).partial_text@.len() == 0
                &&& final(self).status@ == realtime_failure_text(true)
                &&& final(self).realtime_shutdown_reason == Some(final(self).status)
                &&& final(self).last_error matches Some(m) && m@ == REALTIME_UNAVAILABLE_MESSAGE@
                &&& same_jobs(*old(self), *final(self))
                &&& same_targets(*old(self), *final(self))
            },
            long_enough && !realtime ==> {
                &&& r matches StopOutcome::Batch(id, a) && a == audio && id == JobId(old(self).next_job_id)
                &&& final(self).active_job == Some(ActiveJob { id: JobId(old(self).next_job_id), cancelling: false })
                &&& final(self).busy
                &&& final(self).status@ == Self::recognising_text(provider)
                &&& final(self).last_error == old(self).last_error
                &&& same_realtime(*old(self), *final(self))
                &&& same_targets(*old(self), *final(self))
            },
            same_texts(*old(self), *final(self)),
    {
        self.recording_started = false;
        if !long_enough {
            self.targets.cancel_recording();
            self.fail(AppError::Audio(String::from_str(RECORDING_TOO_SHORT_MESSAGE)));
            return StopOutcome::TooShort;
        }
        if realtime {
            self.pending_realtime_audio = Some(audio);
            self.realtime_stop_requested = true;
            if self.realtime_worker {
                self.status = String::from_str(STATUS_FINISHING_REALTIME);
                return StopOutcome::FinalizeWorker;
            }
            let kept = self.realtime_audio_for_fallback(None);
            self.fail_realtime(String::from_str(REALTIME_UNAVAILABLE_MESSAGE), kept);
            return StopOutcome::RealtimeUnavailable;
        }
        let id = self.spawn_batch_transcription(provider);
        StopOutcome::Batch(id, audio)
    }

    /// The recording failed while running (a broken microphone stream in a
    /// batch recording): it ends and the error is shown.
    pub fn recording_failed(&mut self, error: AppError)
        ensures
            !final(self).recording_started,
            failed_with(*final(self), error),
            final(self).active_job == old(self).active_job,
            final(self).next_job_id == old(self).next_job_id,
            same_realtime(*old(self), *final(self)),
            same_targets(*old(self), *final(self)),
            same_texts(*old(self), *final(self)),
    {
        self.recording_started = false;
        self.fail(error);
    }

    /// A batch job reported. A report of another job than the current one
    /// is ignored (`None`, nothing changes). Otherwise the job is over: a
    /// transcript is handed back for delivery; a cancelled job says so; a
    /// failure is shown. Without a transcript the recording's target is
    /// dropped.
    pub fn job_finished<J>(&mut self, id: JobId, result: AppResult<J>) -> (r: Option<J>)
        ensures
            old(self).active_job.is_none() || old(self).active_job->0.id != id ==> r is None && *final(self)
                == *old(self),
            old(self).active_job.is_some() && old(self).active_job->0.id == id ==> {
                &&& final(self).active_job is None
                &&& !final(self).busy
                &&& final(self).next_job_id == old(self).next_job_id
                &&& match result {
                    Ok(j) => r == Some(j) && final(self).status == old(self).status && final(self).last_error
                        == old(self).last_error && same_targets(*old(self), *final(self)),
                    Err(e) => r is None && final(self).targets.recording_spec() is None && (if e is Cancelled {
                        final(self).status@ == STATUS_CANCELLED_JOB@ && final(self).last_error is None
                    } else {
                        failed_with(*final(self), e)
                    }),
                }
            },
            final(self).recording_started == old(self).recording_started,
            final(self).targets.last_external_spec() == old(self).targets.last_external_spec(),
            final(self).targets.last_text_spec() == old(self).targets.last_text_spec(),
            same_realtime(*old(self), *final(self)),
            same_texts(*old(self), *final(self)),
    {
        let active = match self.active_job {
            Some(job) => Some(job.id),
            None => None,
        };
        if !is_current_job(active, id) {
            return None;
        }
        self.active_job = None;
        self.busy = false;
        match result {
            Ok(job) => Some(job),
            Err(AppError::Cancelled) => {
                self.targets.cancel_recording();
                self.status = String::from_str(STATUS_CANCELLED_JOB);
                self.last_error = None;
                None
            },
            Err(e) => {
                self.targets.cancel_recording();
                self.fail(e);
                None
            },
        }
    }

    /// Asked to cancel the batch job: the running job is marked and the
    /// caller cancels it (`true`); without a job nothing happens.
    pub fn cancel_transcription(&mut self) -> (cancel: bool)
        ensures
            cancel == old(self).active_job.is_some(),
            !cancel ==> *final(self) == *old(self),
            cancel ==> {
                &&& final(self).active_job == Some(ActiveJob { id: old(self).active_job->0.id, cancelling: true })
                &&& final(self).status@ == STATUS_CANCELLING_JOB@
                &&& final(self).last_error is None
                &&& final(self).busy == old(self).busy
                &&& final(self).next_job_id == old(self).next_job_id
                &&& final(self).recording_started == old(self).recording_started
                &&& same_realtime(*old(self), *final(self))
                &&& same_targets(*old(self), *final(self))
                &&& same_texts(*old(self), *final(self))
            },
    {
        match self.active_job {
            Some(job) => {
                self.active_job = Some(ActiveJob { id: job.id, cancelling: true });
                self.status = String::from_str(STATUS_CANCELLING_JOB);
                self.last_error = None;
                true
            },
            None => false,
        }
    }

    /// A message of the realtime worker (see `react_to_worker_message`).
    pub fn on_worker_message(&mut self, message: WorkerMessage, mode: TranscriptionMode) -> (r: WorkerFollowUp)
        ensures
            final(self).recording_started == old(self).recording_started,
            same_jobs(*old(self), *final(self)),
            same_texts(*old(self), *final(self)),
            final(self).targets.last_external_spec() == old(self).targets.last_external_spec(),
            final(self).targets.last_text_spec() == old(self).targets.last_text_spec(),
            final(self).batch_fallback_audio == old(self).batch_fallback_audio,
            final(self).last_error == old(self).last_error,
            match message {
                WorkerMessage::Event(RealtimeEvent::Created) => r is Nothing && final(self).status@
                    == STATUS_REALTIME_CONNECTED@ && same_realtime(*old(self), *final(self)) && same_targets(
                    *old(self),
                    *final(self),
                ),
                WorkerMessage::Event(RealtimeEvent::Partial(t)) => r is Nothing && final(self).partial_text == t
                    && final(self).status@ == STATUS_REALTIME_PARTIAL@ && final(self).realtime_worker == old(self).realtime_worker && final(self).pending_realtime_audio == old(self).pending_realtime_audio
                    && final(self).realtime_stop_requested == old(self).realtime_stop_requested
                    && final(self).realtime_shutdown_reason == old(self).realtime_shutdown_reason && same_targets(
                    *old(self),
                    *final(self),
                ),
                WorkerMessage::Event(RealtimeEvent::Final(t)) => (r matches WorkerFollowUp::Deliver {
                    text,
                    preserve_target,
                } && text == t && preserve_target == (mode == TranscriptionMode::ContinuousDictation
                    && !old(self).realtime_stop_requested)) && final(self).partial_text@.len() == 0
                    && final(self).status == old(self).status && final(self).realtime_worker == old(self).realtime_worker && final(self).pending_realtime_audio == old(self).pending_realtime_audio
                    && final(self).realtime_stop_requested == old(self).realtime_stop_requested
                    && final(self).realtime_shutdown_reason == old(self).realtime_shutdown_reason && same_targets(
                    *old(self),
                    *final(self),
                ),
                WorkerMessage::Event(RealtimeEvent::Done) => if old(self).realtime_stop_requested {
                    &&& (if old(self).realtime_worker {
                        r is CancelWorker
                    } else {
                        r is Nothing
                    })
                    &&& final(self).pending_realtime_audio is None
                    &&& !final(self).realtime_stop_requested
                    &&& final(self).targets.recording_spec() is None
                    &&& final(self).status@ == STATUS_REALTIME_NO_FINAL@
                    &&& final(self).realtime_shutdown_reason == Some(final(self).status)
                    &&& final(self).realtime_worker == old(self).realtime_worker
                    &&& final(self).partial_text == old(self).partial_text
                } else {
                    r is Nothing && final(self).status@ == STATUS_REALTIME_DONE@ && same_realtime(
                        *old(self),
                        *final(self),
                    ) && same_targets(*old(self), *final(self))
                },
                WorkerMessage::Event(RealtimeEvent::Cancelled) => r is Nothing && final(self).status@
                    == STATUS_REALTIME_CANCELLED@ && same_realtime(*old(self), *final(self)) && same_targets(
                    *old(self),
                    *final(self),
                ),
                WorkerMessage::Event(RealtimeEvent::Error(e)) => r == WorkerFollowUp::Fail(e) && *final(self)
                    == *old(self),
                WorkerMessage::Failed(e) => r == WorkerFollowUp::Fail(e) && *final(self) == *old(self),
                WorkerMessage::Stopped => {
                    &&& r is ReleaseWorker
                    &&& !final(self).realtime_worker
                    &&& final(self).pending_realtime_audio is None
                    &&& !final(self).realtime_stop_requested
                    &&& final(self).realtime_shutdown_reason is None
                    &&& final(self).status == match old(self).realtime_shutdown_reason {
                        Some(reason) => reason,
                        None => old(self).status,
                    }
                    &&& final(self).partial_text == old(self).partial_text
                    &&& same_targets(*old(self), *final(self))
                },
            },
    {
        let worker = self.realtime_worker;
        let is_error = match &message {
            WorkerMessage::Event(RealtimeEvent::Error(_)) => true,
            WorkerMessage::Failed(_) => true,
            _ => false,
        };
        if is_error {
            return match message {
                WorkerMessage::Event(RealtimeEvent::Error(e)) => WorkerFollowUp::Fail(e),
                WorkerMessage::Failed(e) => WorkerFollowUp::Fail(e),
                _ => WorkerFollowUp::Nothing,
            };
        }
        match react_to_worker_message(message, mode, self.realtime_stop_requested) {
            RealtimeReaction::Status(s) => {
                self.status = String::from_str(s);
                WorkerFollowUp::Nothing
            },
            RealtimeReaction::Partial(t) => {
                self.partial_text = t;
                self.status = String::from_str(STATUS_REALTIME_PARTIAL);
                WorkerFollowUp::Nothing
            },
            RealtimeReaction::Final { text, preserve_target } => {
                self.partial_text = String::new();
                WorkerFollowUp::Deliver { text, preserve_target }
            },
            RealtimeReaction::StoppedWithoutFinal => {
                self.pending_realtime_audio = None;
                self.realtime_stop_requested = false;
                self.targets.cancel_recording();
                self.status = String::from_str(STATUS_REALTIME_NO_FINAL);
                self.realtime_shutdown_reason = Some(self.status.clone());
                if worker {
                    WorkerFollowUp::CancelWorker
                } else {
                    WorkerFollowUp::Nothing
                }
            },
            RealtimeReaction::Fail(e) => WorkerFollowUp::Fail(e),
            RealtimeReaction::WorkerStopped => {
                self.realtime_worker = false;
                self.pending_realtime_audio = None;
                self.realtime_stop_requested = false;
                match self.realtime_shutdown_reason.take() {
                    Some(reason) => {
                        self.status = reason;
                    },
                    None => {},
                }
                WorkerFollowUp::ReleaseWorker
            },
        }
    }

    /// After a realtime final was delivered: unless the target is kept for
    /// the next utterance, the session is over; the worker is to be
    /// cancelled (when there is one) and the status shown once it stops.
    pub fn after_final(&mut self, preserve_target: bool) -> (cancel_worker: bool)
        ensures
            preserve_target ==> !cancel_worker && *final(self) == *old(self),
            !preserve_target ==> {
                &&& cancel_worker == old(self).realtime_worker
                &&& final(self).pending_realtime_audio is None
                &&& final(self).realtime_shutdown_reason == Some(old(self).status)
                &&& !final(self).realtime_stop_requested
                &&& final(self).status == old(self).status
                &&& final(self).last_error == old(self).last_error
                &&& final(self).realtime_worker == old(self).realtime_worker
                &&& final(self).partial_text == old(self).partial_text
                &&& final(self).batch_fallback_audio == old(self).batch_fallback_audio
                &&& final(self).recording_started == old(self).recording_started
                &&& same_jobs(*old(self), *final(self))
                &&& same_targets(*old(self), *final(self))
                &&& same_texts(*old(self), *final(self))
            },
    {
        if preserve_target {
            return false;
        }
        self.pending_realtime_audio = None;
        self.realtime_shutdown_reason = Some(self.status.clone());
        self.realtime_stop_requested = false;
        self.realtime_worker
    }

    /// The realtime session is cancelled for `reason`: everything it kept is
    /// dropped; a running worker is to be cancelled and the reason shown
    /// once it stops, else the reason is shown now.
    pub fn cancel_realtime(&mut self, reason: &str) -> (cancel_worker: bool)
        ensures
            cancel_worker == old(self).realtime_worker,
            !final(self).recording_started,
            final(self).pending_realtime_audio is None,
            final(self).batch_fallback_audio is None,
            final(self).partial_text@.len() == 0,
            !final(self).realtime_stop_requested,
            final(self).targets.recording_spec() is None,
            final(self).last_error is None,
            old(self).realtime_worker ==> final(self).status@ == "正在取消 Realtime session…"@ && (final(self).realtime_shutdown_reason matches Some(m) && m@ == reason@),
            !old(self).realtime_worker ==> final(self).status@ == reason@ && final(self).realtime_shutdown_reason is None,
            final(self).realtime_worker == old(self).realtime_worker,
            final(self).targets.last_external_spec() == old(self).targets.last_external_spec(),
            final(self).targets.last_text_spec() == old(self).targets.last_text_spec(),
            same_jobs(*old(self), *final(self)),
            same_texts(*old(self), *final(self)),
    {
        self.recording_started = false;
        self.pending_realtime_audio = None;
        self.batch_fallback_audio = None;
        self.partial_text = String::new();
        self.realtime_stop_requested = false;
        self.targets.cancel_recording();
        self.last_error = None;
        let (status, shutdown) = realtime_cancel_report(self.realtime_worker, reason);
        self.status = status;
        self.realtime_shutdown_reason = shutdown;
        self.realtime_worker
    }

    /// The user confirmed the batch upload of the audio kept after a
    /// realtime failure: unless busy, that audio goes to a new batch job.
    pub fn confirm_batch_fallback(&mut self, provider: ProviderKind) -> (r: Option<(JobId, A)>)
        ensures
            (old(self).busy || old(self).batch_fallback_audio is None) ==> r is None && *final(self) == *old(self),
            !old(self).busy && old(self).batch_fallback_audio is Some ==> {
                &&& r == Some((JobId(old(self).next_job_id), old(self).batch_fallback_audio->0))
                &&& final(self).batch_fallback_audio is None
                &&& final(self).active_job == Some(ActiveJob { id: JobId(old(self).next_job_id), cancelling: false })
                &&& final(self).busy
                &&& final(self).status@ == Self::recognising_text(provider)
                &&& final(self).last_error == old(self).last_error
                &&& final(self).recording_started == old(self).recording_started
                &&& same_targets(*old(self), *final(self))
                &&& same_texts(*old(self), *final(self))
            },
    {
        if self.busy {
            return None;
        }
        let audio = match take_confirmed_batch_fallback(&mut self.batch_fallback_audio, true) {
            Some(a) => a,
            None => {
                return None;
            },
        };
        self.status = String::from_str(STATUS_FALLBACK_CONFIRMED);
        let id = self.spawn_batch_transcription(provider);
        Some((id, audio))
    }

    /// A transcript arrived: it is processed (see `transcript_for_delivery`),
    /// keeps the recording's window (see `TargetState::accept_transcript`),
    /// becomes the last text, and is planned for delivery; a voice command
    /// that discards the text ends here.
    pub fn begin_accept(
        &mut self,
        raw: &str,
        config: &TextProcessingConfig,
        append_space: bool,
        auto_inject: bool,
        preserve_target: bool,
    ) -> (r: AcceptPlan)
        ensures
            (r.text@, r.delivery) == delivered_transcript(raw@, *config, append_space),
            final(self).last_text == r.text,
            r.plan == planned_delivery(r.delivery, auto_inject, old(self).targets.recording_spec()),
            final(self).status@ == (if r.delivery == DeliveryMode::Discard {
                STATUS_COMMAND_DISCARDED@
            } else {
                STATUS_RECOGNISED@
            }),
            final(self).last_error is Some <==> crate::postprocess::process_spec(raw@, *config, append_space) is None,
            final(self).targets.last_text_spec() == old(self).targets.recording_spec(),
            final(self).targets.recording_spec() == (if preserve_target {
                old(self).targets.recording_spec()
            } else {
                None
            }),
            final(self).targets.last_external_spec() == old(self).targets.last_external_spec(),
            final(self).recording_started == old(self).recording_started,
            same_jobs(*old(self), *final(self)),
            same_realtime(*old(self), *final(self)),
            final(self).hotkey_error == old(self).hotkey_error,
            final(self).config_load_error == old(self).config_load_error,
    {
        let (text, delivery, processing_error) = transcript_for_delivery(raw, config, append_space);
        let target = self.targets.accept_transcript(preserve_target);
        self.last_text = text.clone();
        self.last_error = processing_error;
        let discard = match delivery {
            DeliveryMode::Discard => true,
            _ => false,
        };
        if discard {
            self.status = String::from_str(STATUS_COMMAND_DISCARDED);
        } else {
            self.status = String::from_str(STATUS_RECOGNISED);
        }
        let plan = delivery_plan(delivery, auto_inject, target);
        AcceptPlan { text, delivery, plan }
    }

    /// The history entry of a transcript could not be saved: reported
    /// alongside earlier errors.
    pub fn history_not_saved(&mut self, error: &str)
        ensures
            final(self).last_error matches Some(m) && m@ == with_error(old(self).last_error, "歷史紀錄未保存："@ + error@),
            final(self).status == old(self).status,
            final(self).recording_started == old(self).recording_started,
            same_jobs(*old(self), *final(self)),
            same_realtime(*old(self), *final(self)),
            same_targets(*old(self), *final(self)),
            same_texts(*old(self), *final(self)),
    {
        let mut m = chars_of("歷史紀錄未保存：");
        push_str(&mut m, error);
        let message = string_from_chars(m.as_slice());
        record_nonfatal_error(&mut self.last_error, message.as_str());
    }

    /// The delivery of a transcript ended: the status says what happened,
    /// never claiming a paste or a copy that failed, and failures are
    /// reported alongside earlier errors.
    pub fn delivered(&mut self, outcome: DeliveryOutcome)
        ensures
            match outcome {
                DeliveryOutcome::Injected => final(self).status@ == STATUS_INJECTED@ && final(self).last_error
                    == old(self).last_error,
                DeliveryOutcome::InjectionFailed(e, Some(copy)) => final(self).status@ == fallback_status_text(
                    copy is Ok,
                ) && (final(self).last_error matches Some(m) && m@ == with_error(
                    old(self).last_error,
                    fallback_error_text(e, copy),
                )),
                DeliveryOutcome::InjectionFailed(e, None) => final(self).status@ == STATUS_INJECTION_FAILED@ && (final(self).last_error matches Some(m) && m@ == with_error(old(self).last_error, error_text(e))),
                DeliveryOutcome::Copied { without_target, delivery, result } => final(self).status@
                    == copy_outcome_text(without_target, result is Ok, delivery) && match result {
                    Ok(()) => final(self).last_error == old(self).last_error,
                    Err(e) => final(self).last_error matches Some(m) && m@ == with_error(
                        old(self).last_error,
                        error_text(e),
                    ),
                },
            },
            final(self).recording_started == old(self).recording_started,
            same_jobs(*old(self), *final(self)),
            same_realtime(*old(self), *final(self)),
            same_targets(*old(self), *final(self)),
            same_texts(*old(self), *final(self)),
    {
        match outcome {
            DeliveryOutcome::Injected => {
                self.status = String::from_str(STATUS_INJECTED);
            },
            DeliveryOutcome::InjectionFailed(e, Some(copy)) => {
                let feedback = fallback_delivery_feedback(e, copy);
                self.status = String::from_str(feedback.status);
                record_nonfatal_error(&mut self.last_error, feedback.error.as_str());
            },
            DeliveryOutcome::InjectionFailed(e, None) => {
                self.status = String::from_str(STATUS_INJECTION_FAILED);
                record_nonfatal_error(&mut self.last_error, e.to_text().as_str());
            },
            DeliveryOutcome::Copied { without_target, delivery, result } => {
                let copied = result.is_ok();
                self.status = String::from_str(copy_outcome_status(without_target, copied, delivery));
                match result {
                    Ok(()) => {},
                    Err(e) => record_nonfatal_error(&mut self.last_error, e.to_text().as_str()),
                }
            },
        }
    }

    /// Where pasting the last text again goes: nowhere when there is no
    /// text, else the window of the last transcript (or none, then it is
    /// copied).
    pub fn repaste_target(&self) -> (r: Option<Option<WindowTarget>>)
        ensures
            self.last_text@.len() == 0 ==> r is None,
            self.last_text@.len() != 0 ==> r == Some(self.targets.last_text_spec()),
    {
        if chars_of(self.last_text.as_str()).len() == 0 {
            None
        } else {
            Some(self.targets.last_text())
        }
    }

    /// Pasting the last text again ended: the status says what happened and
    /// a failure replaces the shown error.
    pub fn repasted(&mut self, outcome: RepasteOutcome)
        ensures
            match outcome {
                RepasteOutcome::Injected => final(self).status@ == STATUS_REPASTED@ && final(self).last_error
                    == old(self).last_error,
                RepasteOutcome::InjectionFailed(e, copy) => final(self).status@ == fallback_status_text(copy is Ok)
                    && (final(self).last_error matches Some(m) && m@ == fallback_error_text(e, copy)),
                RepasteOutcome::Copied(result) => final(self).status@ == repaste_copy_text(result is Ok)
                    && match result {
                    Ok(()) => final(self).last_error == old(self).last_error,
                    Err(e) => final(self).last_error matches Some(m) && m@ == error_text(e),
                },
            },
            final(self).recording_started == old(self).recording_started,
            same_jobs(*old(self), *final(self)),
            same_realtime(*old(self), *final(self)),
            same_targets(*old(self), *final(self)),
            same_texts(*old(self), *final(self)),
    {
        match outcome {
            RepasteOutcome::Injected => {
                self.status = String::from_str(STATUS_REPASTED);
            },
            RepasteOutcome::InjectionFailed(e, copy) => {
                let feedback = fallback_delivery_feedback(e, copy);
                self.status = String::from_str(feedback.status);
                self.last_error = Some(feedback.error);
            },
            RepasteOutcome::Copied(result) => {
                self.status = String::from_str(repaste_copy_status(result.is_ok()));
                match result {
                    Ok(()) => {},
                    Err(e) => {
                        self.last_error = Some(e.to_text());
                    },
                }
            },
        }
    }

    /// The copy button's copy ended.
    pub fn copied_by_button(&mut self, result: AppResult<()>)
        ensures
            final(self).status@ == copy_button_text(result is Ok),
            match result {
                Ok(()) => final(self).last_error == old(self).last_error,
                Err(e) => final(self).last_error matches Some(m) && m@ == error_text(e),
            },
            final(self).recording_started == old(self).recording_started,
            same_jobs(*old(self), *final(self)),
            same_realtime(*old(self), *final(self)),
            same_targets(*old(self), *final(self)),
            same_texts(*old(self), *final(self)),
    {
        self.status = String::from_str(copy_button_status(result.is_ok()));
        match result {
            Ok(()) => {},
            Err(e) => {
                self.last_error = Some(e.to_text());
            },
        }
    }

    /// Saving settings is refused while the settings file could not be
    /// read at start (see `settings_blocked_error`).
    pub fn settings_save_blocked(&self) -> (r: Option<AppError>)
        ensures
            match self.config_load_error {
                None => r is None,
                Some(e) => r matches Some(AppError::Configuration(m)) && m@
                    == "原設定檔載入失敗，為避免覆蓋已禁止儲存；請修正設定檔並重新啟動。"@ + e@,
            },
    {
        match &self.config_load_error {
            None => None,
            Some(e) => Some(settings_blocked_error(e.as_str())),
        }
    }

    /// The settings were saved, or saving failed.
    pub fn settings_saved(&mut self, result: AppResult<()>)
        ensures
            match result {
                Ok(()) => final(self).hotkey_error is None && final(self).status@ == STATUS_SETTINGS_SAVED@
                    && final(self).last_error == old(self).last_error && final(self).busy == old(self).busy,
                Err(e) => failed_with(*final(self), e) && final(self).hotkey_error == old(self).hotkey_error,
            },
            final(self).active_job == old(self).active_job,
            final(self).next_job_id == old(self).next_job_id,
            final(self).recording_started == old(self).recording_started,
            same_realtime(*old(self), *final(self)),
            same_targets(*old(self), *final(self)),
            final(self).last_text == old(self).last_text,
            final(self).config_load_error == old(self).config_load_error,
    {
        match result {
            Ok(()) => {
                self.hotkey_error = None;
                self.status = String::from_str(STATUS_SETTINGS_SAVED);
            },
            Err(e) => self.fail(e),
        }
    }
}

} // verus!
