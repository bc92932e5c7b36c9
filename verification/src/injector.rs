//! Which window a transcript is pasted into, and the order in which the
//! paste is carried out.
use vstd::prelude::*;
use crate::chars::{chars_of, trim, trim_chars};
use crate::error::{AppError, AppResult};

verus! {

/// A window handle (`HWND`) held by value; nothing else about the window is kept.
#[derive(Debug, Clone, Copy, PartialEq, Eq, Structural)]
pub struct WindowTarget(pub isize);

impl WindowTarget {
    pub fn from_raw_for_test(value: isize) -> (t: WindowTarget)
        ensures
            t == WindowTarget(value),
    {
        WindowTarget(value)
    }

    pub fn hwnd(self) -> (h: isize)
        ensures
            h == self.0,
    {
        self.0
    }
}

/// A foreground window is a paste target only when it exists and belongs to
/// another process than this one.
pub open spec fn external_target_spec(hwnd: isize, owner_process_id: u32, current_process_id: u32) -> Option<WindowTarget> {
    if hwnd == 0 || owner_process_id == 0 || owner_process_id == current_process_id {
        None
    } else {
        Some(WindowTarget(hwnd))
    }
}

pub fn external_target_for(hwnd: isize, owner_process_id: u32, current_process_id: u32) -> (r: Option<WindowTarget>)
    ensures
        r == external_target_spec(hwnd, owner_process_id, current_process_id),
{
    if hwnd == 0 || owner_process_id == 0 || owner_process_id == current_process_id {
        None
    } else {
        Some(WindowTarget(hwnd))
    }
}

/// The window in the foreground is still the one that was saved.
pub fn is_expected_foreground(target: WindowTarget, actual: isize) -> (b: bool)
    ensures
        b == (actual != 0 && actual == target.0),
{
    actual != 0 && actual == target.0
}


/// The saved window no longer exists.
pub const WINDOW_GONE_MESSAGE: &'static str = "原本的焦點視窗已不存在，辨識文字仍可手動複製";

/// The saved window now belongs to this program or is no longer valid.
pub const WINDOW_NOT_EXTERNAL_MESSAGE: &'static str = "目標視窗目前屬於 SpeakType 或已失效，為避免自動貼回程式本身已取消 Ctrl+V";

/// The system refused to bring the saved window to the front.
pub const FOCUS_REFUSED_MESSAGE: &'static str = "Windows 拒絕切換回原本的焦點視窗，辨識文字仍可手動複製";

/// Another window took the focus before the paste.
pub const FOCUS_LEFT_MESSAGE: &'static str = "焦點在貼上前已離開原本視窗，為避免錯貼已取消 Ctrl+V；辨識文字仍可手動複製";

/// How long to wait, in milliseconds, after bringing the window to the front.
pub const FOCUS_SETTLE_MS: u64 = 90;

/// How long to wait, in milliseconds, after the paste keystroke.
pub const PASTE_SETTLE_MS: u64 = 120;

/// The next piece of outside work of an injection.
pub enum InjectAction {
    /// Ask whether the window still exists.
    CheckWindow(isize),
    /// Ask which process owns the window, and which process this is.
    QueryOwner(isize),
    /// Bring the window to the front.
    BringToFront(isize),
    /// Wait this many milliseconds, then read the foreground window.
    ReadForegroundAfter(u64),
    /// Open the clipboard.
    OpenClipboard,
    /// Read the text on the clipboard, to put it back afterwards.
    ReadClipboard,
    /// Put this text on the clipboard.
    WriteClipboard(String),
    /// Press Ctrl+V, then wait this many milliseconds.
    PasteAndWait(u64),
    /// The injection is over, with this outcome.
    Finish(AppResult<()>),
}

/// What the outside work answered.
pub enum InjectEvent {
    WindowExists(bool),
    /// The owner process of the window, and the current process.
    Owner(u32, u32),
    /// Whether the system brought the window to the front.
    FocusAccepted(bool),
    /// The window in the foreground (0 when there is none).
    Foreground(isize),
    ClipboardOpened(Result<(), String>),
    /// The text that was on the clipboard, if any could be read.
    ClipboardText(Option<String>),
    ClipboardWritten(Result<(), String>),
    Pasted,
}

pub enum InjectPhase {
    CheckingWindow,
    CheckingOwner,
    Focusing,
    ConfirmingForeground,
    OpeningClipboard,
    ReadingClipboard,
    WritingText,
    Pasting,
    RestoringClipboard,
    Finished,
}

/// An injection in progress: the window is checked and focused first, then
/// the text goes through the clipboard and Ctrl+V, and the earlier
/// clipboard text is put back when asked for.
pub struct Injection {
    pub phase: InjectPhase,
    pub target: Option<WindowTarget>,
    pub text: String,
    pub restore_clipboard: bool,
    pub previous: Option<String>,
}

/// Which answer each phase waits for.
pub open spec fn accepts_spec(phase: InjectPhase, event: InjectEvent) -> bool {
    match phase {
        InjectPhase::CheckingWindow => event is WindowExists,
        InjectPhase::CheckingOwner => event is Owner,
        InjectPhase::Focusing => event is FocusAccepted,
        InjectPhase::ConfirmingForeground => event is Foreground,
        InjectPhase::OpeningClipboard => event is ClipboardOpened,
        InjectPhase::ReadingClipboard => event is ClipboardText,
        InjectPhase::WritingText => event is ClipboardWritten,
        InjectPhase::Pasting => event is Pasted,
        InjectPhase::RestoringClipboard => event is ClipboardWritten,
        InjectPhase::Finished => false,
    }
}

/// The injection ended with this injection error message.
pub open spec fn fails_with(r: (Injection, InjectAction), m: Seq<char>) -> bool {
    &&& r.0.phase is Finished
    &&& r.1 matches InjectAction::Finish(Err(AppError::Injection(e))) && e@ == m
}

/// The injection ended successfully.
pub open spec fn succeeds(r: (Injection, InjectAction)) -> bool {
    r.0.phase is Finished && r.1 matches InjectAction::Finish(Ok(()))
}

/// The next step is `phase` with action `action`, for the same job.
pub open spec fn moves_to(old: Injection, r: (Injection, InjectAction), phase: InjectPhase, action: InjectAction) -> bool {
    &&& r.0.phase == phase
    &&& r.1 == action
    &&& r.0.target == old.target
    &&& r.0.restore_clipboard == old.restore_clipboard
    &&& r.0.text == old.text
    &&& r.0.previous == old.previous
}

impl Injection {
    /// The handle of the saved window.
    pub open spec fn target_hwnd(&self) -> isize {
        match self.target {
            Some(t) => t.0,
            None => 0,
        }
    }

    /// The phases that check the window keep the window they check.
    pub open spec fn wf(&self) -> bool {
        (self.phase is CheckingWindow || self.phase is CheckingOwner || self.phase is Focusing
            || self.phase is ConfirmingForeground) ==> self.target is Some
    }

    fn next(self, phase: InjectPhase, action: InjectAction) -> (r: (Injection, InjectAction))
        ensures
            moves_to(self, r, phase, action),
    {
        (Injection { phase, ..self }, action)
    }

    fn fail(self, message: String) -> (r: (Injection, InjectAction))
        ensures
            fails_with(r, message@),
            r.0.target == self.target,
            r.0.text == self.text,
            r.0.restore_clipboard == self.restore_clipboard,
            r.0.previous == self.previous,
    {
        (Injection { phase: InjectPhase::Finished, ..self }, InjectAction::Finish(Err(AppError::Injection(message))))
    }

    fn done(self) -> (r: (Injection, InjectAction))
        ensures
            succeeds(r),
            r.0.target == self.target,
            r.0.text == self.text,
            r.0.restore_clipboard == self.restore_clipboard,
            r.0.previous == self.previous,
    {
        (Injection { phase: InjectPhase::Finished, ..self }, InjectAction::Finish(Ok(())))
    }

    /// Starts injecting `text` into `target` (or into whatever window has
    /// the focus, when none was saved). Blank text is not injected at all.
    pub fn start(target: Option<WindowTarget>, text: &str, restore_clipboard: bool) -> (r: (Injection, InjectAction))
        ensures
            r.0.wf(),
            r.0.target == target,
            r.0.text@ == text@,
            r.0.restore_clipboard == restore_clipboard,
            r.0.previous is None,
            trim(text@).len() == 0 ==> succeeds(r),
            trim(text@).len() != 0 ==> match target {
                Some(t) => r.0.phase is CheckingWindow && r.1 == InjectAction::CheckWindow(t.0),
                None => r.0.phase is OpeningClipboard && r.1 is OpenClipboard,
            },
    {
        let c = chars_of(text);
        let t = trim_chars(c.as_slice());
        let job = Injection {
            phase: InjectPhase::Finished,
            target,
            text: String::from_str(text),
            restore_clipboard,
            previous: None,
        };
        if t.len() == 0 {
            return job.done();
        }
        match target {
            Some(w) => job.next(InjectPhase::CheckingWindow, InjectAction::CheckWindow(w.0)),
            None => job.next(InjectPhase::OpeningClipboard, InjectAction::OpenClipboard),
        }
    }

    /// Whether `event` is the answer that the injection waits for.
    pub fn accepts(&self, event: &InjectEvent) -> (b: bool)
        ensures
            b == accepts_spec(self.phase, *event),
    {
        match self.phase {
            InjectPhase::CheckingWindow => matches!(event, InjectEvent::WindowExists(_)),
            InjectPhase::CheckingOwner => matches!(event, InjectEvent::Owner(_, _)),
            InjectPhase::Focusing => matches!(event, InjectEvent::FocusAccepted(_)),
            InjectPhase::ConfirmingForeground => matches!(event, InjectEvent::Foreground(_)),
            InjectPhase::OpeningClipboard => matches!(event, InjectEvent::ClipboardOpened(_)),
            InjectPhase::ReadingClipboard => matches!(event, InjectEvent::ClipboardText(_)),
            InjectPhase::WritingText => matches!(event, InjectEvent::ClipboardWritten(_)),
            InjectPhase::Pasting => matches!(event, InjectEvent::Pasted),
            InjectPhase::RestoringClipboard => matches!(event, InjectEvent::ClipboardWritten(_)),
            InjectPhase::Finished => false,
        }
    }

    /// The answer to the last action moves the injection on. The window
    /// must still exist, belong to another process, accept the focus and
    /// still be in the foreground after the wait; only then is the text put
    /// on the clipboard and pasted.
    pub fn step(self, event: InjectEvent) -> (r: (Injection, InjectAction))
        requires
            self.wf(),
            accepts_spec(self.phase, event),
        ensures
            r.0.wf(),
            match event {
                InjectEvent::WindowExists(exists) => if exists {
                    moves_to(self, r, InjectPhase::CheckingOwner, InjectAction::QueryOwner(self.target_hwnd()))
                } else {
                    fails_with(r, WINDOW_GONE_MESSAGE@)
                },
                InjectEvent::Owner(owner, current) => if external_target_spec(self.target_hwnd(), owner, current)
                    == self.target {
                    moves_to(self, r, InjectPhase::Focusing, InjectAction::BringToFront(self.target_hwnd()))
                } else {
                    fails_with(r, WINDOW_NOT_EXTERNAL_MESSAGE@)
                },
                InjectEvent::FocusAccepted(accepted) => if accepted {
                    moves_to(
                        self,
                        r,
                        InjectPhase::ConfirmingForeground,
                        InjectAction::ReadForegroundAfter(FOCUS_SETTLE_MS),
                    )
                } else {
                    fails_with(r, FOCUS_REFUSED_MESSAGE@)
                },
                InjectEvent::Foreground(actual) => if actual != 0 && actual == self.target_hwnd() {
                    moves_to(self, r, InjectPhase::OpeningClipboard, InjectAction::OpenClipboard)
                } else {
                    fails_with(r, FOCUS_LEFT_MESSAGE@)
                },
                InjectEvent::ClipboardOpened(opened) => match opened {
                    Err(e) => fails_with(r, e@),
                    Ok(()) => if self.restore_clipboard {
                        moves_to(self, r, InjectPhase::ReadingClipboard, InjectAction::ReadClipboard)
                    } else {
                        moves_to(self, r, InjectPhase::WritingText, InjectAction::WriteClipboard(self.text))
                    },
                },
                InjectEvent::ClipboardText(previous) => {
                    &&& r.0.phase is WritingText
                    &&& r.1 == InjectAction::WriteClipboard(self.text)
                    &&& r.0.previous == previous
                    &&& r.0.target == self.target
                    &&& r.0.text == self.text
                    &&& r.0.restore_clipboard == self.restore_clipboard
                },
                InjectEvent::ClipboardWritten(written) => match written {
                    Err(e) => fails_with(r, e@),
                    Ok(()) => if self.phase is WritingText {
                        moves_to(self, r, InjectPhase::Pasting, InjectAction::PasteAndWait(PASTE_SETTLE_MS))
                    } else {
                        succeeds(r)
                    },
                },
                InjectEvent::Pasted => match self.previous {
                    Some(p) => moves_to(self, r, InjectPhase::RestoringClipboard, InjectAction::WriteClipboard(p)),
                    None => succeeds(r),
                },
            },
    {
        match event {
            InjectEvent::WindowExists(exists) => {
                let hwnd = match self.target {
                    Some(t) => t.0,
                    None => 0,
                };
                if exists {
                    self.next(InjectPhase::CheckingOwner, InjectAction::QueryOwner(hwnd))
                } else {
                    self.fail(String::from_str(WINDOW_GONE_MESSAGE))
                }
            },
            InjectEvent::Owner(owner, current) => {
                let hwnd = match self.target {
                    Some(t) => t.0,
                    None => 0,
                };
                let still = external_target_for(hwnd, owner, current);
                let same = match (still, self.target) {
                    (Some(a), Some(b)) => a.0 == b.0,
                    _ => false,
                };
                if same {
                    self.next(InjectPhase::Focusing, InjectAction::BringToFront(hwnd))
                } else {
                    self.fail(String::from_str(WINDOW_NOT_EXTERNAL_MESSAGE))
                }
            },
            InjectEvent::FocusAccepted(accepted) => {
                if accepted {
                    self.next(InjectPhase::ConfirmingForeground, InjectAction::ReadForegroundAfter(FOCUS_SETTLE_MS))
                } else {
                    self.fail(String::from_str(FOCUS_REFUSED_MESSAGE))
                }
            },
            InjectEvent::Foreground(actual) => {
                let expected = match self.target {
                    Some(t) => is_expected_foreground(t, actual),
                    None => false,
                };
                if expected {
                    self.next(InjectPhase::OpeningClipboard, InjectAction::OpenClipboard)
                } else {
                    self.fail(String::from_str(FOCUS_LEFT_MESSAGE))
                }
            },
            InjectEvent::ClipboardOpened(opened) => match opened {
                Err(e) => self.fail(e),
                Ok(()) => {
                    if self.restore_clipboard {
                        self.next(InjectPhase::ReadingClipboard, InjectAction::ReadClipboard)
                    } else {
                        let text = self.text.clone();
                        self.next(InjectPhase::WritingText, InjectAction::WriteClipboard(text))
                    }
                },
            },
            InjectEvent::ClipboardText(previous) => {
                let text = self.text.clone();
                (
                    Injection { phase: InjectPhase::WritingText, previous, ..self },
                    InjectAction::WriteClipboard(text),
                )
            },
            InjectEvent::ClipboardWritten(written) => match written {
                Err(e) => self.fail(e),
                Ok(()) => {
                    if matches!(self.phase, InjectPhase::WritingText) {
                        self.next(InjectPhase::Pasting, InjectAction::PasteAndWait(PASTE_SETTLE_MS))
                    } else {
                        self.done()
                    }
                },
            },
            InjectEvent::Pasted => {
                match &self.previous {
                    Some(p) => {
                        let p = p.clone();
                        self.next(InjectPhase::RestoringClipboard, InjectAction::WriteClipboard(p))
                    },
                    None => self.done(),
                }
            },
        }
    }
}

} // verus!
