//! Window shell decisions: closing to the tray, tray events, the three
//! confirmed steps of an update, and how the main window is found, hidden
//! from the taskbar and put back.
use vstd::prelude::*;
use vstd::string::StringExecFns;
use crate::chars::{chars_of, push_str, string_from_chars, trim, trim_chars};
use crate::config::{env_name_ok, is_environment_variable_name, AppConfig, ProviderKind};
use crate::theme::colors::{GREEN_SUCCESS, TEXT_SECONDARY};
use crate::error::{error_text, AppResult};
use crate::updater::{StagedUpdate, UpdateManifest};

verus! {

#[derive(Debug, Clone, Copy, PartialEq, Eq, Structural)]
pub enum CloseDecision {
    Hide,
    Exit,
}

/// Closing the window hides it to the tray, unless there is no tray or the
/// user asked to exit.
pub fn close_decision(tray_available: bool, exit_requested: bool) -> (d: CloseDecision)
    ensures
        d == (if tray_available && !exit_requested {
            CloseDecision::Hide
        } else {
            CloseDecision::Exit
        }),
{
    if tray_available && !exit_requested {
        CloseDecision::Hide
    } else {
        CloseDecision::Exit
    }
}

/// The event loop keeps a backup repaint while hidden or while an exit is pending.
pub fn should_backup_repaint(window_hidden: bool, exit_requested: bool) -> (b: bool)
    ensures
        b == (window_hidden || exit_requested),
{
    window_hidden || exit_requested
}

/// A later warning is added on a new line.
pub fn append_warning(current: &mut Option<String>, warning: &str)
    ensures
        match *old(current) {
            Some(c) => *final(current) matches Some(n) && n@ == c@ + "\n"@ + warning@,
            None => *final(current) matches Some(n) && n@ == warning@,
        },
{
    crate::app::record_nonfatal_error(current, warning);
}

#[derive(Debug, Clone, Copy, PartialEq, Eq, Structural)]
pub enum TrayAction {
    Show,
    Exit,
}

/// A burst of tray events collapses to one action: `Exit` if any event is
/// `Exit`, else the last event, else none.
pub open spec fn drained_action(actions: Seq<TrayAction>) -> Option<TrayAction> {
    if actions.contains(TrayAction::Exit) {
        Some(TrayAction::Exit)
    } else if actions.len() > 0 {
        Some(actions.last())
    } else {
        None
    }
}

pub fn drain_tray_actions(actions: &[TrayAction]) -> (r: Option<TrayAction>)
    ensures
        r == drained_action(actions@),
{
    let mut action: Option<TrayAction> = None;
    let mut i: usize = 0;
    while i < actions.len()
        invariant
            i <= actions@.len(),
            forall|k: int| 0 <= k < i ==> actions@[k] != TrayAction::Exit,
            action == if i == 0 {
                None
            } else {
                Some(actions@[i - 1])
            },
        decreases actions@.len() - i,
    {
        let next = actions[i];
        if next == TrayAction::Exit {
            proof {
                assert(actions@.contains(TrayAction::Exit));
            }
            return Some(TrayAction::Exit);
        }
        action = Some(next);
        i += 1;
    }
    action
}

/// An `Exit` among the tray events always wins.
pub proof fn lemma_exit_wins(actions: Seq<TrayAction>, i: int)
    requires
        0 <= i < actions.len(),
        actions[i] == TrayAction::Exit,
    ensures
        drained_action(actions) == Some(TrayAction::Exit),
{
    assert(actions.contains(TrayAction::Exit));
}

#[derive(Debug, Clone, Copy, PartialEq, Eq, Structural)]
pub enum ProviderKey {
    OpenAi,
    Xai,
    OpenRouter,
}

#[derive(Debug, Clone, Copy, PartialEq, Eq, Structural)]
pub enum KeyAction {
    Save(ProviderKey),
    Clear(ProviderKey),
}

pub enum UpdateState {
    Disabled(String),
    Idle,
    Checking,
    UpToDate,
    Available(UpdateManifest),
    Staging(UpdateManifest),
    Staged(StagedUpdate),
    Launched,
    Error(String),
}

#[derive(Clone, Copy, PartialEq, Eq, Structural)]
pub enum UpdateActionKind {
    Check,
    Stage,
    Launch,
}

/// Checking is allowed when idle, up to date or after an error; staging
/// only when an update is available; launching only once it is staged.
pub open spec fn update_allowed(state: UpdateState, action: UpdateActionKind) -> bool {
    match action {
        UpdateActionKind::Check => state is Idle || state is UpToDate || state is Error,
        UpdateActionKind::Stage => state is Available,
        UpdateActionKind::Launch => state is Staged,
    }
}

pub fn update_action_allowed(state: &UpdateState, action: UpdateActionKind) -> (b: bool)
    ensures
        b == update_allowed(*state, action),
{
    match action {
        UpdateActionKind::Check => matches!(state, UpdateState::Idle | UpdateState::UpToDate | UpdateState::Error(_)),
        UpdateActionKind::Stage => matches!(state, UpdateState::Available(_)),
        UpdateActionKind::Launch => matches!(state, UpdateState::Staged(_)),
    }
}

/// No state allows two of the three update steps at once, so each one
/// needs its own confirmation, in order.
pub proof fn lemma_update_steps_are_exclusive(state: UpdateState)
    ensures
        !(update_allowed(state, UpdateActionKind::Check) && update_allowed(state, UpdateActionKind::Stage)),
        !(update_allowed(state, UpdateActionKind::Stage) && update_allowed(state, UpdateActionKind::Launch)),
        !(update_allowed(state, UpdateActionKind::Check) && update_allowed(state, UpdateActionKind::Launch)),
{
}

/// The provider a key action is about.
pub open spec fn key_provider(action: KeyAction) -> ProviderKey {
    match action {
        KeyAction::Save(p) => p,
        KeyAction::Clear(p) => p,
    }
}

pub open spec fn key_provider_name(p: ProviderKey) -> Seq<char> {
    match p {
        ProviderKey::OpenAi => "OpenAI"@,
        ProviderKey::Xai => "xAI"@,
        ProviderKey::OpenRouter => "OpenRouter"@,
    }
}

pub open spec fn key_env_name(p: ProviderKey, config: AppConfig) -> Seq<char> {
    match p {
        ProviderKey::OpenAi => config.openai.api_key_env@,
        ProviderKey::Xai => config.xai.api_key_env@,
        ProviderKey::OpenRouter => config.openrouter.api_key_env@,
    }
}

/// What a key action asks of the credential store: the variable it is kept
/// under, and the trimmed key to save (none, for clearing).
pub struct KeyRequest {
    pub provider_name: &'static str,
    pub env_name: String,
    pub key: Option<String>,
}

/// The feedback shown after a key action.
pub struct KeyMessage {
    pub success: bool,
    pub text: String,
}

/// Decides a key action: the provider's variable name from the settings
/// must be a valid name before the credential store is touched; a saved
/// key is the edited text, trimmed.
pub fn key_action_request(action: KeyAction, config: &AppConfig, key_edit: &str) -> (r: Result<KeyRequest, KeyMessage>)
    ensures
        env_name_ok(key_env_name(key_provider(action), *config)) ==> (r matches Ok(req)
            && req.provider_name@ == key_provider_name(key_provider(action))
            && req.env_name@ == key_env_name(key_provider(action), *config)
            && match action {
                KeyAction::Save(_) => req.key matches Some(k) && k@ == trim(key_edit@),
                KeyAction::Clear(_) => req.key is None,
            }),
        !env_name_ok(key_env_name(key_provider(action), *config)) ==> (r matches Err(m) && !m.success
            && m.text@ == key_provider_name(key_provider(action)) + " 環境變數名稱「"@ + key_env_name(
                key_provider(action),
                *config,
            ) + "」不合法，必須以字母或底線開頭且僅含字母、數字與底線。請修正後點擊下方「儲存設定」。"@),
{
    let (provider, save) = match action {
        KeyAction::Save(p) => (p, true),
        KeyAction::Clear(p) => (p, false),
    };
    let (name, env): (&'static str, &String) = match provider {
        ProviderKey::OpenAi => ("OpenAI", &config.openai.api_key_env),
        ProviderKey::Xai => ("xAI", &config.xai.api_key_env),
        ProviderKey::OpenRouter => ("OpenRouter", &config.openrouter.api_key_env),
    };
    if !is_environment_variable_name(env.as_str()) {
        let mut m = chars_of(name);
        push_str(&mut m, " 環境變數名稱「");
        push_str(&mut m, env.as_str());
        push_str(&mut m, "」不合法，必須以字母或底線開頭且僅含字母、數字與底線。請修正後點擊下方「儲存設定」。");
        return Err(KeyMessage { success: false, text: string_from_chars(m.as_slice()) });
    }
    let key = if save {
        let t = trim_chars(chars_of(key_edit).as_slice());
        Some(string_from_chars(t.as_slice()))
    } else {
        None
    };
    Ok(KeyRequest { provider_name: name, env_name: String::from_str(env.as_str()), key })
}

/// The feedback after the credential store answered a key action.
pub fn key_action_message(action: KeyAction, provider_name: &str, result: AppResult<()>) -> (m: KeyMessage)
    ensures
        match result {
            Ok(()) => m.success && m.text@ == provider_name@ + " API Key "@ + (match action {
                KeyAction::Save(_) => "已儲存"@,
                KeyAction::Clear(_) => "已清除"@,
            }) + "。"@,
            Err(e) => !m.success && m.text@ == error_text(e),
        },
{
    match result {
        Ok(()) => {
            let mut t = chars_of(provider_name);
            push_str(&mut t, " API Key ");
            push_str(&mut t, match action {
                KeyAction::Save(_) => "已儲存",
                KeyAction::Clear(_) => "已清除",
            });
            push_str(&mut t, "。");
            KeyMessage { success: true, text: string_from_chars(t.as_slice()) }
        },
        Err(e) => KeyMessage { success: false, text: e.to_text() },
    }
}


// ---------------------------------------------------------------------------
// The main window: finding it, its taskbar style, its saved place, its icon
// ---------------------------------------------------------------------------

/// The title of the main window.
pub const MAIN_WINDOW_TITLE: &'static str = "SpeakType Cloud";

/// The UTF-16 units `title` spell `text`, one unit per character (as they do
/// for a title written in ASCII).
pub open spec fn spells(title: Seq<u16>, text: Seq<char>) -> bool {
    title.len() == text.len() && forall|i: int| 0 <= i < title.len() ==> title[i] as u32 == text[i] as u32
}

/// A top-level window is the main window when this process owns it, it is
/// visible, and its title is the product name.
pub fn is_main_window(owner_process_id: u32, current_process_id: u32, visible: bool, title: &[u16]) -> (b: bool)
    ensures
        b == (owner_process_id == current_process_id && visible && spells(title@, MAIN_WINDOW_TITLE@)),
{
    if owner_process_id != current_process_id || !visible {
        return false;
    }
    let expected = chars_of(MAIN_WINDOW_TITLE);
    if title.len() != expected.len() {
        return false;
    }
    let mut i: usize = 0;
    while i < title.len()
        invariant
            i <= title@.len(),
            title@.len() == expected@.len(),
            expected@ == MAIN_WINDOW_TITLE@,
            forall|j: int| 0 <= j < i ==> title@[j] as u32 == expected@[j] as u32,
        decreases title@.len() - i,
    {
        if title[i] as u32 != expected[i] as u32 {
            return false;
        }
        i += 1;
    }
    true
}

/// `WS_EX_TOOLWINDOW`: no taskbar button.
pub const WS_EX_TOOLWINDOW: isize = 0x80;

/// `WS_EX_APPWINDOW`: a taskbar button.
pub const WS_EX_APPWINDOW: isize = 0x40000;

/// The extended style bits other than the two taskbar bits.
pub open spec fn other_style_bits(style: isize) -> isize {
    style & !(WS_EX_TOOLWINDOW | WS_EX_APPWINDOW)
}

/// `style` with the app window bit cleared and the tool window bit set.
pub open spec fn hide_style(style: isize) -> isize {
    (style & !WS_EX_APPWINDOW) | WS_EX_TOOLWINDOW
}

/// `style` with the tool window bit cleared and the app window bit set.
pub open spec fn show_style(style: isize) -> isize {
    (style & !WS_EX_TOOLWINDOW) | WS_EX_APPWINDOW
}

/// The extended style that takes the window off the taskbar: the tool
/// window bit set, the app window bit cleared, every other bit kept.
pub fn hidden_ext_style(style: isize) -> (r: isize)
    ensures
        r == hide_style(style),
        r & WS_EX_TOOLWINDOW == WS_EX_TOOLWINDOW,
        r & WS_EX_APPWINDOW == 0,
        other_style_bits(r) == other_style_bits(style),
{
    let r = (style & !WS_EX_APPWINDOW) | WS_EX_TOOLWINDOW;
    assert(r & 0x80isize == 0x80isize && r & 0x40000isize == 0 && r & !(0x80isize | 0x40000isize) == style
        & !(0x80isize | 0x40000isize)) by (bit_vector)
        requires
            r == (style & !0x40000isize) | 0x80isize,
    ;
    r
}

/// The extended style that puts the taskbar button back: the app window
/// bit set, the tool window bit cleared, every other bit kept.
pub fn shown_ext_style(style: isize) -> (r: isize)
    ensures
        r == show_style(style),
        r & WS_EX_APPWINDOW == WS_EX_APPWINDOW,
        r & WS_EX_TOOLWINDOW == 0,
        other_style_bits(r) == other_style_bits(style),
{
    let r = (style & !WS_EX_TOOLWINDOW) | WS_EX_APPWINDOW;
    assert(r & 0x40000isize == 0x40000isize && r & 0x80isize == 0 && r & !(0x80isize | 0x40000isize) == style
        & !(0x80isize | 0x40000isize)) by (bit_vector)
        requires
            r == (style & !0x80isize) | 0x40000isize,
    ;
    r
}

/// Taking the window off the taskbar, or putting it back, may be done any
/// number of times: doing it twice is the same as doing it once.
pub proof fn lemma_taskbar_styles_are_idempotent(style: isize)
    ensures
        hide_style(hide_style(style)) == hide_style(style),
        show_style(show_style(style)) == show_style(style),
{
    assert(((((style & !0x40000isize) | 0x80isize) & !0x40000isize) | 0x80isize) == ((style & !0x40000isize)
        | 0x80isize)) by (bit_vector);
    assert(((((style & !0x80isize) | 0x40000isize) & !0x80isize) | 0x40000isize) == ((style & !0x80isize)
        | 0x40000isize)) by (bit_vector);
}

/// Putting back a window that was on the taskbar (app window bit set, tool
/// window bit clear) after taking it off gives back the style it had.
pub proof fn lemma_show_undoes_hide(style: isize)
    requires
        style & WS_EX_APPWINDOW == WS_EX_APPWINDOW,
        style & WS_EX_TOOLWINDOW == 0,
    ensures
        show_style(hide_style(style)) == style,
{
    assert(((((style & !0x40000isize) | 0x80isize) & !0x80isize) | 0x40000isize) == style) by (bit_vector)
        requires
            style & 0x40000isize == 0x40000isize,
            style & 0x80isize == 0,
    ;
}

/// Where the main window stood before it was moved off screen.
#[derive(Debug, Clone, Copy, PartialEq, Eq, Structural)]
pub struct SavedRect {
    pub x: i32,
    pub y: i32,
    pub width: i32,
    pub height: i32,
}

/// The place of a window rectangle given by its edges.
pub open spec fn rect_of(left: i32, top: i32, right: i32, bottom: i32) -> SavedRect {
    SavedRect { x: left, y: top, width: (right - left) as i32, height: (bottom - top) as i32 }
}

/// What is saved after a hide: the rectangle saved earlier in the same
/// hide/show cycle, or else the rectangle just read (`window_rect`, the
/// edges left, top, right, bottom, when they could be read).
pub open spec fn remembered(saved: Option<SavedRect>, window_rect: Option<(i32, i32, i32, i32)>) -> Option<SavedRect> {
    match saved {
        Some(r) => Some(r),
        None => match window_rect {
            Some((l, t, r, b)) => Some(rect_of(l, t, r, b)),
            None => None,
        },
    }
}

/// When the window is hidden: keeps the rectangle saved earlier in the same
/// hide/show cycle, or else saves the rectangle just read.
pub fn remember_visible_rect(saved: &mut Option<SavedRect>, window_rect: Option<(i32, i32, i32, i32)>)
    requires
        window_rect matches Some((l, t, r, b)) ==> i32::MIN <= r - l <= i32::MAX && i32::MIN <= b - t
            <= i32::MAX,
    ensures
        *final(saved) == remembered(*old(saved), window_rect),
{
    if saved.is_some() {
        return;
    }
    match window_rect {
        Some((l, t, r, b)) => {
            *saved = Some(SavedRect { x: l, y: t, width: r - l, height: b - t });
        },
        None => {},
    }
}

/// Hiding again while hidden keeps the rectangle that the first hide saved.
pub proof fn lemma_repeated_hide_keeps_first_rect(
    saved: Option<SavedRect>,
    first: Option<(i32, i32, i32, i32)>,
    later: Option<(i32, i32, i32, i32)>,
)
    requires
        remembered(saved, first) is Some,
    ensures
        remembered(remembered(saved, first), later) == remembered(saved, first),
{
}

/// When the window is shown: the rectangle is used up when the window was
/// put back in place, and kept for a later try when that failed.
pub fn rect_after_restore(taken: SavedRect, restored: bool) -> (r: Option<SavedRect>)
    ensures
        restored ==> r is None,
        !restored ==> r == Some(taken),
{
    if restored {
        None
    } else {
        Some(taken)
    }
}

/// Side of the square tray icon, in pixels.
pub const TRAY_ICON_SIZE: u32 = 32;

/// The pixel lies in the round badge of the icon.
pub open spec fn in_badge(x: int, y: int) -> bool {
    (x - 16) * (x - 16) + (y - 16) * (y - 16) <= 14 * 14
}

/// The pixel lies on one of the three bars of the waveform.
pub open spec fn on_waveform(x: int, y: int) -> bool {
    (x == 12 && 9 <= y <= 23) || (x == 16 && 6 <= y <= 26) || (x == 20 && 10 <= y <= 22)
}

/// Channel `c` (red, green, blue, alpha) of the icon's pixel at (`x`, `y`):
/// a white waveform on a blue badge, transparent outside the badge.
pub open spec fn icon_channel(x: int, y: int, c: int) -> u8 {
    if !in_badge(x, y) {
        0
    } else if on_waveform(x, y) {
        255
    } else if c == 0 {
        42
    } else if c == 1 {
        110
    } else if c == 2 {
        242
    } else {
        255
    }
}

/// Byte `i` of the icon as RGBA rows, top row first.
pub open spec fn icon_byte(i: int) -> u8 {
    icon_channel((i / 4) % 32, (i / 4) / 32, i % 4)
}

fn pixel_channels(x: u32, y: u32) -> (r: [u8; 4])
    requires
        x < 32,
        y < 32,
    ensures
        forall|c: int| 0 <= c < 4 ==> r@[c] == icon_channel(x as int, y as int, c),
{
    let dx: i32 = x as i32 - 16;
    let dy: i32 = y as i32 - 16;
    assert(dx * dx <= 256 && dy * dy <= 256) by (nonlinear_arith)
        requires
            -16 <= dx <= 15,
            -16 <= dy <= 15,
    ;
    assert(dx * dx >= 0 && dy * dy >= 0) by (nonlinear_arith);
    if dx * dx + dy * dy <= 14 * 14 {
        let waveform = (x == 12 && 9 <= y && y <= 23) || (x == 16 && 6 <= y && y <= 26) || (x == 20 && 10 <= y
            && y <= 22);
        if waveform {
            [255, 255, 255, 255]
        } else {
            [42, 110, 242, 255]
        }
    } else {
        [0, 0, 0, 0]
    }
}

/// The tray icon as 32×32 RGBA pixels, row by row.
pub fn tray_icon_rgba() -> (r: Vec<u8>)
    ensures
        r@.len() == 4 * 32 * 32,
        forall|i: int| 0 <= i < r@.len() ==> r@[i] == icon_byte(i),
{
    let mut rgba: Vec<u8> = Vec::with_capacity(4096);
    let mut y: u32 = 0;
    while y < TRAY_ICON_SIZE
        invariant
            y <= 32,
            rgba@.len() == 4 * 32 * y,
            forall|i: int| 0 <= i < rgba@.len() ==> rgba@[i] == icon_byte(i),
        decreases 32 - y,
    {
        let mut x: u32 = 0;
        assert(4 * 32 * y == 4 * (32 * y + x)) by (nonlinear_arith)
            requires
                x == 0,
        ;
        while x < TRAY_ICON_SIZE
            invariant
                y < 32,
                x <= 32,
                rgba@.len() == 4 * (32 * y + x),
                forall|i: int| 0 <= i < rgba@.len() ==> rgba@[i] == icon_byte(i),
            decreases 32 - x,
        {
            let px = pixel_channels(x, y);
            let mut c: usize = 0;
            while c < 4
                invariant
                    x < 32,
                    y < 32,
                    c <= 4,
                    rgba@.len() == 4 * (32 * y + x) + c,
                    forall|i: int| 0 <= i < rgba@.len() ==> rgba@[i] == icon_byte(i),
                    forall|k: int| 0 <= k < 4 ==> px@[k] == icon_channel(x as int, y as int, k),
                decreases 4 - c,
            {
                proof {
                    let i = 4 * (32 * y + x) + c;
                    assert(i / 4 == 32 * y + x && i % 4 == c) by (nonlinear_arith)
                        requires
                            i == 4 * (32 * y + x) + c,
                            c < 4,
                            x < 32,
                            y < 32,
                    ;
                    assert((32 * y + x) % 32 == x && (32 * y + x) / 32 == y) by (nonlinear_arith)
                        requires
                            x < 32,
                            y < 32,
                    ;
                }
                rgba.push(px[c]);
                c += 1;
            }
            x += 1;
        }
        assert(4 * (32 * y + 32) == 4 * 32 * (y + 1)) by (nonlinear_arith);
        y += 1;
    }
    rgba
}


// ---------------------------------------------------------------------------
// Update worker, model list and window flags
// ---------------------------------------------------------------------------

/// What the update worker thread reports.
pub enum UpdateWorkerResult {
    Checked(Result<Option<UpdateManifest>, String>),
    Staged(Result<StagedUpdate, String>),
}

/// The update state after the worker's report: an update found is
/// available, none means up to date, a staged installer is ready, and any
/// failure is shown.
pub fn update_state_after(result: UpdateWorkerResult) -> (s: UpdateState)
    ensures
        match result {
            UpdateWorkerResult::Checked(Ok(Some(m))) => s == UpdateState::Available(m),
            UpdateWorkerResult::Checked(Ok(None)) => s is UpToDate,
            UpdateWorkerResult::Checked(Err(e)) => s == UpdateState::Error(e),
            UpdateWorkerResult::Staged(Ok(staged)) => s == UpdateState::Staged(staged),
            UpdateWorkerResult::Staged(Err(e)) => s == UpdateState::Error(e),
        },
{
    match result {
        UpdateWorkerResult::Checked(Ok(Some(manifest))) => UpdateState::Available(manifest),
        UpdateWorkerResult::Checked(Ok(None)) => UpdateState::UpToDate,
        UpdateWorkerResult::Checked(Err(error)) => UpdateState::Error(error),
        UpdateWorkerResult::Staged(Err(error)) => UpdateState::Error(error),
        UpdateWorkerResult::Staged(Ok(staged)) => UpdateState::Staged(staged),
    }
}

/// Starts a check for updates when one is allowed; `true` when the worker
/// is to be started.
pub fn begin_update_check(state: &mut UpdateState) -> (started: bool)
    ensures
        started == update_allowed(*old(state), UpdateActionKind::Check),
        started ==> *final(state) is Checking,
        !started ==> *final(state) == *old(state),
{
    if !update_action_allowed(state, UpdateActionKind::Check) {
        return false;
    }
    *state = UpdateState::Checking;
    true
}

/// Starts downloading the installer of `manifest` when that is allowed;
/// `true` when the worker is to be started.
pub fn begin_update_stage(state: &mut UpdateState, manifest: UpdateManifest) -> (started: bool)
    ensures
        started == update_allowed(*old(state), UpdateActionKind::Stage),
        started ==> *final(state) == UpdateState::Staging(manifest),
        !started ==> *final(state) == *old(state),
{
    if !update_action_allowed(state, UpdateActionKind::Stage) {
        return false;
    }
    *state = UpdateState::Staging(manifest);
    true
}

/// A check that found an update lets the user stage it, and a staged
/// installer lets the user launch it; a failed step lets the user check again.
pub proof fn lemma_update_flow_moves_forward(m: UpdateManifest, staged: StagedUpdate, e: String)
    ensures
        update_allowed(UpdateState::Available(m), UpdateActionKind::Stage),
        update_allowed(UpdateState::Staged(staged), UpdateActionKind::Launch),
        update_allowed(UpdateState::Error(e), UpdateActionKind::Check),
        !update_allowed(UpdateState::Checking, UpdateActionKind::Check),
        !update_allowed(UpdateState::Staging(m), UpdateActionKind::Stage),
{
}

/// What the model list worker reports.
pub enum ModelsFetchResult {
    OpenAi(Vec<String>),
    OpenRouter(Vec<String>),
    Error(String),
}

/// Where the model list of a provider is fetched from, and with which key.
pub struct ModelSource {
    pub provider: ProviderKey,
    pub env_name: String,
    pub base_url: String,
}

/// The model lists offered in the settings, and the state of their fetch.
pub struct ModelCatalog {
    pub loading: bool,
    pub openai_models: Vec<String>,
    pub openrouter_models: Vec<String>,
    pub error: Option<String>,
}

/// The message shown when the key of a provider is not set.
pub open spec fn missing_key_text(env_name: Seq<char>) -> Seq<char> {
    "找不到 "@ + env_name + "，請先設定該供應商的 API Key"@
}

impl ModelCatalog {
    pub fn default() -> (c: ModelCatalog)
        ensures
            !c.loading,
            c.openai_models@.len() == 0,
            c.openrouter_models@.len() == 0,
            c.error is None,
    {
        ModelCatalog { loading: false, openai_models: Vec::new(), openrouter_models: Vec::new(), error: None }
    }

    /// Where the models of `provider` come from: nothing while a fetch runs,
    /// and nothing for xAI, which offers no choice of model.
    pub fn fetch_source(&self, provider: ProviderKey, config: &AppConfig) -> (r: Option<ModelSource>)
        ensures
            (self.loading || provider is Xai) ==> r is None,
            (!self.loading && provider is OpenAi) ==> (r matches Some(s) && s.provider == provider && s.env_name@
                == config.openai.api_key_env@ && s.base_url@ == config.openai.base_url@),
            (!self.loading && provider is OpenRouter) ==> (r matches Some(s) && s.provider == provider
                && s.env_name@ == config.openrouter.api_key_env@ && s.base_url@ == config.openrouter.base_url@),
    {
        if self.loading {
            return None;
        }
        match provider {
            ProviderKey::OpenAi => Some(
                ModelSource {
                    provider,
                    env_name: config.openai.api_key_env.clone(),
                    base_url: config.openai.base_url.clone(),
                },
            ),
            ProviderKey::OpenRouter => Some(
                ModelSource {
                    provider,
                    env_name: config.openrouter.api_key_env.clone(),
                    base_url: config.openrouter.base_url.clone(),
                },
            ),
            ProviderKey::Xai => None,
        }
    }

    /// Starts fetching from `source` with the key read from its variable
    /// (`None` when the variable is not set): the fetch runs and any old
    /// error is cleared, or the missing key is reported and nothing runs.
    pub fn begin_fetch(&mut self, source: &ModelSource, key: Option<String>) -> (r: Option<String>)
        ensures
            final(self).openai_models == old(self).openai_models,
            final(self).openrouter_models == old(self).openrouter_models,
            match key {
                Some(k) => r == Some(k) && final(self).loading && final(self).error is None,
                None => r is None && final(self).loading == old(self).loading && (final(self).error matches Some(
                    m) && m@ == missing_key_text(source.env_name@)),
            },
    {
        match key {
            Some(k) => {
                self.loading = true;
                self.error = None;
                Some(k)
            },
            None => {
                let mut m = chars_of("找不到 ");
                push_str(&mut m, source.env_name.as_str());
                push_str(&mut m, "，請先設定該供應商的 API Key");
                self.error = Some(string_from_chars(m.as_slice()));
                None
            },
        }
    }

    /// The worker's report ends the fetch: a list replaces the provider's
    /// list and clears the error; a failure is shown.
    pub fn finish_fetch(&mut self, result: ModelsFetchResult)
        ensures
            !final(self).loading,
            match result {
                ModelsFetchResult::OpenAi(models) => final(self).openai_models == models && final(self).openrouter_models
                    == old(self).openrouter_models && final(self).error is None,
                ModelsFetchResult::OpenRouter(models) => final(self).openrouter_models == models
                    && final(self).openai_models == old(self).openai_models && final(self).error is None,
                ModelsFetchResult::Error(e) => final(self).error == Some(e) && final(self).openai_models == old(
                    self,
                ).openai_models && final(self).openrouter_models == old(self).openrouter_models,
            },
    {
        self.loading = false;
        match result {
            ModelsFetchResult::OpenAi(models) => {
                self.openai_models = models;
                self.error = None;
            },
            ModelsFetchResult::OpenRouter(models) => {
                self.openrouter_models = models;
                self.error = None;
            },
            ModelsFetchResult::Error(error) => {
                self.error = Some(error);
            },
        }
    }
}

/// What a finished fetch reports for `provider`: its list, or the error;
/// nothing for xAI.
pub fn fetch_report(provider: ProviderKey, result: Result<Vec<String>, String>) -> (r: Option<ModelsFetchResult>)
    ensures
        match result {
            Err(e) => r == Some(ModelsFetchResult::Error(e)),
            Ok(models) => match provider {
                ProviderKey::OpenAi => r == Some(ModelsFetchResult::OpenAi(models)),
                ProviderKey::OpenRouter => r == Some(ModelsFetchResult::OpenRouter(models)),
                ProviderKey::Xai => r is None,
            },
        },
{
    match result {
        Err(error) => Some(ModelsFetchResult::Error(error)),
        Ok(models) => match provider {
            ProviderKey::OpenAi => Some(ModelsFetchResult::OpenAi(models)),
            ProviderKey::OpenRouter => Some(ModelsFetchResult::OpenRouter(models)),
            ProviderKey::Xai => None,
        },
    }
}

/// Whether the window is hidden to the tray and whether the user asked to exit.
pub struct WindowFlags {
    pub window_hidden: bool,
    pub exit_requested: bool,
}

impl WindowFlags {
    /// The window comes back from the tray.
    pub fn show_from_tray(&mut self)
        ensures
            !final(self).window_hidden,
            final(self).exit_requested == old(self).exit_requested,
    {
        self.window_hidden = false;
    }

    /// The user asked to exit: the close that follows is not intercepted.
    pub fn request_exit(&mut self)
        ensures
            final(self).exit_requested,
            !final(self).window_hidden,
    {
        self.exit_requested = true;
        self.window_hidden = false;
    }

    /// The window was hidden to the tray by the user.
    pub fn hide_to_tray(&mut self)
        ensures
            final(self).window_hidden,
            final(self).exit_requested == old(self).exit_requested,
    {
        self.window_hidden = true;
    }

    /// The window is being closed: it is hidden to the tray unless there is
    /// no tray or the user asked to exit.
    pub fn close_requested(&mut self, tray_available: bool) -> (d: CloseDecision)
        ensures
            d == (if tray_available && !old(self).exit_requested {
                CloseDecision::Hide
            } else {
                CloseDecision::Exit
            }),
            d is Hide ==> final(self).window_hidden,
            d is Exit ==> final(self).window_hidden == old(self).window_hidden,
            final(self).exit_requested == old(self).exit_requested,
    {
        let d = close_decision(tray_available, self.exit_requested);
        if matches!(d, CloseDecision::Hide) {
            self.window_hidden = true;
        }
        d
    }
}


/// The update state after launching the installer: launched, or the error.
pub fn launch_outcome(result: Result<(), String>) -> (s: UpdateState)
    ensures
        match result {
            Ok(()) => s is Launched,
            Err(e) => s == UpdateState::Error(e),
        },
{
    match result {
        Ok(()) => UpdateState::Launched,
        Err(error) => UpdateState::Error(error),
    }
}

/// The badge of a provider's key: its text and its colour.
pub fn configured_badge(configured: bool) -> (r: (&'static str, u32))
    ensures
        configured ==> r.0@ == "● 已設定"@ && r.1 == GREEN_SUCCESS,
        !configured ==> r.0@ == "○ 尚未設定"@ && r.1 == TEXT_SECONDARY,
{
    if configured {
        ("● 已設定", GREEN_SUCCESS)
    } else {
        ("○ 尚未設定", TEXT_SECONDARY)
    }
}

impl ModelCatalog {
    /// Opening the settings remembers the selected provider in `last_seen`;
    /// an error of an earlier fetch is dropped when the provider changed.
    pub fn observe_provider(&mut self, last_seen: &mut Option<ProviderKind>, provider: ProviderKind)
        ensures
            *final(last_seen) == Some(provider),
            final(self).error == (if old(last_seen).is_some() && *old(last_seen) != Some(provider) {
                None
            } else {
                old(self).error
            }),
            final(self).loading == old(self).loading,
            final(self).openai_models == old(self).openai_models,
            final(self).openrouter_models == old(self).openrouter_models,
    {
        let previous = *last_seen;
        *last_seen = Some(provider);
        let changed = match previous {
            Some(p) => p != provider,
            None => false,
        };
        if changed {
            self.error = None;
        }
    }
}

} // verus!
