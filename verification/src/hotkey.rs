//! Global hotkey: parsing the configured combination, matching it against
//! the keyboard state, and the listener start-up protocol.
use vstd::prelude::*;
use vstd::string::StringExecFns;
use crate::chars::{
    chars_of, lower_seq, lowered, seq_eq, string_from_chars, trim, trim_chars, upper_seq, uppered,
};
use std::collections::HashSet;
use std::sync::mpsc::{Receiver, RecvTimeoutError, TryRecvError};
use std::time::Duration;

verus! {

#[derive(Debug, Clone, Copy, PartialEq, Eq, Structural)]
pub enum HotkeyEvent {
    Pressed,
    Released,
}

/// A key combination: the modifiers it needs and its main key, upper-cased.
#[derive(Debug, Clone)]
pub struct HotkeyCombo {
    pub ctrl: bool,
    pub shift: bool,
    pub alt: bool,
    pub meta: bool,
    pub key: String,
}

/// The state of a combination while the text is read, in the mathematical world.
pub struct ComboState {
    pub ctrl: bool,
    pub shift: bool,
    pub alt: bool,
    pub meta: bool,
    pub key: Seq<char>,
}

/// The pieces of `s` between `+` signs (`str::split('+')`).
pub open spec fn split_plus(s: Seq<char>) -> Seq<Seq<char>>
    decreases s.len(),
{
    if s.len() == 0 {
        seq![Seq::<char>::empty()]
    } else {
        let p = split_plus(s.drop_last());
        if s.last() == '+' {
            p.push(Seq::<char>::empty())
        } else {
            p.update(p.len() - 1, p.last().push(s.last()))
        }
    }
}

pub proof fn lemma_split_plus_nonempty(s: Seq<char>)
    ensures
        split_plus(s).len() > 0,
    decreases s.len(),
{
    if s.len() > 0 {
        lemma_split_plus_nonempty(s.drop_last());
    }
}

/// One piece of the combination applied to the state read so far: blank
/// pieces are ignored, modifier names (any case) set their modifier, and
/// anything else becomes the main key.
pub open spec fn apply_piece(st: ComboState, piece: Seq<char>) -> ComboState {
    let t = trim(piece);
    let l = lower_seq(t);
    if t.len() == 0 {
        st
    } else if l == "ctrl"@ || l == "control"@ {
        ComboState { ctrl: true, ..st }
    } else if l == "shift"@ {
        ComboState { shift: true, ..st }
    } else if l == "alt"@ {
        ComboState { alt: true, ..st }
    } else if l == "win"@ || l == "meta"@ || l == "windows"@ {
        ComboState { meta: true, ..st }
    } else {
        ComboState { key: upper_seq(l), ..st }
    }
}

pub open spec fn apply_pieces(pieces: Seq<Seq<char>>) -> ComboState
    decreases pieces.len(),
{
    if pieces.len() == 0 {
        ComboState { ctrl: false, shift: false, alt: false, meta: false, key: Seq::<char>::empty() }
    } else {
        apply_piece(apply_pieces(pieces.drop_last()), pieces.last())
    }
}

/// What `HotkeyCombo::parse` makes of `text`: the combination, or the
/// message that explains why there is none.
pub open spec fn parse_spec(text: Seq<char>) -> Result<ComboState, Seq<char>> {
    let st = apply_pieces(split_plus(text));
    if st.key.len() == 0 {
        Err("快捷鍵需要一個主鍵"@)
    } else if !(st.ctrl || st.shift || st.alt || st.meta) {
        Err("快捷鍵至少需要一個修飾鍵"@)
    } else {
        Ok(st)
    }
}

impl HotkeyCombo {
    pub open spec fn state(self) -> ComboState {
        ComboState { ctrl: self.ctrl, shift: self.shift, alt: self.alt, meta: self.meta, key: self.key@ }
    }

    /// Reads a combination such as `Ctrl+Shift+Space`: pieces between `+`
    /// are trimmed, modifier names are recognised in any case, any other
    /// piece becomes the main key (the last one wins), upper-cased. A
    /// combination needs a main key and at least one modifier.
    pub fn parse(value: &str) -> (r: Result<HotkeyCombo, String>)
        ensures
            match parse_spec(value@) {
                Ok(st) => r matches Ok(c) && c.state() == st,
                Err(m) => r matches Err(e) && e@ == m,
            },
    {
        let s = chars_of(value);
        let mut ctrl = false;
        let mut shift = false;
        let mut alt = false;
        let mut meta = false;
        let mut key: Vec<char> = Vec::new();
        let mut piece: Vec<char> = Vec::new();
        let mut i: usize = 0;
        proof {
            lemma_split_plus_nonempty(s@.take(0));
            assert(s@.take(0) =~= Seq::<char>::empty());
        }
        while i < s.len()
            invariant
                i <= s@.len(),
                s@ == value@,
                split_plus(s@.take(i as int)).len() > 0,
                piece@ == split_plus(s@.take(i as int)).last(),
                apply_pieces(split_plus(s@.take(i as int)).drop_last()) == (ComboState {
                    ctrl,
                    shift,
                    alt,
                    meta,
                    key: key@,
                }),
            decreases s@.len() - i,
        {
            let c = s[i];
            let ghost p = s@.take(i as int);
            let ghost q = s@.take(i + 1);
            proof {
                assert(q.drop_last() =~= p);
                assert(q.last() == c);
            }
            if c == '+' {
                let (c2, s2, a2, m2, k2) = apply_piece_exec(&piece, ctrl, shift, alt, meta, key);
                ctrl = c2;
                shift = s2;
                alt = a2;
                meta = m2;
                key = k2;
                piece = Vec::new();
                proof {
                    let sp = split_plus(p);
                    assert(split_plus(q) == sp.push(Seq::<char>::empty()));
                    assert(split_plus(q).drop_last() =~= sp);
                    assert(sp =~= sp.drop_last().push(sp.last()));
                }
            } else {
                piece.push(c);
                proof {
                    let sp = split_plus(p);
                    let sq = split_plus(q);
                    assert(sq == sp.update(sp.len() - 1, sp.last().push(c)));
                    assert(sq.drop_last() =~= sp.drop_last());
                }
            }
            i += 1;
        }
        let (c2, s2, a2, m2, k2) = apply_piece_exec(&piece, ctrl, shift, alt, meta, key);
        proof {
            let sp = split_plus(s@.take(i as int));
            assert(s@.take(i as int) =~= value@);
            assert(sp =~= sp.drop_last().push(sp.last()));
        }
        if k2.len() == 0 {
            return Err(String::from_str("快捷鍵需要一個主鍵"));
        }
        if !(c2 || s2 || a2 || m2) {
            return Err(String::from_str("快捷鍵至少需要一個修飾鍵"));
        }
        Ok(HotkeyCombo { ctrl: c2, shift: s2, alt: a2, meta: m2, key: string_from_chars(k2.as_slice()) })
    }

    /// The combination is held: every modifier it needs is down (others may
    /// be down too) and its main key is among the pressed keys.
    pub fn matches_raw(
        &self,
        ctrl_down: bool,
        shift_down: bool,
        alt_down: bool,
        meta_down: bool,
        pressed_keys: &HashSet<String>,
    ) -> (b: bool)
        ensures
            b == matches_spec(self.state(), ctrl_down, shift_down, alt_down, meta_down, pressed_names(pressed_keys@)),
    {
        (!self.ctrl || ctrl_down) && (!self.shift || shift_down) && (!self.alt || alt_down) && (
        !self.meta || meta_down) && set_has_name(pressed_keys, &self.key)
    }
}

/// The names, as character sequences, of the keys in a set of `String`s.
pub open spec fn pressed_names(keys: Set<String>) -> Set<Seq<char>> {
    Set::new(|n: Seq<char>| exists|k: String| keys.contains(k) && k@ == n)
}

pub open spec fn matches_spec(
    c: ComboState,
    ctrl_down: bool,
    shift_down: bool,
    alt_down: bool,
    meta_down: bool,
    pressed: Set<Seq<char>>,
) -> bool {
    (!c.ctrl || ctrl_down) && (!c.shift || shift_down) && (!c.alt || alt_down) && (!c.meta
        || meta_down) && pressed.contains(c.key)
}

/// `HashSet::contains` for a set of strings: whether a string equal to
/// `key` is in the set.
#[verifier::external_body]
fn set_has_name(keys: &HashSet<String>, key: &String) -> (b: bool)
    ensures
        b == pressed_names(keys@).contains(key@),
{
    keys.contains(key)
}

/// Pressing more modifiers than a combination needs never stops it from matching.
pub proof fn lemma_extra_modifiers_still_match(
    c: ComboState,
    ctrl_down: bool,
    shift_down: bool,
    alt_down: bool,
    meta_down: bool,
    more_ctrl: bool,
    more_shift: bool,
    more_alt: bool,
    more_meta: bool,
    pressed: Set<Seq<char>>,
)
    requires
        matches_spec(c, ctrl_down, shift_down, alt_down, meta_down, pressed),
    ensures
        matches_spec(
            c,
            ctrl_down || more_ctrl,
            shift_down || more_shift,
            alt_down || more_alt,
            meta_down || more_meta,
            pressed,
        ),
{
}

/// A successfully parsed combination always has a main key and a modifier.
pub proof fn lemma_parsed_combo_is_complete(text: Seq<char>)
    ensures
        parse_spec(text) matches Ok(st) ==> st.key.len() > 0 && (st.ctrl || st.shift || st.alt
            || st.meta),
{
}

fn is_text(v: &Vec<char>, lit: &str) -> (b: bool)
    ensures
        b == (v@ == lit@),
{
    let l = chars_of(lit);
    seq_eq(v.as_slice(), l.as_slice())
}

fn apply_piece_exec(
    piece: &Vec<char>,
    ctrl: bool,
    shift: bool,
    alt: bool,
    meta: bool,
    key: Vec<char>,
) -> (r: (bool, bool, bool, bool, Vec<char>))
    ensures
        apply_piece(ComboState { ctrl, shift, alt, meta, key: key@ }, piece@) == (ComboState {
            ctrl: r.0,
            shift: r.1,
            alt: r.2,
            meta: r.3,
            key: r.4@,
        }),
{
    let t = trim_chars(piece.as_slice());
    if t.len() == 0 {
        return (ctrl, shift, alt, meta, key);
    }
    let l = lowered(t.as_slice());
    if is_text(&l, "ctrl") || is_text(&l, "control") {
        (true, shift, alt, meta, key)
    } else if is_text(&l, "shift") {
        (ctrl, true, alt, meta, key)
    } else if is_text(&l, "alt") {
        (ctrl, shift, true, meta, key)
    } else if is_text(&l, "win") || is_text(&l, "meta") || is_text(&l, "windows") {
        (ctrl, shift, alt, true, key)
    } else {
        (ctrl, shift, alt, meta, uppered(l.as_slice()))
    }
}

/// How long the listener thread has to report that it started, in milliseconds.
pub const LISTENER_START_TIMEOUT_MS: u64 = 250;

/// How long a failure right after start-up still fails the start, in milliseconds.
pub const IMMEDIATE_ERROR_WINDOW_MS: u64 = 100;

pub const START_TIMEOUT_MESSAGE: &'static str = "全域快捷鍵 listener 啟動逾時";

pub const STOPPED_BEFORE_START_MESSAGE: &'static str = "全域快捷鍵 listener 啟動前已中止";

pub const STOPPED_AFTER_START_MESSAGE: &'static str = "全域快捷鍵 listener 啟動後立即中止";

pub const STOPPED_MESSAGE: &'static str = "全域快捷鍵 listener 已中止";

/// What the listener thread reports over its status channel.
#[derive(Debug, Clone)]
pub enum ListenerStatus {
    ThreadStarted,
    Failed(String),
}

/// One read of the status channel: a report, nothing within the time
/// allowed, or a channel whose sender is gone.
#[derive(Debug)]
pub enum StatusRead {
    Report(ListenerStatus),
    NothingYet,
    Closed,
}

#[verifier::external_type_specification]
#[verifier::external_body]
#[verifier::reject_recursive_types(T)]
pub struct ExReceiver<T>(Receiver<T>);

/// `Receiver::recv_timeout`: waits up to `timeout` for a report. What comes
/// back depends on the listener thread and the clock, so nothing is stated.
#[verifier::external_body]
fn recv_status_timeout(receiver: &Receiver<ListenerStatus>, timeout: Duration) -> (r: StatusRead) {
    match receiver.recv_timeout(timeout) {
        Ok(status) => StatusRead::Report(status),
        Err(RecvTimeoutError::Timeout) => StatusRead::NothingYet,
        Err(RecvTimeoutError::Disconnected) => StatusRead::Closed,
    }
}

/// `Receiver::try_recv`: a report already waiting, if any. What comes back
/// depends on the listener thread, so nothing is stated.
#[verifier::external_body]
fn try_recv_status(receiver: &Receiver<ListenerStatus>) -> (r: StatusRead) {
    match receiver.try_recv() {
        Ok(status) => StatusRead::Report(status),
        Err(TryRecvError::Empty) => StatusRead::NothingYet,
        Err(TryRecvError::Disconnected) => StatusRead::Closed,
    }
}

pub open spec fn result_view(r: Result<(), String>) -> Result<(), Seq<char>> {
    match r {
        Ok(()) => Ok(()),
        Err(e) => Err(e@),
    }
}

/// The verdict on the first read of the start-up handshake: the thread must
/// report that it started; a failure, silence or a closed channel fail the start.
pub open spec fn start_verdict(first: StatusRead) -> Result<(), Seq<char>> {
    match first {
        StatusRead::Report(ListenerStatus::ThreadStarted) => Ok(()),
        StatusRead::Report(ListenerStatus::Failed(e)) => Err(e@),
        StatusRead::NothingYet => Err(START_TIMEOUT_MESSAGE@),
        StatusRead::Closed => Err(STOPPED_BEFORE_START_MESSAGE@),
    }
}

/// The verdict on the second read: only a failure reported at once, or a
/// listener that stopped at once, fail the start.
pub open spec fn immediate_verdict(second: StatusRead) -> Result<(), Seq<char>> {
    match second {
        StatusRead::Report(ListenerStatus::Failed(e)) => Err(e@),
        StatusRead::Report(ListenerStatus::ThreadStarted) => Ok(()),
        StatusRead::NothingYet => Ok(()),
        StatusRead::Closed => Err(STOPPED_AFTER_START_MESSAGE@),
    }
}

/// The whole handshake on two reads: the second only counts once the first
/// reported a start.
pub open spec fn handshake_verdict(first: StatusRead, second: StatusRead) -> Result<(), Seq<char>> {
    match start_verdict(first) {
        Ok(()) => immediate_verdict(second),
        Err(e) => Err(e),
    }
}

/// What a poll of the status channel reports to the user: a failure, or a
/// listener that stopped.
pub open spec fn poll_verdict(read: StatusRead) -> Option<Seq<char>> {
    match read {
        StatusRead::Report(ListenerStatus::Failed(e)) => Some(e@),
        StatusRead::Report(ListenerStatus::ThreadStarted) => None,
        StatusRead::NothingYet => None,
        StatusRead::Closed => Some(STOPPED_MESSAGE@),
    }
}

/// Judges the first read of the start-up handshake.
pub fn start_report(first: StatusRead) -> (r: Result<(), String>)
    ensures
        result_view(r) == start_verdict(first),
{
    match first {
        StatusRead::Report(ListenerStatus::ThreadStarted) => Ok(()),
        StatusRead::Report(ListenerStatus::Failed(e)) => Err(e),
        StatusRead::NothingYet => Err(String::from_str(START_TIMEOUT_MESSAGE)),
        StatusRead::Closed => Err(String::from_str(STOPPED_BEFORE_START_MESSAGE)),
    }
}

/// Judges the second read of the start-up handshake.
pub fn immediate_report(second: StatusRead) -> (r: Result<(), String>)
    ensures
        result_view(r) == immediate_verdict(second),
{
    match second {
        StatusRead::Report(ListenerStatus::Failed(e)) => Err(e),
        StatusRead::Report(ListenerStatus::ThreadStarted) => Ok(()),
        StatusRead::NothingYet => Ok(()),
        StatusRead::Closed => Err(String::from_str(STOPPED_AFTER_START_MESSAGE)),
    }
}

/// Judges one poll of the status channel.
pub fn poll_report(read: StatusRead) -> (r: Option<String>)
    ensures
        match r {
            Some(m) => poll_verdict(read) == Some(m@),
            None => poll_verdict(read) is None,
        },
{
    match read {
        StatusRead::Report(ListenerStatus::Failed(e)) => Some(e),
        StatusRead::Report(ListenerStatus::ThreadStarted) => None,
        StatusRead::NothingYet => None,
        StatusRead::Closed => Some(String::from_str(STOPPED_MESSAGE)),
    }
}

/// Waits for the listener thread to report its start within `start_timeout`,
/// then for `immediate_error_window` more to catch a failure right after it.
/// Whatever the channel gave, the outcome is the handshake's verdict on
/// those reads.
pub fn startup_handshake(
    receiver: &Receiver<ListenerStatus>,
    start_timeout: Duration,
    immediate_error_window: Duration,
) -> (r: Result<(), String>)
    ensures
        exists|first: StatusRead, second: StatusRead|
            result_view(r) == #[trigger] handshake_verdict(first, second),
{
    let first = recv_status_timeout(receiver, start_timeout);
    let ghost first_view = first;
    match start_report(first) {
        Ok(()) => {},
        Err(e) => {
            let r: Result<(), String> = Err(e);
            proof {
                assert(result_view(r) == handshake_verdict(first_view, StatusRead::Closed));
            }
            return r;
        },
    }
    let second = recv_status_timeout(receiver, immediate_error_window);
    let ghost second_view = second;
    let r = immediate_report(second);
    proof {
        assert(result_view(r) == handshake_verdict(first_view, second_view));
    }
    r
}

/// Takes the listener failure waiting on the channel, if any: a reported
/// failure, or the message for a listener that stopped.
pub fn poll_listener_error(receiver: &Receiver<ListenerStatus>) -> (r: Option<String>)
    ensures
        exists|read: StatusRead|
            match r {
                Some(m) => #[trigger] poll_verdict(read) == Some(m@),
                None => poll_verdict(read) is None,
            },
{
    let read = try_recv_status(receiver);
    let ghost read_view = read;
    let r = poll_report(read);
    proof {
        assert(match r {
            Some(m) => poll_verdict(read_view) == Some(m@),
            None => poll_verdict(read_view) is None,
        });
    }
    r
}

/// The keyboard-polling fallback turns the current state of the
/// combination into edges: a press when it goes down, a release when it
/// comes up, nothing when it stays.
pub fn fallback_edge(pressed: bool, last_pressed: bool) -> (r: Option<HotkeyEvent>)
    ensures
        r == (if pressed && !last_pressed {
            Some(HotkeyEvent::Pressed)
        } else if !pressed && last_pressed {
            Some(HotkeyEvent::Released)
        } else {
            None
        }),
{
    if pressed && !last_pressed {
        Some(HotkeyEvent::Pressed)
    } else if !pressed && last_pressed {
        Some(HotkeyEvent::Released)
    } else {
        None
    }
}

/// A key as the keyboard state query reports it (the `device_query` key
/// codes that the hotkey logic tells apart; every other key is `Other`).
#[derive(Debug, Clone, Copy, PartialEq, Eq, Structural)]
pub enum DeviceKey {
    A, B, C, D, E, F, G, H, I, J, K, L, M, N, O, P, Q, R, S, T, U, V, W, X, Y, Z, Key0, Key1, Key2,
    Key3, Key4, Key5, Key6, Key7, Key8, Key9, F1, F2, F3, F4, F5, F6, F7, F8, F9, F10, F11, F12,
    Space, Enter, Tab, Escape, LControl, RControl, LShift, RShift, LAlt, RAlt, LMeta, RMeta, Other,
}

/// The name that a combination uses for a key of the keyboard state query.
pub open spec fn device_key_name(key: DeviceKey) -> Option<Seq<char>> {
    match key {
        DeviceKey::A => Some("A"@),
        DeviceKey::B => Some("B"@),
        DeviceKey::C => Some("C"@),
        DeviceKey::D => Some("D"@),
        DeviceKey::E => Some("E"@),
        DeviceKey::F => Some("F"@),
        DeviceKey::G => Some("G"@),
        DeviceKey::H => Some("H"@),
        DeviceKey::I => Some("I"@),
        DeviceKey::J => Some("J"@),
        DeviceKey::K => Some("K"@),
        DeviceKey::L => Some("L"@),
        DeviceKey::M => Some("M"@),
        DeviceKey::N => Some("N"@),
        DeviceKey::O => Some("O"@),
        DeviceKey::P => Some("P"@),
        DeviceKey::Q => Some("Q"@),
        DeviceKey::R => Some("R"@),
        DeviceKey::S => Some("S"@),
        DeviceKey::T => Some("T"@),
        DeviceKey::U => Some("U"@),
        DeviceKey::V => Some("V"@),
        DeviceKey::W => Some("W"@),
        DeviceKey::X => Some("X"@),
        DeviceKey::Y => Some("Y"@),
        DeviceKey::Z => Some("Z"@),
        DeviceKey::Key0 => Some("0"@),
        DeviceKey::Key1 => Some("1"@),
        DeviceKey::Key2 => Some("2"@),
        DeviceKey::Key3 => Some("3"@),
        DeviceKey::Key4 => Some("4"@),
        DeviceKey::Key5 => Some("5"@),
        DeviceKey::Key6 => Some("6"@),
        DeviceKey::Key7 => Some("7"@),
        DeviceKey::Key8 => Some("8"@),
        DeviceKey::Key9 => Some("9"@),
        DeviceKey::F1 => Some("F1"@),
        DeviceKey::F2 => Some("F2"@),
        DeviceKey::F3 => Some("F3"@),
        DeviceKey::F4 => Some("F4"@),
        DeviceKey::F5 => Some("F5"@),
        DeviceKey::F6 => Some("F6"@),
        DeviceKey::F7 => Some("F7"@),
        DeviceKey::F8 => Some("F8"@),
        DeviceKey::F9 => Some("F9"@),
        DeviceKey::F10 => Some("F10"@),
        DeviceKey::F11 => Some("F11"@),
        DeviceKey::F12 => Some("F12"@),
        DeviceKey::Space => Some("SPACE"@),
        DeviceKey::Enter => Some("ENTER"@),
        DeviceKey::Tab => Some("TAB"@),
        DeviceKey::Escape => Some("ESC"@),
        _ => None,
    }
}

fn device_key_text(key: DeviceKey) -> (r: Option<&'static str>)
    ensures
        match device_key_name(key) {
            Some(n) => r matches Some(s) && s@ == n,
            None => r is None,
        },
{
    match key {
        DeviceKey::A => Some("A"),
        DeviceKey::B => Some("B"),
        DeviceKey::C => Some("C"),
        DeviceKey::D => Some("D"),
        DeviceKey::E => Some("E"),
        DeviceKey::F => Some("F"),
        DeviceKey::G => Some("G"),
        DeviceKey::H => Some("H"),
        DeviceKey::I => Some("I"),
        DeviceKey::J => Some("J"),
        DeviceKey::K => Some("K"),
        DeviceKey::L => Some("L"),
        DeviceKey::M => Some("M"),
        DeviceKey::N => Some("N"),
        DeviceKey::O => Some("O"),
        DeviceKey::P => Some("P"),
        DeviceKey::Q => Some("Q"),
        DeviceKey::R => Some("R"),
        DeviceKey::S => Some("S"),
        DeviceKey::T => Some("T"),
        DeviceKey::U => Some("U"),
        DeviceKey::V => Some("V"),
        DeviceKey::W => Some("W"),
        DeviceKey::X => Some("X"),
        DeviceKey::Y => Some("Y"),
        DeviceKey::Z => Some("Z"),
        DeviceKey::Key0 => Some("0"),
        DeviceKey::Key1 => Some("1"),
        DeviceKey::Key2 => Some("2"),
        DeviceKey::Key3 => Some("3"),
        DeviceKey::Key4 => Some("4"),
        DeviceKey::Key5 => Some("5"),
        DeviceKey::Key6 => Some("6"),
        DeviceKey::Key7 => Some("7"),
        DeviceKey::Key8 => Some("8"),
        DeviceKey::Key9 => Some("9"),
        DeviceKey::F1 => Some("F1"),
        DeviceKey::F2 => Some("F2"),
        DeviceKey::F3 => Some("F3"),
        DeviceKey::F4 => Some("F4"),
        DeviceKey::F5 => Some("F5"),
        DeviceKey::F6 => Some("F6"),
        DeviceKey::F7 => Some("F7"),
        DeviceKey::F8 => Some("F8"),
        DeviceKey::F9 => Some("F9"),
        DeviceKey::F10 => Some("F10"),
        DeviceKey::F11 => Some("F11"),
        DeviceKey::F12 => Some("F12"),
        DeviceKey::Space => Some("SPACE"),
        DeviceKey::Enter => Some("ENTER"),
        DeviceKey::Tab => Some("TAB"),
        DeviceKey::Escape => Some("ESC"),
        _ => None,
    }
}

/// The name of a key reported by the keyboard state query, as the
/// combination's main key is written; modifiers and other keys have none.
pub fn normalize_device_key(key: DeviceKey) -> (r: Option<String>)
    ensures
        match device_key_name(key) {
            Some(n) => r matches Some(s) && s@ == n,
            None => r is None,
        },
{
    match device_key_text(key) {
        Some(s) => Some(String::from_str(s)),
        None => None,
    }
}

/// A key as the system-wide keyboard hook reports it (the `rdev` keys that
/// the hotkey logic tells apart; every other key is `Other`).
#[derive(Debug, Clone, Copy, PartialEq, Eq, Structural)]
pub enum HookKey {
    KeyA, KeyB, KeyC, KeyD, KeyE, KeyF, KeyG, KeyH, KeyI, KeyJ, KeyK, KeyL, KeyM, KeyN, KeyO, KeyP,
    KeyQ, KeyR, KeyS, KeyT, KeyU, KeyV, KeyW, KeyX, KeyY, KeyZ, Space, Return, Tab, Escape,
    ControlLeft, ControlRight, ShiftLeft, ShiftRight, Alt, AltGr, MetaLeft, MetaRight, Other,
}

/// The name that a combination uses for a key of the keyboard hook.
pub open spec fn hook_key_name(key: HookKey) -> Option<Seq<char>> {
    match key {
        HookKey::KeyA => Some("A"@),
        HookKey::KeyB => Some("B"@),
        HookKey::KeyC => Some("C"@),
        HookKey::KeyD => Some("D"@),
        HookKey::KeyE => Some("E"@),
        HookKey::KeyF => Some("F"@),
        HookKey::KeyG => Some("G"@),
        HookKey::KeyH => Some("H"@),
        HookKey::KeyI => Some("I"@),
        HookKey::KeyJ => Some("J"@),
        HookKey::KeyK => Some("K"@),
        HookKey::KeyL => Some("L"@),
        HookKey::KeyM => Some("M"@),
        HookKey::KeyN => Some("N"@),
        HookKey::KeyO => Some("O"@),
        HookKey::KeyP => Some("P"@),
        HookKey::KeyQ => Some("Q"@),
        HookKey::KeyR => Some("R"@),
        HookKey::KeyS => Some("S"@),
        HookKey::KeyT => Some("T"@),
        HookKey::KeyU => Some("U"@),
        HookKey::KeyV => Some("V"@),
        HookKey::KeyW => Some("W"@),
        HookKey::KeyX => Some("X"@),
        HookKey::KeyY => Some("Y"@),
        HookKey::KeyZ => Some("Z"@),
        HookKey::Space => Some("SPACE"@),
        HookKey::Return => Some("ENTER"@),
        HookKey::Tab => Some("TAB"@),
        HookKey::Escape => Some("ESC"@),
        _ => None,
    }
}

fn hook_key_text(key: HookKey) -> (r: Option<&'static str>)
    ensures
        match hook_key_name(key) {
            Some(n) => r matches Some(s) && s@ == n,
            None => r is None,
        },
{
    match key {
        HookKey::KeyA => Some("A"),
        HookKey::KeyB => Some("B"),
        HookKey::KeyC => Some("C"),
        HookKey::KeyD => Some("D"),
        HookKey::KeyE => Some("E"),
        HookKey::KeyF => Some("F"),
        HookKey::KeyG => Some("G"),
        HookKey::KeyH => Some("H"),
        HookKey::KeyI => Some("I"),
        HookKey::KeyJ => Some("J"),
        HookKey::KeyK => Some("K"),
        HookKey::KeyL => Some("L"),
        HookKey::KeyM => Some("M"),
        HookKey::KeyN => Some("N"),
        HookKey::KeyO => Some("O"),
        HookKey::KeyP => Some("P"),
        HookKey::KeyQ => Some("Q"),
        HookKey::KeyR => Some("R"),
        HookKey::KeyS => Some("S"),
        HookKey::KeyT => Some("T"),
        HookKey::KeyU => Some("U"),
        HookKey::KeyV => Some("V"),
        HookKey::KeyW => Some("W"),
        HookKey::KeyX => Some("X"),
        HookKey::KeyY => Some("Y"),
        HookKey::KeyZ => Some("Z"),
        HookKey::Space => Some("SPACE"),
        HookKey::Return => Some("ENTER"),
        HookKey::Tab => Some("TAB"),
        HookKey::Escape => Some("ESC"),
        _ => None,
    }
}

/// The name of a key reported by the keyboard hook, as the combination's
/// main key is written; modifiers and other keys have none.
pub fn key_name(key: HookKey) -> (r: Option<String>)
    ensures
        match hook_key_name(key) {
            Some(n) => r matches Some(s) && s@ == n,
            None => r is None,
        },
{
    match hook_key_text(key) {
        Some(s) => Some(String::from_str(s)),
        None => None,
    }
}
/// A modifier of the keyboard state query is down on either side.
pub open spec fn device_down(keys: Seq<DeviceKey>, left: DeviceKey, right: DeviceKey) -> bool {
    keys.contains(left) || keys.contains(right)
}

/// The names of the keys that the keyboard state query reports down.
pub open spec fn device_names(keys: Seq<DeviceKey>) -> Set<Seq<char>> {
    Set::new(|n: Seq<char>| exists|i: int| 0 <= i < keys.len() && #[trigger] device_key_name(keys[i]) == Some(n))
}

/// The combination is held, judged by the keys that the keyboard state
/// query reports down.
pub open spec fn combo_held_spec(c: ComboState, keys: Seq<DeviceKey>) -> bool {
    matches_spec(
        c,
        device_down(keys, DeviceKey::LControl, DeviceKey::RControl),
        device_down(keys, DeviceKey::LShift, DeviceKey::RShift),
        device_down(keys, DeviceKey::LAlt, DeviceKey::RAlt),
        device_down(keys, DeviceKey::LMeta, DeviceKey::RMeta),
        device_names(keys),
    )
}

fn contains_key(keys: &[DeviceKey], key: DeviceKey) -> (b: bool)
    ensures
        b == keys@.contains(key),
{
    let mut i: usize = 0;
    while i < keys.len()
        invariant
            i <= keys@.len(),
            forall|j: int| 0 <= j < i ==> keys@[j] != key,
        decreases keys@.len() - i,
    {
        if keys[i] == key {
            proof {
                assert(keys@[i as int] == key);
            }
            return true;
        }
        i += 1;
    }
    false
}

/// Whether the combination is held, judged by the keys that the keyboard
/// state query reports down (the polling path of the hotkey).
pub fn combo_held(combo: &HotkeyCombo, keys: &[DeviceKey]) -> (b: bool)
    ensures
        b == combo_held_spec(combo.state(), keys@),
{
    let ctrl = contains_key(keys, DeviceKey::LControl) || contains_key(keys, DeviceKey::RControl);
    let shift = contains_key(keys, DeviceKey::LShift) || contains_key(keys, DeviceKey::RShift);
    let alt = contains_key(keys, DeviceKey::LAlt) || contains_key(keys, DeviceKey::RAlt);
    let meta = contains_key(keys, DeviceKey::LMeta) || contains_key(keys, DeviceKey::RMeta);
    let mut pressed: HashSet<String> = HashSet::new();
    proof {
        assert(pressed_names(pressed@) =~= device_names(keys@.take(0)));
    }
    let mut i: usize = 0;
    while i < keys.len()
        invariant
            i <= keys@.len(),
            pressed_names(pressed@) == device_names(keys@.take(i as int)),
        decreases keys@.len() - i,
    {
        let ghost before = keys@.take(i as int);
        let k = keys[i];
        match normalize_device_key(k) {
            Some(name) => set_insert_name(&mut pressed, name),
            None => {},
        }
        proof {
            let after = keys@.take(i + 1);
            assert(after =~= before.push(k));
            assert forall|n: Seq<char>| #[trigger]
                device_names(after).contains(n) == (device_names(before).contains(n)
                    || device_key_name(k) == Some(n)) by {
                if device_names(after).contains(n) {
                    let j = choose|j: int| 0 <= j < after.len() && #[trigger] device_key_name(after[j]) == Some(n);
                    if j < before.len() {
                        assert(before[j] == after[j]);
                        assert(device_names(before).contains(n));
                    }
                }
                if device_names(before).contains(n) {
                    let j = choose|j: int| 0 <= j < before.len() && #[trigger] device_key_name(before[j]) == Some(n);
                    assert(after[j] == before[j]);
                }
                if device_key_name(k) == Some(n) {
                    assert(after[before.len() as int] == k);
                }
            }
            match device_key_name(k) {
                Some(n) => assert(device_names(after) =~= device_names(before).insert(n)),
                None => assert(device_names(after) =~= device_names(before)),
            }
        }
        i += 1;
    }
    proof {
        assert(keys@.take(keys@.len() as int) =~= keys@);
    }
    combo.matches_raw(ctrl, shift, alt, meta, &pressed)
}

/// A key as the keyboard listener sees it: one of the modifiers, a key
/// with a name that a combination can use, or another key.
#[derive(Debug, Clone)]
pub enum KeyInput {
    Control,
    Shift,
    Alt,
    Meta,
    Named(String),
    Unnamed,
}

/// Which modifiers are down and which named keys are pressed.
pub struct KeyboardState {
    pub ctrl: bool,
    pub shift: bool,
    pub alt: bool,
    pub meta: bool,
    pub keys: HashSet<String>,
}

/// What a keyboard state says: the four modifiers and the pressed names.
pub struct KeyboardView {
    pub ctrl: bool,
    pub shift: bool,
    pub alt: bool,
    pub meta: bool,
    pub names: Set<Seq<char>>,
}

pub open spec fn keyboard_view(s: KeyboardState) -> KeyboardView {
    KeyboardView { ctrl: s.ctrl, shift: s.shift, alt: s.alt, meta: s.meta, names: pressed_names(s.keys@) }
}

/// The pressed names after the named key `n` went down or up.
pub open spec fn with_name(v: KeyboardView, down: bool, n: Seq<char>) -> KeyboardView {
    KeyboardView { names: if down { v.names.insert(n) } else { v.names.remove(n) }, ..v }
}

/// The keyboard state after `key` went down (`down`) or up.
pub open spec fn after_key(v: KeyboardView, down: bool, key: KeyInput) -> KeyboardView {
    match key {
        KeyInput::Control => KeyboardView { ctrl: down, ..v },
        KeyInput::Shift => KeyboardView { shift: down, ..v },
        KeyInput::Alt => KeyboardView { alt: down, ..v },
        KeyInput::Meta => KeyboardView { meta: down, ..v },
        KeyInput::Named(n) => with_name(v, down, n@),
        KeyInput::Unnamed => v,
    }
}

/// The keyboard state after the hook reported `key` down (`down`) or up:
/// either side of a modifier sets it, a named key joins or leaves the
/// pressed names, any other key changes nothing.
pub open spec fn after_hook_key(v: KeyboardView, down: bool, key: HookKey) -> KeyboardView {
    match key {
        HookKey::ControlLeft | HookKey::ControlRight => KeyboardView { ctrl: down, ..v },
        HookKey::ShiftLeft | HookKey::ShiftRight => KeyboardView { shift: down, ..v },
        HookKey::Alt | HookKey::AltGr => KeyboardView { alt: down, ..v },
        HookKey::MetaLeft | HookKey::MetaRight => KeyboardView { meta: down, ..v },
        _ => match hook_key_name(key) {
            Some(n) => with_name(v, down, n),
            None => v,
        },
    }
}

fn hook_input(key: HookKey) -> (r: KeyInput)
    ensures
        forall|v: KeyboardView, down: bool| after_key(v, down, r) == after_hook_key(v, down, key),
{
    match key {
        HookKey::ControlLeft | HookKey::ControlRight => KeyInput::Control,
        HookKey::ShiftLeft | HookKey::ShiftRight => KeyInput::Shift,
        HookKey::Alt | HookKey::AltGr => KeyInput::Alt,
        HookKey::MetaLeft | HookKey::MetaRight => KeyInput::Meta,
        _ => match key_name(key) {
            Some(n) => KeyInput::Named(n),
            None => KeyInput::Unnamed,
        },
    }
}

/// Applies a key event reported by the keyboard hook to the keyboard state.
pub fn apply_event(state: &mut KeyboardState, down: bool, key: HookKey)
    ensures
        keyboard_view(*final(state)) == after_hook_key(keyboard_view(*old(state)), down, key),
{
    let input = hook_input(key);
    state.apply(down, input);
}

/// `HashSet::insert` for a set of strings: afterwards a string equal to
/// `key` is in the set, and nothing else changed.
#[verifier::external_body]
fn set_insert_name(keys: &mut HashSet<String>, key: String)
    ensures
        pressed_names(final(keys)@) == pressed_names(old(keys)@).insert(key@),
{
    keys.insert(key);
}

/// `HashSet::remove` for a set of strings: afterwards no string equal to
/// `key` is in the set, and nothing else changed.
#[verifier::external_body]
fn set_remove_name(keys: &mut HashSet<String>, key: &String)
    ensures
        pressed_names(final(keys)@) == pressed_names(old(keys)@).remove(key@),
{
    keys.remove(key);
}

impl KeyboardState {
    pub fn default() -> (s: KeyboardState)
        ensures
            !s.ctrl && !s.shift && !s.alt && !s.meta,
            pressed_names(s.keys@) == Set::<Seq<char>>::empty(),
    {
        let keys: HashSet<String> = HashSet::new();
        proof {
            assert(pressed_names(keys@) =~= Set::<Seq<char>>::empty());
        }
        KeyboardState { ctrl: false, shift: false, alt: false, meta: false, keys }
    }

    /// A key went down (`down`) or up: modifiers follow it, named keys join
    /// or leave the pressed set, other keys change nothing.
    pub fn apply(&mut self, down: bool, key: KeyInput)
        ensures
            keyboard_view(*final(self)) == after_key(keyboard_view(*old(self)), down, key),
    {
        match key {
            KeyInput::Control => self.ctrl = down,
            KeyInput::Shift => self.shift = down,
            KeyInput::Alt => self.alt = down,
            KeyInput::Meta => self.meta = down,
            KeyInput::Named(name) => {
                if down {
                    set_insert_name(&mut self.keys, name);
                } else {
                    set_remove_name(&mut self.keys, &name);
                }
            },
            KeyInput::Unnamed => {},
        }
    }
}

/// Pressing a named key and releasing it again leaves the pressed names
/// as they were, when the key was not pressed before.
pub proof fn lemma_press_release_restores(names: Set<Seq<char>>, key: Seq<char>)
    requires
        !names.contains(key),
    ensures
        names.insert(key).remove(key) == names,
{
    assert(names.insert(key).remove(key) =~= names);
}


/// The edge between two readings of whether the combination is held.
pub open spec fn edge(now: bool, before: bool) -> Option<HotkeyEvent> {
    if now && !before {
        Some(HotkeyEvent::Pressed)
    } else if !now && before {
        Some(HotkeyEvent::Released)
    } else {
        None
    }
}

/// The keyboard hook's view of the combination: the keyboard state it has
/// built up and whether the combination was held after the last key.
pub struct HookListener {
    pub state: KeyboardState,
    pub was_down: bool,
}

/// Whether the keyboard state `v` holds the combination (when the
/// combination could be read at all).
pub open spec fn held_by(combo: Option<ComboState>, v: KeyboardView) -> bool {
    match combo {
        Some(c) => matches_spec(c, v.ctrl, v.shift, v.alt, v.meta, v.names),
        None => false,
    }
}

impl HookListener {
    pub fn new() -> (l: HookListener)
        ensures
            !l.was_down,
            keyboard_view(l.state) == (KeyboardView {
                ctrl: false,
                shift: false,
                alt: false,
                meta: false,
                names: Set::empty(),
            }),
    {
        HookListener { state: KeyboardState::default(), was_down: false }
    }

    /// A key event of the hook: the keyboard state follows it, and the
    /// change of whether the combination is held is reported as an edge.
    /// `combo` is `None` when the combination could not be read (its lock
    /// was taken), which counts as not held.
    pub fn on_key(&mut self, down: bool, key: HookKey, combo: Option<&HotkeyCombo>) -> (r: Option<HotkeyEvent>)
        ensures
            keyboard_view(final(self).state) == after_hook_key(keyboard_view(old(self).state), down, key),
            final(self).was_down == held_by(
                match combo {
                    Some(c) => Some(c.state()),
                    None => None,
                },
                keyboard_view(final(self).state),
            ),
            r == edge(final(self).was_down, old(self).was_down),
    {
        apply_event(&mut self.state, down, key);
        let is_down = match combo {
            Some(c) => c.matches_raw(self.state.ctrl, self.state.shift, self.state.alt, self.state.meta, &self.state.keys),
            None => false,
        };
        let r = fallback_edge(is_down, self.was_down);
        self.was_down = is_down;
        r
    }
}

/// Edges always alternate: a press is reported only when the combination
/// was not held, a release only when it was, and each one flips the state.
pub proof fn lemma_edges_alternate(now: bool, before: bool)
    ensures
        edge(now, before) == Some(HotkeyEvent::Pressed) ==> !before && now,
        edge(now, before) == Some(HotkeyEvent::Released) ==> before && !now,
        edge(now, before) is None ==> now == before,
{
}

/// The polling side of the hotkey: whether the combination was held at the
/// last event that the user interface saw.
pub struct EdgePoller {
    pub last_pressed: bool,
}

impl EdgePoller {
    /// An event taken from the hook's queue is passed on as it is.
    pub fn from_queue(&mut self, event: HotkeyEvent) -> (r: HotkeyEvent)
        ensures
            r == event,
            final(self).last_pressed == (event == HotkeyEvent::Pressed),
    {
        self.last_pressed = match event {
            HotkeyEvent::Pressed => true,
            HotkeyEvent::Released => false,
        };
        event
    }

    /// With the queue empty, the polled state gives the edge, if any.
    pub fn from_poll(&mut self, pressed: bool) -> (r: Option<HotkeyEvent>)
        ensures
            r == edge(pressed, old(self).last_pressed),
            final(self).last_pressed == pressed,
    {
        let r = fallback_edge(pressed, self.last_pressed);
        self.last_pressed = pressed;
        r
    }
}

} // verus!
