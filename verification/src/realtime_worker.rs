//! The decisions of the realtime worker: how the stream is framed for each
//! provider, when local voice detection is used, what a control message
//! does to the worker, and how events reach the user interface.
use vstd::prelude::*;
use crate::config::{AppConfig, ProviderKind, RealtimeConfig, TranscriptionMode};
use crate::realtime::RealtimeEvent;
use crate::vad::VadTiming;

verus! {

/// The worker's audio is cut into frames of this many milliseconds.
pub const FRAME_MS: u64 = 10;

/// What the worker reports to the user interface.
#[derive(Debug, Clone)]
pub enum WorkerMessage {
    Event(RealtimeEvent),
    Failed(String),
    Stopped,
}

/// The number of whole frames of `frame_ms` that cover `duration_ms`,
/// rounded up, and at least one.
pub open spec fn frames_spec(duration_ms: u64, frame_ms: u64) -> int {
    let n = (duration_ms + frame_ms - 1) / (frame_ms as int);
    if n < 1 {
        1
    } else {
        n
    }
}

/// How many frames of `frame_ms` a duration takes, as a `u64`.
fn frame_count(duration_ms: u64, frame_ms: u64) -> (r: u64)
    requires
        frame_ms > 0,
    ensures
        r == frames_spec(duration_ms, frame_ms),
{
    let q = duration_ms / frame_ms;
    proof {
        assert(duration_ms % frame_ms != 0 ==> q < u64::MAX) by (nonlinear_arith)
            requires
                frame_ms > 0,
                q == duration_ms / frame_ms,
        ;
    }
    let n = if duration_ms % frame_ms == 0 { q } else { q + 1 };
    proof {
        assert(n == (duration_ms + frame_ms - 1) / (frame_ms as int)) by (nonlinear_arith)
            requires
                frame_ms > 0,
                q == duration_ms / frame_ms,
                n == (if duration_ms % frame_ms == 0 { q as int } else { q + 1 }),
        ;
    }
    if n < 1 {
        1
    } else {
        n
    }
}

/// How many frames of `frame_ms` a duration takes (see `frames_spec`).
pub fn frames(duration_ms: u64, frame_ms: u64) -> (r: usize)
    requires
        frame_ms > 0,
        frames_spec(duration_ms, frame_ms) <= usize::MAX,
    ensures
        r == frames_spec(duration_ms, frame_ms),
{
    frame_count(duration_ms, frame_ms) as usize
}

/// The frame counts of the local detector, from the realtime settings.
pub fn vad_timing(config: &RealtimeConfig) -> (t: VadTiming)
    requires
        config.max_utterance_secs * 1000 <= u64::MAX,
        frames_spec(config.vad_pre_roll_ms, FRAME_MS) <= usize::MAX,
        frames_spec(config.vad_min_speech_ms, FRAME_MS) < usize::MAX,
        frames_spec(config.vad_silence_ms, FRAME_MS) <= usize::MAX,
        frames_spec((config.max_utterance_secs * 1000) as u64, FRAME_MS) < usize::MAX,
    ensures
        t.pre_roll_frames == frames_spec(config.vad_pre_roll_ms, FRAME_MS),
        t.min_speech_frames == frames_spec(config.vad_min_speech_ms, FRAME_MS),
        t.silence_frames == frames_spec(config.vad_silence_ms, FRAME_MS),
        t.max_utterance_frames == frames_spec((config.max_utterance_secs * 1000) as u64, FRAME_MS),
{
    VadTiming {
        pre_roll_frames: frames(config.vad_pre_roll_ms, FRAME_MS),
        min_speech_frames: frames(config.vad_min_speech_ms, FRAME_MS),
        silence_frames: frames(config.vad_silence_ms, FRAME_MS),
        max_utterance_frames: frames(config.max_utterance_secs * 1000, FRAME_MS),
    }
}

/// The realtime settings' durations can be counted in frames on this
/// machine: the longest utterance in milliseconds fits a `u64`, and each
/// frame count fits a `usize` (the speech and utterance counts with room
/// to count one more).
pub open spec fn vad_timing_fits(config: RealtimeConfig) -> bool {
    &&& config.max_utterance_secs * 1000 <= u64::MAX
    &&& frames_spec(config.vad_pre_roll_ms, FRAME_MS) <= usize::MAX
    &&& frames_spec(config.vad_min_speech_ms, FRAME_MS) < usize::MAX
    &&& frames_spec(config.vad_silence_ms, FRAME_MS) <= usize::MAX
    &&& frames_spec((config.max_utterance_secs * 1000) as u64, FRAME_MS) < usize::MAX
}

/// The frame counts of the local detector when the settings can be counted
/// in frames (see `vad_timing_fits`); none otherwise.
pub fn checked_vad_timing(config: &RealtimeConfig) -> (t: Option<VadTiming>)
    ensures
        vad_timing_fits(*config) ==> (t matches Some(v) && v.pre_roll_frames == frames_spec(
            config.vad_pre_roll_ms,
            FRAME_MS,
        ) && v.min_speech_frames == frames_spec(config.vad_min_speech_ms, FRAME_MS) && v.silence_frames
            == frames_spec(config.vad_silence_ms, FRAME_MS) && v.max_utterance_frames == frames_spec(
            (config.max_utterance_secs * 1000) as u64,
            FRAME_MS,
        )),
        !vad_timing_fits(*config) ==> t is None,
{
    let limit = usize::MAX as u64;
    proof {
        assert(limit == usize::MAX);
    }
    let utterance_ms = match config.max_utterance_secs.checked_mul(1000) {
        Some(ms) => ms,
        None => return None,
    };
    if frame_count(config.vad_pre_roll_ms, FRAME_MS) > limit
        || frame_count(config.vad_min_speech_ms, FRAME_MS) >= limit
        || frame_count(config.vad_silence_ms, FRAME_MS) > limit
        || frame_count(utterance_ms, FRAME_MS) >= limit
    {
        return None;
    }
    Some(vad_timing(config))
}

/// Continuous dictation ends utterances on the client, unless xAI's own
/// turn detection is on.
pub open spec fn local_vad_spec(config: AppConfig) -> bool {
    config.transcription_mode == TranscriptionMode::ContinuousDictation && (config.provider
        == ProviderKind::OpenAi || !config.realtime.xai_smart_turn_enabled)
}

/// Whether the worker ends utterances with its own voice detection.
pub fn uses_local_vad(config: &AppConfig) -> (b: bool)
    ensures
        b == local_vad_spec(*config),
{
    let continuous = match config.transcription_mode {
        TranscriptionMode::ContinuousDictation => true,
        _ => false,
    };
    let openai = match config.provider {
        ProviderKind::OpenAi => true,
        _ => false,
    };
    continuous && (openai || !config.realtime.xai_smart_turn_enabled)
}

/// The sample rate and the largest audio message of a provider's realtime
/// stream; OpenRouter has none.
pub fn stream_format(provider: ProviderKind) -> (r: Option<(u32, usize)>)
    ensures
        r == (match provider {
            ProviderKind::OpenAi => Some((24000u32, 2400usize)),
            ProviderKind::Xai => Some((16000u32, 1600usize)),
            ProviderKind::OpenRouter => None,
        }),
{
    match provider {
        ProviderKind::OpenAi => Some((crate::realtime::openai::SAMPLE_RATE, crate::realtime::openai::MAX_FRAME_SAMPLES)),
        ProviderKind::Xai => Some((crate::realtime::xai::SAMPLE_RATE, crate::realtime::xai::MAX_FRAME_SAMPLES)),
        ProviderKind::OpenRouter => None,
    }
}

/// One read of the worker's control channel.
#[derive(Debug, Clone, Copy, PartialEq, Eq, Structural)]
pub enum ControlRead {
    Finalize,
    Cancel,
    Closed,
    Empty,
}

/// What the worker does after reading its control channel.
#[derive(Debug, Clone, Copy, PartialEq, Eq, Structural)]
pub enum ControlStep {
    /// Cancel the session and stop.
    Stop,
    /// Go on; a finalize is pending when the flag is set.
    Continue(bool),
}

/// A cancel, or a control channel whose sender is gone, stops the worker;
/// a finalize request stays pending until it is carried out.
pub fn control_step(cancelled: bool, finalize_requested: bool, read: ControlRead) -> (r: ControlStep)
    ensures
        r == (if cancelled {
            ControlStep::Stop
        } else {
            match read {
                ControlRead::Finalize => ControlStep::Continue(true),
                ControlRead::Cancel => ControlStep::Stop,
                ControlRead::Closed => ControlStep::Stop,
                ControlRead::Empty => ControlStep::Continue(finalize_requested),
            }
        }),
{
    if cancelled {
        return ControlStep::Stop;
    }
    match read {
        ControlRead::Finalize => ControlStep::Continue(true),
        ControlRead::Cancel => ControlStep::Stop,
        ControlRead::Closed => ControlStep::Stop,
        ControlRead::Empty => ControlStep::Continue(finalize_requested),
    }
}

/// The stream is finalized only once a finalize was asked for and the
/// audio producer has gone, so that all audio was sent first.
pub fn finalize_now(finalize_requested: bool, producer_closed: bool) -> (b: bool)
    ensures
        b == (finalize_requested && producer_closed),
{
    finalize_requested && producer_closed
}

/// A session error ends the worker with that error; every other event is
/// passed on to the user interface.
pub fn route_event(event: RealtimeEvent) -> (r: Result<WorkerMessage, String>)
    ensures
        match event {
            RealtimeEvent::Error(e) => r == Err::<WorkerMessage, String>(e),
            _ => r matches Ok(WorkerMessage::Event(ev)) && ev == event,
        },
{
    match event {
        RealtimeEvent::Error(e) => Err(e),
        other => Ok(WorkerMessage::Event(other)),
    }
}

/// The frames cut from `s`, `n` elements each, and what is left over.
pub open spec fn split_frames<T>(s: Seq<T>, n: nat) -> (Seq<Seq<T>>, Seq<T>)
    decreases s.len(),
{
    if n > 0 && s.len() >= n {
        let rest = split_frames(s.skip(n as int), n);
        (seq![s.take(n as int)] + rest.0, rest.1)
    } else {
        (Seq::<Seq<T>>::empty(), s)
    }
}

/// At the end of a stream a partial frame is completed with `pad`.
pub open spec fn padded<T>(s: Seq<T>, n: nat, pad: T, finishing: bool) -> Seq<T> {
    if finishing && s.len() > 0 && n > 0 && s.len() % n != 0 {
        s + Seq::new((n - s.len() % n) as nat, |i: int| pad)
    } else {
        s
    }
}

/// Cuts a stream of samples into frames of a fixed size, carrying the
/// remainder over to the next call.
pub struct Framer<T> {
    frame_samples: usize,
    carry: Vec<T>,
}

impl<T> Framer<T> {
    /// What is carried over is always less than one frame.
    #[verifier::type_invariant]
    closed spec fn wf(self) -> bool {
        self.carry@.len() < self.frame_samples
    }
}

impl<T: Copy> Framer<T> {
    pub closed spec fn carry_spec(&self) -> Seq<T> {
        self.carry@
    }

    pub closed spec fn frame_samples_spec(&self) -> nat {
        self.frame_samples as nat
    }


    /// A framer for frames of `frame_samples` samples (one, at least).
    pub fn new(frame_samples: usize) -> (f: Framer<T>)
        ensures
            f.frame_samples_spec() == if frame_samples == 0 { 1 } else { frame_samples },
            f.carry_spec() == Seq::<T>::empty(),
    {
        Framer { frame_samples: if frame_samples == 0 { 1 } else { frame_samples }, carry: Vec::new() }
    }

    /// Adds `output` to what was carried over and hands out the whole
    /// frames; at the end of the stream (`finishing`) a partial frame is
    /// completed with `pad`.
    pub fn frameize(&mut self, output: &[T], finishing: bool, pad: T) -> (r: Vec<Vec<T>>)
        requires
            old(self).carry_spec().len() + output@.len() + old(self).frame_samples_spec() <= usize::MAX,
        ensures
            final(self).carry_spec().len() < final(self).frame_samples_spec(),
            final(self).frame_samples_spec() == old(self).frame_samples_spec(),
            r@.map_values(|f: Vec<T>| f@) == split_frames(
                padded(old(self).carry_spec() + output@, old(self).frame_samples_spec(), pad, finishing),
                old(self).frame_samples_spec(),
            ).0,
            final(self).carry_spec() == split_frames(
                padded(old(self).carry_spec() + output@, old(self).frame_samples_spec(), pad, finishing),
                old(self).frame_samples_spec(),
            ).1,
    {
        proof {
            use_type_invariant(&*self);
        }
        let n = self.frame_samples;
        let mut all: Vec<T> = Vec::new();
        let mut i: usize = 0;
        while i < self.carry.len()
            invariant
                i <= self.carry@.len(),
                all@ == self.carry@.take(i as int),
            decreases self.carry@.len() - i,
        {
            all.push(self.carry[i]);
            proof {
                assert(self.carry@.take(i + 1) =~= self.carry@.take(i as int).push(self.carry@[i as int]));
            }
            i += 1;
        }
        proof {
            assert(self.carry@.take(i as int) =~= self.carry@);
        }
        let ghost c0 = all@;
        let mut j: usize = 0;
        while j < output.len()
            invariant
                j <= output@.len(),
                all@ == c0 + output@.take(j as int),
            decreases output@.len() - j,
        {
            all.push(output[j]);
            proof {
                assert(c0 + output@.take(j + 1) =~= (c0 + output@.take(j as int)).push(output@[j as int]));
            }
            j += 1;
        }
        proof {
            assert(output@.take(j as int) =~= output@);
        }
        let ghost joined = all@;
        if finishing && all.len() > 0 && all.len() % n != 0 {
            let missing = n - all.len() % n;
            let mut k: usize = 0;
            while k < missing
                invariant
                    k <= missing,
                    missing == n - (joined.len() as int) % (n as int),
                    all@ == joined + Seq::new(k as nat, |i: int| pad),
                    joined.len() + n <= usize::MAX,
                decreases missing - k,
            {
                all.push(pad);
                proof {
                    assert(joined + Seq::new((k + 1) as nat, |i: int| pad) =~= (joined + Seq::new(k as nat, |i: int| pad)).push(pad));
                }
                k += 1;
            }
        }
        let ghost full = all@;
        proof {
            assert(full == padded(joined, n as nat, pad, finishing));
        }
        let mut frames: Vec<Vec<T>> = Vec::new();
        let mut start: usize = 0;
        proof {
            assert(full.skip(0) =~= full);
            assert(frames@.map_values(|f: Vec<T>| f@) + split_frames(full, n as nat).0 =~= split_frames(full, n as nat).0);
        }
        while n <= all.len() - start
            invariant
                n > 0,
                all@ == full,
                full.len() <= usize::MAX,
                start <= full.len(),
                frames@.map_values(|f: Vec<T>| f@) + split_frames(full.skip(start as int), n as nat).0
                    == split_frames(full, n as nat).0,
                split_frames(full.skip(start as int), n as nat).1 == split_frames(full, n as nat).1,
            decreases full.len() - start,
        {
            let mut frame: Vec<T> = Vec::new();
            let mut m: usize = 0;
            while m < n
                invariant
                    m <= n,
                    start + n <= full.len(),
                    full.len() <= usize::MAX,
                    all@ == full,
                    frame@ == full.subrange(start as int, start + m),
                decreases n - m,
            {
                frame.push(all[start + m]);
                proof {
                    assert(full.subrange(start as int, start + m + 1) =~= full.subrange(start as int, start + m).push(full[start + m]));
                }
                m += 1;
            }
            let ghost rest = full.skip(start as int);
            proof {
                assert(rest.take(n as int) =~= frame@);
                assert(rest.skip(n as int) =~= full.skip(start + n));
            }
            let ghost before = frames@.map_values(|f: Vec<T>| f@);
            frames.push(frame);
            proof {
                assert(frames@.map_values(|f: Vec<T>| f@) =~= before.push(rest.take(n as int)));
                let tail = split_frames(rest.skip(n as int), n as nat).0;
                assert(before + (seq![rest.take(n as int)] + tail) =~= before.push(rest.take(n as int)) + tail);
            }
            start = start + n;
        }
        let mut left: Vec<T> = Vec::new();
        let mut p: usize = start;
        while p < all.len()
            invariant
                start <= p <= full.len(),
                all@ == full,
                left@ == full.subrange(start as int, p as int),
            decreases full.len() - p,
        {
            left.push(all[p]);
            proof {
                assert(full.subrange(start as int, p + 1) =~= full.subrange(start as int, p as int).push(full[p as int]));
            }
            p += 1;
        }
        proof {
            let rest = full.skip(start as int);
            assert(left@ =~= rest);
            assert(split_frames(rest, n as nat).0 =~= Seq::<Seq<T>>::empty());
            assert(frames@.map_values(|f: Vec<T>| f@) + Seq::<Seq<T>>::empty() =~= frames@.map_values(|f: Vec<T>| f@));
        }
        self.carry = left;
        frames
    }
}

} // verus!
