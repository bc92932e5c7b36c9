//! Client-side voice activity detection for continuous dictation. Frames
//! arrive one at a time, each already judged active (loud enough) or not;
//! the detector keeps a little audio from before speech, starts an
//! utterance after enough active frames, and ends it after enough silence
//! or when it grows too long.
use vstd::prelude::*;

verus! {

/// The frame counts that drive the detector.
#[derive(Debug, Clone, Copy)]
pub struct VadTiming {
    /// Quiet frames kept from before speech and sent with it.
    pub pre_roll_frames: usize,
    /// Consecutive active frames needed to start an utterance.
    pub min_speech_frames: usize,
    /// Consecutive quiet frames that end an utterance.
    pub silence_frames: usize,
    /// Frames after which an utterance is ended whatever is heard.
    pub max_utterance_frames: usize,
}

#[derive(Debug, Clone, Copy, PartialEq, Eq, Structural)]
pub enum VadEndReason {
    Silence,
    MaxDuration,
}

/// What one frame makes the detector report.
#[derive(Debug, Clone)]
pub enum VadEvent<F> {
    /// An utterance started; these frames (the kept pre-roll, then the
    /// active frames that started it) are its beginning.
    Started { audio: Vec<F> },
    /// The utterance goes on with this frame.
    Continued(F),
    /// The utterance ended.
    Ended(VadEndReason),
}

pub enum VadEventView<F> {
    Started(Seq<F>),
    Continued(F),
    Ended(VadEndReason),
}

pub open spec fn event_view<F>(e: VadEvent<F>) -> VadEventView<F> {
    match e {
        VadEvent::Started { audio } => VadEventView::Started(audio@),
        VadEvent::Continued(f) => VadEventView::Continued(f),
        VadEvent::Ended(r) => VadEventView::Ended(r),
    }
}

pub open spec fn events_view<F>(v: Seq<VadEvent<F>>) -> Seq<VadEventView<F>> {
    v.map_values(|e: VadEvent<F>| event_view(e))
}

/// The detector's state in the mathematical world.
pub struct VadView<F> {
    pub speaking: bool,
    pub utterance_frames: nat,
    pub silence_frames: nat,
    pub pre_roll: Seq<F>,
    pub candidate: Seq<F>,
}

/// The state between utterances, with nothing kept.
pub open spec fn idle<F>() -> VadView<F> {
    VadView {
        speaking: false,
        utterance_frames: 0,
        silence_frames: 0,
        pre_roll: Seq::<F>::empty(),
        candidate: Seq::<F>::empty(),
    }
}

/// The last `n` elements of `s` (all of them when there are fewer).
pub open spec fn keep_last<F>(s: Seq<F>, n: nat) -> Seq<F> {
    if s.len() <= n {
        s
    } else {
        s.skip(s.len() - n)
    }
}

/// What one frame does to the detector, and what it reports.
pub open spec fn vad_step<F>(t: VadTiming, st: VadView<F>, frame: F, active: bool) -> (
    VadView<F>,
    Seq<VadEventView<F>>,
) {
    if st.speaking {
        let u = st.utterance_frames + 1;
        if u >= t.max_utterance_frames {
            (
                idle(),
                seq![VadEventView::Continued(frame), VadEventView::Ended(VadEndReason::MaxDuration)],
            )
        } else if active {
            (VadView { utterance_frames: u, silence_frames: 0, ..st }, seq![VadEventView::Continued(frame)])
        } else {
            let s = st.silence_frames + 1;
            if s >= t.silence_frames {
                (idle(), seq![VadEventView::Ended(VadEndReason::Silence)])
            } else {
                (VadView { utterance_frames: u, silence_frames: s, ..st }, Seq::<VadEventView<F>>::empty())
            }
        }
    } else if active {
        let c = st.candidate.push(frame);
        if c.len() >= t.min_speech_frames {
            (
                VadView {
                    speaking: true,
                    utterance_frames: t.min_speech_frames as nat,
                    silence_frames: 0,
                    pre_roll: Seq::<F>::empty(),
                    candidate: Seq::<F>::empty(),
                },
                seq![VadEventView::Started(st.pre_roll + c)],
            )
        } else {
            (VadView { candidate: c, ..st }, Seq::<VadEventView<F>>::empty())
        }
    } else {
        (
            VadView {
                candidate: Seq::<F>::empty(),
                pre_roll: keep_last(st.pre_roll.push(frame), t.pre_roll_frames as nat),
                ..st
            },
            Seq::<VadEventView<F>>::empty(),
        )
    }
}

/// The detector.
pub struct ClientVad<F> {
    timing: VadTiming,
    pre_roll: Vec<F>,
    candidate: Vec<F>,
    speaking: bool,
    utterance_frames: usize,
    silence_frames: usize,
}

/// The counters stay within reach of their limits, so counting never
/// overflows, and the kept pre-roll never outgrows its size.
pub open spec fn view_ok<F>(t: VadTiming, st: VadView<F>) -> bool {
    &&& t.min_speech_frames < usize::MAX
    &&& t.max_utterance_frames < usize::MAX
    &&& st.pre_roll.len() <= t.pre_roll_frames
    &&& st.utterance_frames <= t.min_speech_frames || st.utterance_frames < t.max_utterance_frames
    &&& st.silence_frames == 0 || st.silence_frames < t.silence_frames
    &&& st.speaking ==> st.pre_roll.len() == 0 && st.candidate.len() == 0
    &&& !st.speaking ==> st.candidate.len() < t.min_speech_frames || st.candidate.len() == 0
}

impl<F> ClientVad<F> {
    pub closed spec fn timing_spec(&self) -> VadTiming {
        self.timing
    }

    pub closed spec fn view_state(&self) -> VadView<F> {
        VadView {
            speaking: self.speaking,
            utterance_frames: self.utterance_frames as nat,
            silence_frames: self.silence_frames as nat,
            pre_roll: self.pre_roll@,
            candidate: self.candidate@,
        }
    }

    pub open spec fn wf(&self) -> bool {
        view_ok(self.timing_spec(), self.view_state())
    }

    /// A detector between utterances, with nothing kept.
    pub fn new(timing: VadTiming) -> (v: ClientVad<F>)
        requires
            timing.min_speech_frames < usize::MAX,
            timing.max_utterance_frames < usize::MAX,
        ensures
            v.wf(),
            v.timing_spec() == timing,
            v.view_state() == idle::<F>(),
    {
        let v = ClientVad {
            timing,
            pre_roll: Vec::new(),
            candidate: Vec::new(),
            speaking: false,
            utterance_frames: 0,
            silence_frames: 0,
        };
        proof {
            assert(v.view_state() =~= idle::<F>());
        }
        v
    }

    /// Whether an utterance is going on.
    pub fn is_speaking(&self) -> (b: bool)
        ensures
            b == self.view_state().speaking,
    {
        self.speaking
    }

    fn reset_after_endpoint(&mut self)
        ensures
            final(self).view_state() == idle::<F>(),
            final(self).timing_spec() == old(self).timing_spec(),
    {
        self.speaking = false;
        self.utterance_frames = 0;
        self.silence_frames = 0;
        self.candidate.clear();
        self.pre_roll.clear();
        proof {
            assert(self.view_state() =~= idle::<F>());
        }
    }

    /// Takes the next frame, judged `active` or not (see `vad_step`).
    pub fn push(&mut self, frame: F, active: bool) -> (r: Vec<VadEvent<F>>)
        requires
            old(self).wf(),
        ensures
            final(self).wf(),
            final(self).timing_spec() == old(self).timing_spec(),
            final(self).view_state() == vad_step(old(self).timing_spec(), old(self).view_state(), frame, active).0,
            events_view(r@) == vad_step(old(self).timing_spec(), old(self).view_state(), frame, active).1,
    {
        let ghost st = self.view_state();
        let ghost t = self.timing;
        let ghost fr = frame;
        let mut events: Vec<VadEvent<F>> = Vec::new();
        if self.speaking {
            self.utterance_frames = self.utterance_frames + 1;
            if self.utterance_frames >= self.timing.max_utterance_frames {
                self.reset_after_endpoint();
                events.push(VadEvent::Continued(frame));
                events.push(VadEvent::Ended(VadEndReason::MaxDuration));
                proof {
                    assert(events_view(events@) =~= vad_step(t, st, fr, active).1);
                }
                return events;
            }
            if active {
                self.silence_frames = 0;
                events.push(VadEvent::Continued(frame));
                proof {
                    assert(events_view(events@) =~= vad_step(t, st, fr, active).1);
                    assert(self.view_state() =~= vad_step(t, st, fr, active).0);
                }
                return events;
            }
            self.silence_frames = self.silence_frames + 1;
            if self.silence_frames >= self.timing.silence_frames {
                self.reset_after_endpoint();
                events.push(VadEvent::Ended(VadEndReason::Silence));
                proof {
                    assert(events_view(events@) =~= vad_step(t, st, fr, active).1);
                }
                return events;
            }
            proof {
                assert(events_view(events@) =~= vad_step(t, st, fr, active).1);
                assert(self.view_state() =~= vad_step(t, st, fr, active).0);
            }
            return events;
        }
        if active {
            self.candidate.push(frame);
            if self.candidate.len() >= self.timing.min_speech_frames {
                let mut audio: Vec<F> = Vec::new();
                std::mem::swap(&mut audio, &mut self.pre_roll);
                let mut c: Vec<F> = Vec::new();
                std::mem::swap(&mut c, &mut self.candidate);
                audio.append(&mut c);
                self.speaking = true;
                self.utterance_frames = self.timing.min_speech_frames;
                self.silence_frames = 0;
                events.push(VadEvent::Started { audio });
                proof {
                    assert(events_view(events@) =~= vad_step(t, st, fr, active).1);
                    assert(self.view_state() =~= vad_step(t, st, fr, active).0);
                }
                return events;
            }
            proof {
                assert(events_view(events@) =~= vad_step(t, st, fr, active).1);
                assert(self.view_state() =~= vad_step(t, st, fr, active).0);
            }
            return events;
        }
        self.candidate.clear();
        self.pre_roll.push(frame);
        let ghost pushed = self.pre_roll@;
        while self.pre_roll.len() > self.timing.pre_roll_frames
            invariant
                self.timing == t,
                self.speaking == st.speaking,
                self.utterance_frames == st.utterance_frames,
                self.silence_frames == st.silence_frames,
                self.candidate@ == Seq::<F>::empty(),
                pushed == st.pre_roll.push(fr),
                keep_last(pushed, t.pre_roll_frames as nat) == keep_last(self.pre_roll@, t.pre_roll_frames as nat),
                self.pre_roll@.len() <= pushed.len(),
                self.pre_roll@ == pushed.skip(pushed.len() - self.pre_roll@.len()),
            decreases self.pre_roll@.len(),
        {
            let ghost before = self.pre_roll@;
            self.pre_roll.remove(0);
            proof {
                assert(self.pre_roll@ =~= before.drop_first());
                assert(pushed.skip(pushed.len() - self.pre_roll@.len()) =~= before.drop_first());
                if self.pre_roll@.len() > t.pre_roll_frames {
                    assert(keep_last(self.pre_roll@, t.pre_roll_frames as nat) =~= keep_last(before, t.pre_roll_frames as nat));
                } else {
                    assert(self.pre_roll@ =~= before.skip(before.len() - t.pre_roll_frames));
                }
            }
        }
        proof {
            assert(keep_last(self.pre_roll@, t.pre_roll_frames as nat) == self.pre_roll@);
            assert(self.view_state() =~= vad_step(t, st, fr, active).0);
            assert(events_view(events@) =~= vad_step(t, st, fr, active).1);
        }
        events
    }
}

/// Every utterance boundary is tied to the state: a start only comes
/// between utterances and enters one; an end only comes during one and
/// leaves the detector idle, with nothing kept.
pub proof fn lemma_boundaries_follow_state<F>(t: VadTiming, st: VadView<F>, frame: F, active: bool)
    ensures
        ({
            let (next, events) = vad_step(t, st, frame, active);
            &&& (exists|i: int| 0 <= i < events.len() && #[trigger] events[i] is Started) ==> !st.speaking
                && next.speaking
            &&& (exists|i: int| 0 <= i < events.len() && #[trigger] events[i] is Ended) ==> st.speaking
                && next == idle::<F>()
        }),
{
}

/// A started utterance begins with the kept pre-roll followed by the
/// active frames that started it, this frame last.
pub proof fn lemma_start_carries_pre_roll<F>(t: VadTiming, st: VadView<F>, frame: F)
    requires
        !st.speaking,
        st.candidate.len() + 1 >= t.min_speech_frames,
    ensures
        vad_step(t, st, frame, true).1 == seq![VadEventView::Started(st.pre_roll + st.candidate.push(frame))],
{
}

/// How many of the last inputs in a row were judged inactive.
pub open spec fn inactive_run<F>(inputs: Seq<(F, bool)>) -> nat
    decreases inputs.len(),
{
    if inputs.len() == 0 || inputs.last().1 {
        0
    } else {
        inactive_run(inputs.drop_last()) + 1
    }
}

/// A detector that starts idle and is fed `inputs` (each a frame and
/// whether it is active), one `push` after another: its state, and what
/// the last push reported.
pub open spec fn vad_run<F>(t: VadTiming, inputs: Seq<(F, bool)>) -> (VadView<F>, Seq<VadEventView<F>>)
    decreases inputs.len(),
{
    if inputs.len() == 0 {
        (idle::<F>(), Seq::<VadEventView<F>>::empty())
    } else {
        vad_step(t, vad_run(t, inputs.drop_last()).0, inputs.last().0, inputs.last().1)
    }
}

/// Silence is counted in consecutive quiet frames: during an utterance the
/// quiet count is the number of inactive frames since the last active one,
/// so an active frame starts it again; and an utterance is ended for
/// silence exactly when an inactive frame completes `silence_frames`
/// inactive frames in a row (unless it reached its longest length first).
pub proof fn law_silence_is_consecutive_quiet<F>(t: VadTiming, inputs: Seq<(F, bool)>)
    ensures
        vad_run(t, inputs).0.speaking ==> vad_run(t, inputs).0.silence_frames == inactive_run(inputs),
        (exists|k: int| 0 <= k < vad_run(t, inputs).1.len() && #[trigger] vad_run(t, inputs).1[k]
            == VadEventView::<F>::Ended(VadEndReason::Silence)) ==> inputs.len() > 0 && !inputs.last().1
            && inactive_run(inputs) >= t.silence_frames,
        inputs.len() > 0 && vad_run(t, inputs.drop_last()).0.speaking && !inputs.last().1
            && vad_run(t, inputs.drop_last()).0.utterance_frames + 1 < t.max_utterance_frames ==> (vad_run(t, inputs).1
            == seq![VadEventView::<F>::Ended(VadEndReason::Silence)] <==> inactive_run(inputs) >= t.silence_frames),
    decreases inputs.len(),
{
    if inputs.len() > 0 {
        law_silence_is_consecutive_quiet(t, inputs.drop_last());
        let prev = vad_run(t, inputs.drop_last()).0;
        let r = vad_run(t, inputs);
        if exists|k: int| 0 <= k < r.1.len() && #[trigger] r.1[k] == VadEventView::<F>::Ended(VadEndReason::Silence) {
            let k = choose|k: int| 0 <= k < r.1.len() && #[trigger] r.1[k] == VadEventView::<F>::Ended(VadEndReason::Silence);
            assert(prev.speaking);
            assert(prev.utterance_frames + 1 < t.max_utterance_frames);
            assert(!inputs.last().1);
        }
    }
}

} // verus!
