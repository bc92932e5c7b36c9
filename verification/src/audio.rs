//! Audio capture bookkeeping: which input device to open, the
//! fixed-capacity ring that keeps the latest samples of a recording, the
//! counters of dropped live audio, and the slot through which the capture
//! callback reports a stream error.
use vstd::prelude::*;
use vstd::string::StringExecFns;
use std::sync::atomic::{AtomicU64, Ordering};
use std::sync::{Arc, Mutex};
use crate::chars::{chars_of, is_blank, push_str, str_eq, string_from_chars, trim};
use crate::config::MAX_RECORDING_DURATION_SECS;
use crate::error::AppError;

verus! {

/// Counters shared between the capture callback and the user interface:
/// live chunks that could not be handed on, and captured samples that
/// could not be stored.
#[derive(Clone)]
pub struct LiveAudioStats {
    dropped_chunks: Arc<AtomicU64>,
    dropped_capture_samples: Arc<AtomicU64>,
}

impl LiveAudioStats {
    /// Fresh counters at zero.
    pub fn default() -> (s: LiveAudioStats) {
        LiveAudioStats {
            dropped_chunks: Arc::new(AtomicU64::new(0)),
            dropped_capture_samples: Arc::new(AtomicU64::new(0)),
        }
    }

    /// The number of live chunks dropped so far. Other threads count
    /// concurrently, so nothing is claimed of the value read.
    pub fn dropped_chunks(&self) -> (n: u64) {
        self.dropped_chunks.load(Ordering::Relaxed)
    }

    /// The number of captured samples dropped so far. Other threads count
    /// concurrently, so nothing is claimed of the value read.
    pub fn dropped_capture_samples(&self) -> (n: u64) {
        self.dropped_capture_samples.load(Ordering::Relaxed)
    }

    /// Counts one more dropped live chunk.
    pub fn record_dropped_chunk(&self) {
        self.dropped_chunks.fetch_add(1, Ordering::Relaxed);
    }

    /// Counts one more dropped captured sample.
    pub fn record_dropped_capture_sample(&self) {
        self.dropped_capture_samples.fetch_add(1, Ordering::Relaxed);
    }
}

/// A ring of at most `capacity` samples that keeps the latest ones: once it
/// is full, each new sample overwrites the oldest, and the overwrites are
/// counted.
pub struct CaptureBuffer<T: Copy> {
    samples: Vec<T>,
    capacity: usize,
    write_index: usize,
    overwritten: u64,
}

impl<T: Copy> CaptureBuffer<T> {
    /// The ring's own bookkeeping is consistent: it never holds more than
    /// its capacity, and the write position is inside the ring.
    #[verifier::type_invariant]
    closed spec fn wf(self) -> bool {
        &&& self.samples@.len() <= self.capacity
        &&& self.samples@.len() < self.capacity ==> self.write_index == 0
        &&& (self.write_index == 0 || self.write_index < self.samples@.len())
    }

    /// The stored samples, oldest first.
    pub closed spec fn contents(self) -> Seq<T> {
        if self.samples@.len() < self.capacity {
            self.samples@
        } else {
            self.samples@.skip(self.write_index as int) + self.samples@.take(self.write_index as int)
        }
    }

    /// How many samples the ring holds at most.
    pub closed spec fn capacity_spec(self) -> nat {
        self.capacity as nat
    }

    /// How many samples were overwritten (saturating at `u64::MAX`).
    pub closed spec fn overwritten_spec(self) -> u64 {
        self.overwritten
    }

    /// `after` is the ring `before` once `sample` was pushed: the capacity
    /// stays; the sample is appended, and when the ring was full the oldest
    /// sample is dropped and the overwrite count goes up by one (saturating);
    /// a ring of capacity zero keeps nothing and counts every push.
    pub open spec fn pushed(before: Self, sample: T, after: Self) -> bool {
        let full = before.contents().len() == before.capacity_spec();
        &&& after.capacity_spec() == before.capacity_spec()
        &&& after.contents() == (if before.capacity_spec() == 0 {
            before.contents()
        } else if full {
            before.contents().drop_first().push(sample)
        } else {
            before.contents().push(sample)
        })
        &&& after.overwritten_spec() == (if full {
            if before.overwritten_spec() == u64::MAX {
                u64::MAX
            } else {
                (before.overwritten_spec() + 1) as u64
            }
        } else {
            before.overwritten_spec()
        })
    }

    /// An empty ring for `capacity` samples.
    pub fn with_capacity(capacity: usize) -> (b: CaptureBuffer<T>)
        ensures
            b.contents() == Seq::<T>::empty(),
            b.capacity_spec() == capacity,
            b.overwritten_spec() == 0,
    {
        CaptureBuffer { samples: Vec::new(), capacity, write_index: 0, overwritten: 0 }
    }

    /// Stores `sample`, overwriting the oldest one when the ring is full,
    /// and tells whether a sample was lost (always, for a ring of capacity
    /// zero, which keeps nothing).
    pub fn push(&mut self, sample: T) -> (lost: bool)
        ensures
            lost == (old(self).contents().len() == old(self).capacity_spec()),
            Self::pushed(*old(self), sample, *final(self)),
    {
        proof {
            use_type_invariant(&*self);
        }
        if self.capacity == 0 {
            self.overwritten = self.overwritten.saturating_add(1);
            proof {
                assert(self.samples@.skip(0) + self.samples@.take(0) =~= Seq::<T>::empty());
            }
            return true;
        }
        let ghost s0 = self.samples@;
        let w = self.write_index;
        if self.samples.len() < self.capacity {
            let mut v: Vec<T> = Vec::new();
            std::mem::swap(&mut v, &mut self.samples);
            v.push(sample);
            self.samples = v;
            proof {
                let s1 = self.samples@;
                if s1.len() == self.capacity {
                    assert(s1.skip(0) + s1.take(0) =~= s1);
                }
            }
            false
        } else {
            self.write_index = 0;
            let mut v: Vec<T> = Vec::new();
            std::mem::swap(&mut v, &mut self.samples);
            v.set(w, sample);
            self.samples = v;
            self.write_index = if w + 1 == self.capacity { 0 } else { w + 1 };
            self.overwritten = self.overwritten.saturating_add(1);
            proof {
                let s1 = self.samples@;
                let before = s0.skip(w as int) + s0.take(w as int);
                if w + 1 == self.capacity {
                    assert(s1.skip(0) + s1.take(0) =~= before.drop_first().push(sample));
                } else {
                    assert(s1.skip(w + 1) + s1.take(w + 1) =~= before.drop_first().push(sample));
                }
            }
            true
        }
    }

    /// The stored samples, oldest first.
    pub fn ordered_samples(&self) -> (r: Vec<T>)
        ensures
            r@ == self.contents(),
    {
        proof {
            use_type_invariant(self);
        }
        let mut out: Vec<T> = Vec::new();
        if self.samples.len() < self.capacity {
            let mut i: usize = 0;
            while i < self.samples.len()
                invariant
                    i <= self.samples@.len(),
                    out@ == self.samples@.take(i as int),
                decreases self.samples@.len() - i,
            {
                out.push(self.samples[i]);
                proof {
                    assert(self.samples@.take(i + 1) =~= self.samples@.take(i as int).push(self.samples@[i as int]));
                }
                i += 1;
            }
            proof {
                assert(self.samples@.take(i as int) =~= self.samples@);
            }
            return out;
        }
        let w = self.write_index;
        let n = self.samples.len();
        let ghost s = self.samples@;
        proof {
            assert(s.subrange(w as int, w as int) =~= Seq::<T>::empty());
        }
        let mut i: usize = w;
        while i < n
            invariant
                w <= i <= n,
                n == s.len(),
                s == self.samples@,
                out@ == s.subrange(w as int, i as int),
            decreases n - i,
        {
            out.push(self.samples[i]);
            proof {
                assert(s.subrange(w as int, i + 1) =~= s.subrange(w as int, i as int).push(s[i as int]));
            }
            i += 1;
        }
        let mut j: usize = 0;
        while j < w
            invariant
                j <= w <= n,
                n == s.len(),
                s == self.samples@,
                out@ == s.skip(w as int) + s.take(j as int),
            decreases w - j,
        {
            out.push(self.samples[j]);
            proof {
                assert(s.skip(w as int) + s.take(j + 1) =~= (s.skip(w as int) + s.take(j as int)).push(s[j as int]));
            }
            j += 1;
        }
        proof {
            assert(s.subrange(w as int, n as int) =~= s.skip(w as int));
        }
        out
    }

    /// Hands out the stored samples, oldest first, and empties the ring;
    /// the overwrite count starts again at zero.
    pub fn take_ordered(&mut self) -> (r: Vec<T>)
        ensures
            r@ == old(self).contents(),
            final(self).contents() == Seq::<T>::empty(),
            final(self).capacity_spec() == old(self).capacity_spec(),
            final(self).overwritten_spec() == 0,
    {
        proof {
            use_type_invariant(&*self);
        }
        let ordered = self.ordered_samples();
        self.write_index = 0;
        self.samples = Vec::new();
        self.overwritten = 0;
        ordered
    }

    /// How many samples the ring holds at most.
    pub fn storage_capacity(&self) -> (n: usize)
        ensures
            n == self.capacity_spec(),
    {
        self.capacity
    }

    /// How many samples were overwritten since the last take.
    pub fn overwritten_samples(&self) -> (n: u64)
        ensures
            n == self.overwritten_spec(),
    {
        self.overwritten
    }
}

/// The ring keeps the latest samples: after pushing `xs` into a ring that
/// holds `c`, it holds the last `capacity` elements of `c + xs`.
pub open spec fn after_pushes<T>(c: Seq<T>, xs: Seq<T>, capacity: nat) -> Seq<T>
    decreases xs.len(),
{
    if xs.len() == 0 {
        c
    } else {
        let prev = after_pushes(c, xs.drop_last(), capacity);
        if capacity == 0 {
            prev
        } else if prev.len() == capacity {
            prev.drop_first().push(xs.last())
        } else {
            prev.push(xs.last())
        }
    }
}

/// What pushes leave in the ring is the tail of everything pushed: the
/// last `capacity` samples of `c + xs`, when `c` fits in the ring.
pub proof fn lemma_ring_keeps_latest<T>(c: Seq<T>, xs: Seq<T>, capacity: nat)
    requires
        c.len() <= capacity,
    ensures
        after_pushes(c, xs, capacity) == (if (c + xs).len() <= capacity {
            c + xs
        } else {
            (c + xs).skip((c + xs).len() - capacity)
        }),
    decreases xs.len(),
{
    if xs.len() > 0 {
        lemma_ring_keeps_latest(c, xs.drop_last(), capacity);
        let all = c + xs;
        assert(all.drop_last() =~= c + xs.drop_last());
        if capacity == 0 {
            assert(all.skip(all.len() as int) =~= Seq::<T>::empty());
            assert(all.drop_last().skip(all.drop_last().len() as int) =~= Seq::<T>::empty());
        } else if all.len() <= capacity {
            assert(all =~= (c + xs.drop_last()).push(xs.last()));
        } else if all.drop_last().len() <= capacity {
            assert(all.skip(all.len() - capacity) =~= (c + xs.drop_last()).drop_first().push(xs.last()));
        } else {
            let prev = all.drop_last().skip(all.drop_last().len() - capacity);
            assert(all.skip(all.len() - capacity) =~= prev.drop_first().push(xs.last()));
        }
    } else {
        assert(c + xs =~= c);
    }
}

/// `n` as a count that stops at `u64::MAX`; zero when `n` is not positive.
pub open spec fn saturating_count(n: int) -> u64 {
    if n <= 0 {
        0
    } else if n > u64::MAX {
        u64::MAX
    } else {
        n as u64
    }
}

proof fn lemma_pushes_from_empty<T: Copy>(states: Seq<CaptureBuffer<T>>, xs: Seq<T>, n: int)
    requires
        states.len() == xs.len() + 1,
        0 <= n <= xs.len(),
        states[0].contents() == Seq::<T>::empty(),
        states[0].overwritten_spec() == 0,
        forall|k: int| 0 <= k < xs.len() ==> CaptureBuffer::pushed(#[trigger] states[k], xs[k], states[k + 1]),
    ensures
        states[n].capacity_spec() == states[0].capacity_spec(),
        states[n].contents() == after_pushes(Seq::<T>::empty(), xs.take(n), states[0].capacity_spec()),
        states[n].overwritten_spec() == saturating_count(n - states[0].capacity_spec()),
    decreases n,
{
    let cap = states[0].capacity_spec();
    if n == 0 {
        assert(xs.take(0) =~= Seq::<T>::empty());
    } else {
        let m = n - 1;
        lemma_pushes_from_empty(states, xs, m);
        assert(CaptureBuffer::pushed(states[m], xs[m], states[m + 1]));
        lemma_ring_keeps_latest(Seq::<T>::empty(), xs.take(m), cap);
        assert(Seq::<T>::empty() + xs.take(m) =~= xs.take(m));
        assert(xs.take(n).drop_last() =~= xs.take(m));
        assert(xs.take(n).last() == xs[m]);
    }
}

/// Pushing `xs` one by one into an empty ring of capacity `c` leaves the
/// last `c` of them in order, counts `xs.len() - c` overwrites (none when
/// everything fit), and the push of `xs[k]` overwrites exactly when
/// `k >= c`.
pub proof fn law_pushes_keep_the_latest<T: Copy>(states: Seq<CaptureBuffer<T>>, xs: Seq<T>)
    requires
        states.len() == xs.len() + 1,
        states[0].contents() == Seq::<T>::empty(),
        states[0].overwritten_spec() == 0,
        forall|k: int| 0 <= k < xs.len() ==> CaptureBuffer::pushed(#[trigger] states[k], xs[k], states[k + 1]),
    ensures
        states.last().capacity_spec() == states[0].capacity_spec(),
        states.last().contents() == (if xs.len() <= states[0].capacity_spec() {
            xs
        } else {
            xs.skip(xs.len() - states[0].capacity_spec())
        }),
        states.last().overwritten_spec() == saturating_count(xs.len() - states[0].capacity_spec()),
        forall|k: int| 0 <= k < xs.len() ==> ((#[trigger] states[k]).contents().len()
            == states[k].capacity_spec() <==> k >= states[0].capacity_spec()),
{
    let cap = states[0].capacity_spec();
    lemma_pushes_from_empty(states, xs, xs.len() as int);
    lemma_ring_keeps_latest(Seq::<T>::empty(), xs, cap);
    assert(xs.take(xs.len() as int) =~= xs);
    assert(Seq::<T>::empty() + xs =~= xs);
    assert forall|k: int| 0 <= k < xs.len() implies ((#[trigger] states[k]).contents().len()
        == states[k].capacity_spec() <==> k >= cap) by {
        lemma_pushes_from_empty(states, xs, k);
        lemma_ring_keeps_latest(Seq::<T>::empty(), xs.take(k), cap);
        assert(Seq::<T>::empty() + xs.take(k) =~= xs.take(k));
    }
}

#[verifier::external_type_specification]
#[verifier::external_body]
#[verifier::reject_recursive_types(T)]
pub struct ExMutex<T: ?Sized>(Mutex<T>);

/// `Mutex::lock` on the stream-error slot, then storing `message` in it; a
/// poisoned lock leaves the slot as it is. The slot is shared with other
/// threads, so nothing is stated of it.
#[verifier::external_body]
fn put_in_slot(slot: &Arc<Mutex<Option<String>>>, message: String) {
    if let Ok(mut guard) = slot.lock() {
        *guard = Some(message);
    }
}

/// Leaves the latest stream error of the capture callback in `slot`, for
/// the user-interface thread to pick up.
pub fn store_stream_error(slot: &Arc<Mutex<Option<String>>>, message: &str) {
    put_in_slot(slot, String::from_str(message));
}

/// The error shown when the microphone stream broke off with `message`.
pub fn stream_interrupted_error(message: &str) -> (e: AppError)
    ensures
        e matches AppError::Audio(m) && m@ == "麥克風串流中斷："@ + message@,
{
    let mut v = chars_of("麥克風串流中斷：");
    push_str(&mut v, message);
    AppError::Audio(string_from_chars(v.as_slice()))
}


/// Which input device to open.
#[derive(Debug, Clone, Copy, PartialEq, Eq, Structural)]
pub enum DeviceChoice {
    /// The listed device at this index.
    Listed(usize),
    /// The system's default input device.
    Default,
}

/// The listed device at `i` reports the name `q`.
pub open spec fn named(names: Seq<Option<String>>, i: int, q: Seq<char>) -> bool {
    names[i] matches Some(n) && n@ == q
}

/// The requested device name, when one that is not blank was given.
pub open spec fn wanted_device(requested: Option<&str>) -> Option<Seq<char>> {
    match requested {
        Some(q) => if trim(q@).len() != 0 {
            Some(q@)
        } else {
            None
        },
        None => None,
    }
}

/// The device to open: the first listed device whose name is exactly the
/// requested one, when a non-blank name was requested and such a device
/// is listed; otherwise the default device. `names` holds the name of each
/// listed input device, `None` where the name could not be read (the list
/// is empty when the devices could not be listed).
pub fn choose_input_device(names: &[Option<String>], requested: Option<&str>) -> (r: DeviceChoice)
    ensures
        match wanted_device(requested) {
            Some(q) => match r {
                DeviceChoice::Listed(i) => i < names@.len() && named(names@, i as int, q) && forall|j: int|
                    0 <= j < i ==> !named(names@, j, q),
                DeviceChoice::Default => forall|j: int| 0 <= j < names@.len() ==> !named(names@, j, q),
            },
            None => r == DeviceChoice::Default,
        },
{
    let q = match requested {
        Some(q) => q,
        None => {
            return DeviceChoice::Default;
        },
    };
    if is_blank(q) {
        return DeviceChoice::Default;
    }
    let mut i: usize = 0;
    while i < names.len()
        invariant
            i <= names@.len(),
            wanted_device(requested) == Some(q@),
            forall|j: int| 0 <= j < i ==> !named(names@, j, q@),
        decreases names@.len() - i,
    {
        match &names[i] {
            Some(n) => {
                if str_eq(n.as_str(), q) {
                    proof {
                        assert(names@[i as int] == Some(*n));
                        assert(named(names@, i as int, q@));
                    }
                    return DeviceChoice::Listed(i);
                }
            },
            None => {},
        }
        i += 1;
    }
    DeviceChoice::Default
}


/// The microphone is already recording.
pub const ALREADY_RECORDING_MESSAGE: &'static str = "麥克風已在錄音中";

/// No input device could be found.
pub const NO_INPUT_DEVICE_MESSAGE: &'static str = "找不到麥克風輸入裝置";

/// How many samples the capture ring keeps: the longest recording at the
/// device's rate, for every channel (at least one).
pub fn capture_capacity(sample_rate: u32, channels: u16) -> (n: usize)
    requires
        sample_rate * (if channels == 0 { 1 } else { channels as int }) * MAX_RECORDING_DURATION_SECS <= usize::MAX,
    ensures
        n == sample_rate * (if channels == 0 { 1 } else { channels as int }) * MAX_RECORDING_DURATION_SECS,
{
    let ch: usize = if channels == 0 {
        1
    } else {
        channels as usize
    };
    let per_second = (sample_rate as usize) * ch;
    proof {
        assert(per_second * MAX_RECORDING_DURATION_SECS <= usize::MAX);
    }
    per_second * (MAX_RECORDING_DURATION_SECS as usize)
}

} // verus!
