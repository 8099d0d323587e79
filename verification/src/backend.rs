//! The streaming audio backend: a bounded single-producer/single-consumer
//! queue of samples, a playback position counter that wraps at a large
//! period, and a consumer that decays towards silence on underrun.
//!
//! Samples are signed fixed point: a value of 65535 stands for an amplitude
//! of 1.0. The queue is the one resource shared with the consumer thread, so
//! contracts promise nothing about its momentary fill level; everything the
//! producer decides is tracked exactly in the backend's own state.

use vstd::prelude::*;

verus! {

use vstd::math::abs;

/// Samples consumed per second by the audio device.
pub const SAMPLE_RATE: u32 = 48000;

/// The free room `has_free_space` asks for before a tick may produce.
pub const FRAME_SIZE: usize = 2048;

/// Capacity of the sample queue.
pub const BUFFER: usize = 4096;

/// The playback position wraps at this many samples (256 * 3 seconds).
pub const PERIOD: u32 = 48000 * 256 * 3;

/// One decay step of the consumer on an empty queue: the last emitted sample
/// scaled by 99/100, rounded towards zero.
pub open spec fn spec_decay(v: int) -> int {
    if v >= 0 {
        v * 99 / 100
    } else {
        -((-v) * 99 / 100)
    }
}

/// `h` consecutive decay steps.
pub open spec fn spec_decay_pow(v: int, h: nat) -> int
    decreases h,
{
    if h == 0 {
        v
    } else {
        spec_decay(spec_decay_pow(v, (h - 1) as nat))
    }
}

#[verifier::external_type_specification]
#[verifier::external_body]
#[verifier::reject_recursive_types(T)]
pub struct ExSender<T>(crossbeam_channel::Sender<T>);

#[verifier::external_type_specification]
#[verifier::external_body]
#[verifier::reject_recursive_types(T)]
pub struct ExReceiver<T>(crossbeam_channel::Receiver<T>);

/// Relies on crossbeam_channel::bounded: a fresh queue that holds at most
/// `cap` samples, with the two endpoints sharing it.
#[verifier::external_body]
fn channel(cap: usize) -> (crossbeam_channel::Sender<i64>, crossbeam_channel::Receiver<i64>) {
    crossbeam_channel::bounded(cap)
}

/// Relies on Sender::try_send: enqueues the sample and returns true, or
/// returns false when the queue is full or disconnected. The consumer thread
/// drains the queue concurrently, so no outcome is promised.
#[verifier::external_body]
fn try_send(s: &crossbeam_channel::Sender<i64>, v: i64) -> bool {
    s.try_send(v).is_ok()
}

/// Relies on Sender::len: how many samples sit in the queue at the moment of
/// the call. The consumer drains concurrently, so the value is advisory.
#[verifier::external_body]
fn queue_len(s: &crossbeam_channel::Sender<i64>) -> usize {
    s.len()
}

/// Relies on Receiver::try_recv: pops the oldest queued sample, or returns
/// nothing when the queue is momentarily empty or disconnected.
#[verifier::external_body]
fn try_recv(r: &crossbeam_channel::Receiver<i64>) -> Option<i64> {
    r.try_recv().ok()
}

/// The producer half: owns the queue's sending end and the playback
/// position.
pub struct LoopTunesBackend {
    producer: crossbeam_channel::Sender<i64>,
    position: u32,
    sent_log: Ghost<Seq<i64>>,
}

impl LoopTunesBackend {
    /// The playback position, in samples, always below [`PERIOD`].
    pub closed spec fn position(&self) -> u32 {
        self.position
    }

    /// Every sample ever handed to the queue, in order.
    pub closed spec fn log(&self) -> Seq<i64> {
        self.sent_log@
    }

    pub open spec fn wf(&self) -> bool {
        self.position() < PERIOD
    }

    /// A fresh backend and the consumer fed by it.
    pub fn new() -> (r: (LoopTunesBackend, LoopSource))
        ensures
            r.0.wf(),
            r.0.position() == 0,
            r.0.log() == Seq::<i64>::empty(),
            r.1.last_emitted() == 0,
    {
        let (tx, rx) = channel(BUFFER);
        let backend = LoopTunesBackend { producer: tx, position: 0, sent_log: Ghost(Seq::empty()) };
        let source = LoopSource { consumer: rx, last: 0 };
        (backend, source)
    }

    /// Rewinds playback to the epoch.
    pub fn reset(&mut self)
        ensures
            final(self).wf(),
            final(self).position() == 0,
            final(self).log() == old(self).log(),
    {
        self.position = 0;
    }

    /// Hands every sample to the queue, best effort: a sample that does not
    /// fit is dropped silently. Advances the playback position by the chunk
    /// length, wrapping at [`PERIOD`].
    pub fn send_buffer(&mut self, samples: &Vec<i64>)
        requires
            old(self).wf(),
            samples@.len() <= 0xFFFF_FFFF,
        ensures
            final(self).wf(),
            final(self).position() == (old(self).position() + samples@.len()) % (PERIOD as int),
            final(self).log() == old(self).log() + samples@,
    {
        let mut i: usize = 0;
        while i < samples.len()
            invariant
                i <= samples@.len(),
            decreases samples@.len() - i,
        {
            let _enqueued = try_send(&self.producer, samples[i]);
            i = i + 1;
        }
        self.sent_log = Ghost(self.sent_log@ + samples@);
        let pos: u64 = self.position as u64 + samples.len() as u64;
        self.position = (pos % (PERIOD as u64)) as u32;
    }

    /// True when the queue has room for one more frame. Advisory: the
    /// consumer thread may free more room at any moment.
    pub fn has_free_space(&self) -> bool {
        queue_len(&self.producer) <= BUFFER - FRAME_SIZE
    }

    /// The sample positions of the next frame; position `p` plays at exactly
    /// `p / SAMPLE_RATE` seconds past the epoch. The frame spans the room
    /// that `has_free_space` asks for (`FRAME_SIZE` positions), while one
    /// tick mixes and sends only the first `CHUNK_SIZE` of them; the tail is
    /// deliberate slack matching the frame-sized space check, and the next
    /// tick recomputes its positions from the advanced counter.
    pub fn time_chunk(&self) -> (r: Vec<u32>)
        requires
            self.wf(),
        ensures
            r@.len() == FRAME_SIZE,
            forall|i: int| 0 <= i < FRAME_SIZE ==> r@[i] == self.position() + i,
    {
        let mut r: Vec<u32> = Vec::new();
        let mut i: usize = 0;
        while i < FRAME_SIZE
            invariant
                i <= FRAME_SIZE,
                r@.len() == i,
                self.position < PERIOD,
                forall|j: int| 0 <= j < i ==> r@[j] == self.position() + j,
            decreases FRAME_SIZE - i,
        {
            r.push(self.position + i as u32);
            i = i + 1;
        }
        r
    }

    /// Elapsed playback time as an exact fraction: position over sample
    /// rate, in seconds.
    pub fn elapsed_seconds(&self) -> (r: (u32, u32))
        ensures
            r.0 == self.position(),
            r.1 == SAMPLE_RATE,
    {
        (self.position, SAMPLE_RATE)
    }
}

/// The consumer half: pops queued samples and, when the queue runs dry,
/// repeats the last emitted sample decayed by 99/100 per step, so underruns
/// fade out instead of clicking.
pub struct LoopSource {
    consumer: crossbeam_channel::Receiver<i64>,
    last: i64,
}

impl LoopSource {
    /// The most recently emitted sample.
    pub closed spec fn last_emitted(&self) -> i64 {
        self.last
    }

    /// Emits the next output sample: the oldest queued sample if one is
    /// there, else the last emitted sample decayed one step. The flag tells
    /// whether a queued sample was consumed; it is false on underrun.
    pub fn next_sample(&mut self) -> (r: (i64, bool))
        ensures
            final(self).last_emitted() == r.0,
            !r.1 ==> r.0 == spec_decay(old(self).last_emitted() as int),
    {
        match try_recv(&self.consumer) {
            Some(v) => {
                self.last = v;
                (v, true)
            },
            None => {
                self.last = decay_sample(self.last);
                (self.last, false)
            },
        }
    }
}

/// One underrun decay step, exactly [`spec_decay`].
pub fn decay_sample(v: i64) -> (r: i64)
    ensures
        r == spec_decay(v as int),
{
    if v >= 0 {
        (v as u128 * 99 / 100) as i64
    } else {
        let m: u128 = (-(v as i128)) as u128;
        -((m * 99 / 100) as i64)
    }
}

/// Law: each underrun step keeps the sign of the last sample and shrinks its
/// magnitude, strictly so while it is not yet zero, and a sample of at least
/// a hundred units stays audible for another step; the decayed output thus
/// approaches silence monotonically. (In this fixed-point model a small
/// enough sample decays to exactly zero in finitely many steps, unlike the
/// mathematical `0.99^h`.)
pub proof fn lemma_decay_monotone(v: int)
    ensures
        v >= 0 ==> 0 <= spec_decay(v) <= v,
        v <= 0 ==> v <= spec_decay(v) <= 0,
        v != 0 ==> abs(spec_decay(v)) < abs(v),
        abs(v) >= 100 ==> abs(spec_decay(v)) >= 99,
{
    if v > 0 {
        assert(v * 99 / 100 < v) by (nonlinear_arith)
            requires
                v > 0,
        ;
        assert(v * 99 / 100 >= 0) by (nonlinear_arith)
            requires
                v > 0,
        ;
    } else if v < 0 {
        let m = -v;
        assert(m * 99 / 100 < m) by (nonlinear_arith)
            requires
                m > 0,
        ;
        assert(m * 99 / 100 >= 0) by (nonlinear_arith)
            requires
                m > 0,
        ;
    }
}

/// Law: after `h` consecutive empty reads the consumer's output is the last
/// real sample decayed `h` times, its magnitude never growing with `h`.
pub proof fn lemma_underrun_decay(v: int, h: nat)
    ensures
        abs(spec_decay_pow(v, h)) <= abs(v),
        abs(spec_decay_pow(v, h + 1)) <= abs(spec_decay_pow(v, h)),
    decreases h,
{
    if h == 0 {
        lemma_decay_monotone(v);
    } else {
        lemma_underrun_decay(v, (h - 1) as nat);
        lemma_decay_monotone(spec_decay_pow(v, (h - 1) as nat));
        lemma_decay_monotone(spec_decay_pow(v, h));
    }
}

} // verus!
