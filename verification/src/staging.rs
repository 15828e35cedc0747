//! The capture-to-segmenter staging buffer.
//!
//! A lock-free single-producer / single-consumer ring of fixed-point samples:
//! the device callback thread owns the producer half and the segmenter owns
//! the consumer half.  When the ring is full, pushes fail silently and the
//! newest samples are dropped; an empty pull is normal and yields an empty
//! frame.  Because the other half lives on another thread, nothing stable can
//! be promised about what a pull returns; the pipeline downstream is verified
//! for every frame the ring may hand out.

use vstd::prelude::*;

verus! {

/// Producer half of the staging ring, owned by the capture callback.
///
/// Holds a `ringbuf::HeapProducer<i16>`; the ring's generic writer type
/// carries trait bounds of its own crate, so the half is kept opaque here.
#[verifier::external_body]
pub struct StagingProducer {
    inner: ringbuf::HeapProducer<i16>,
}

/// Consumer half of the staging ring, owned by the segmenter.
///
/// Holds a `ringbuf::HeapConsumer<i16>`, kept opaque for the same reason as
/// the producer half.
#[verifier::external_body]
pub struct StagingConsumer {
    inner: ringbuf::HeapConsumer<i16>,
}

/// Relies on `ringbuf::HeapRb::new` and `SharedRb::split`: a fresh ring of
/// the given capacity, handed out as its two halves.  `HeapRb::new` requires
/// a non-zero capacity.
#[verifier::external_body]
pub fn staging_split(capacity: usize) -> (halves: (StagingProducer, StagingConsumer))
    requires
        capacity >= 1,
{
    let ring = ringbuf::HeapRb::<i16>::new(capacity);
    let (producer, consumer) = ring.split();
    (StagingProducer { inner: producer }, StagingConsumer { inner: consumer })
}

/// Relies on `ringbuf::Producer::push`: the sample is appended when the ring
/// has room and dropped otherwise; the result says whether it was taken.
#[verifier::external_body]
pub fn push_sample(p: &mut StagingProducer, s: i16) -> (accepted: bool) {
    p.inner.push(s).is_ok()
}

/// Relies on `ringbuf::Consumer::len`: how many samples were pending at the
/// moment of the call; the producer thread may add more at any time.
#[verifier::external_body]
pub fn pending_len(c: &StagingConsumer) -> (n: usize) {
    c.inner.len()
}

/// Relies on `ringbuf::Consumer::pop`: the oldest pending sample, or `None`
/// when the ring was empty at the moment of the call.
#[verifier::external_body]
pub fn pop_sample(c: &mut StagingConsumer) -> (s: Option<i16>) {
    c.inner.pop()
}

/// Pull everything currently staged into one frame, oldest sample first.
/// The frame's contents depend on what the capture thread pushed; an empty
/// frame means the ring was empty.
pub fn drain(c: &mut StagingConsumer) -> (frame: Vec<i16>) {
    let n: usize = pending_len(c);
    let mut out: Vec<i16> = Vec::new();
    let mut i: usize = 0;
    while i < n
        invariant
            i <= n,
        decreases n - i,
    {
        if let Some(s) = pop_sample(c) {
            out.push(s);
        }
        i = i + 1;
    }
    out
}

/// Convert one callback of signed 16-bit device frames to mono fixed-point
/// samples and stage them; samples that do not fit are dropped.
pub fn write_i16(input: &Vec<i16>, channels: usize, producer: &mut StagingProducer)
    requires
        channels >= 1,
        input@.len() as int % channels as int == 0,
{
    let mono: Vec<i16> = crate::sample::downmix_frames(input, channels);
    push_frame(&mono, producer);
}

/// Convert one callback of unsigned 16-bit device frames to mono fixed-point
/// samples and stage them; samples that do not fit are dropped.
pub fn write_u16(input: &Vec<u16>, channels: usize, producer: &mut StagingProducer)
    requires
        channels >= 1,
        input@.len() as int % channels as int == 0,
{
    let mut recentered: Vec<i16> = Vec::new();
    let mut i: usize = 0;
    let n: usize = input.len();
    while i < n
        invariant
            n == input@.len(),
            i <= n,
            recentered@.len() == i,
            forall|j: int| 0 <= j < i ==> recentered@[j] as int == input@[j] as int - 0x8000,
        decreases n - i,
    {
        let s: i16 = crate::sample::normalize_u16(input[i]);
        recentered.push(s);
        i = i + 1;
    }
    let mono: Vec<i16> = crate::sample::downmix_frames(&recentered, channels);
    push_frame(&mono, producer);
}

/// Stage a frame of mono samples, oldest first; what the full ring refuses
/// is dropped.
pub fn push_frame(frame: &Vec<i16>, producer: &mut StagingProducer) {
    let n: usize = frame.len();
    let mut i: usize = 0;
    while i < n
        invariant
            n == frame@.len(),
            i <= n,
        decreases n - i,
    {
        let _ = push_sample(producer, frame[i]);
        i = i + 1;
    }
}

} // verus!
