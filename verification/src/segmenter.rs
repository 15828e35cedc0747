//! Frame-by-frame speech segmentation.
//!
//! Each tick drains one frame from the staging buffer, measures its RMS,
//! drives the voice-activity detector, and maintains two buffers: a bounded
//! pre-roll ring of the most recent silent frames, and the accumulator of the
//! segment being spoken.  On a `Silence` to `Speaking` transition the
//! pre-roll is spliced in front of the accumulator so the first phoneme is
//! not lost; on a `Speaking` to `Silence` transition the accumulated segment
//! is handed out and the accumulator resets.

use vstd::prelude::*;
use crate::vad::{EnergyVad, VadModel, VadState, rms_of, vad_step, vad_wf};

verus! {

/// Mathematical model of the segmenter.
#[verifier::ext_equal]
pub struct SegModel {
    pub vad: VadModel,
    pub pre_roll: Seq<Seq<i16>>,
    pub pre_roll_frames: nat,
    pub voice: Seq<i16>,
    pub last_state: VadState,
}

/// A state-change notification for observers.
pub struct VadEvent {
    pub state: VadState,
    pub rms: u32,
}

/// What one tick hands back: at most one finished segment, and an event on
/// every state change.
pub struct TickOutcome {
    pub segment: Option<Vec<i16>>,
    pub event: Option<VadEvent>,
}

/// The pre-roll ring holds at most `max(pre_roll_frames, 1)` frames: a frame
/// is pushed only after the oldest is dropped when the ring is at its bound.
pub open spec fn pre_roll_cap(m: SegModel) -> nat {
    if m.pre_roll_frames >= 1 {
        m.pre_roll_frames
    } else {
        1
    }
}

/// Well-formedness of the segmenter state.
pub open spec fn seg_wf(m: SegModel) -> bool {
    &&& vad_wf(m.vad)
    &&& m.pre_roll.len() <= pre_roll_cap(m)
}

/// A frame appended to the pre-roll ring, dropping the oldest when full.
pub open spec fn push_ring(q: Seq<Seq<i16>>, f: Seq<i16>, cap: nat) -> Seq<Seq<i16>> {
    if q.len() >= cap {
        q.drop_first().push(f)
    } else {
        q.push(f)
    }
}

/// All the ring's frames in order, as one sample sequence.
pub open spec fn flatten_frames(q: Seq<Seq<i16>>) -> Seq<i16>
    decreases q.len(),
{
    if q.len() == 0 {
        Seq::empty()
    } else {
        flatten_frames(q.drop_last()) + q.last()
    }
}

/// RMS of the frame driving this tick.
pub open spec fn tick_rms(f: Seq<i16>) -> u32 {
    rms_of(f) as u32
}

/// The detector's state after this tick.
pub open spec fn tick_state(m: SegModel, f: Seq<i16>) -> VadState {
    vad_step(m.vad, tick_rms(f)).state
}

/// Whether this tick begins a segment.
pub open spec fn tick_starts(m: SegModel, f: Seq<i16>) -> bool {
    m.last_state is Silence && tick_state(m, f) is Speaking
}

/// Whether this tick ends a segment.
pub open spec fn tick_stops(m: SegModel, f: Seq<i16>) -> bool {
    m.last_state is Speaking && tick_state(m, f) is Silence
}

/// The segmenter's state after one tick on a non-empty frame.
pub open spec fn tick_seg(m: SegModel, f: Seq<i16>) -> SegModel {
    let state = tick_state(m, f);
    let pr1 = if state is Silence {
        push_ring(m.pre_roll, f, pre_roll_cap(m))
    } else {
        m.pre_roll
    };
    let voice1 = if tick_starts(m, f) {
        m.voice + flatten_frames(pr1)
    } else {
        m.voice
    };
    let pr2 = if tick_starts(m, f) {
        Seq::empty()
    } else {
        pr1
    };
    let voice2 = if state is Speaking {
        voice1 + f
    } else {
        voice1
    };
    let voice3 = if tick_stops(m, f) {
        Seq::empty()
    } else {
        voice2
    };
    SegModel {
        vad: vad_step(m.vad, tick_rms(f)),
        pre_roll: pr2,
        pre_roll_frames: m.pre_roll_frames,
        voice: voice3,
        last_state: state,
    }
}

/// The segment handed out by one tick on a non-empty frame, if any.
pub open spec fn tick_segment(m: SegModel, f: Seq<i16>) -> Option<Seq<i16>> {
    if tick_stops(m, f) && m.voice.len() > 0 {
        Some(m.voice)
    } else {
        None
    }
}

/// Whether this tick changes the observable state.
pub open spec fn tick_emits_event(m: SegModel, f: Seq<i16>) -> bool {
    tick_state(m, f) != m.last_state
}

/// Deep copy of a frame.
pub fn clone_frame(src: &Vec<i16>) -> (r: Vec<i16>)
    ensures
        r@ == src@,
{
    let mut out: Vec<i16> = Vec::new();
    let mut i: usize = 0;
    let n: usize = src.len();
    while i < n
        invariant
            n == src@.len(),
            i <= n,
            out@ == src@.take(i as int),
        decreases n - i,
    {
        out.push(src[i]);
        proof {
            assert(out@ =~= src@.take(i + 1));
        }
        i = i + 1;
    }
    proof {
        assert(src@.take(n as int) =~= src@);
    }
    out
}

/// Append all of `src` to `dst`.
fn extend_samples(dst: &mut Vec<i16>, src: &Vec<i16>)
    ensures
        final(dst)@ == old(dst)@ + src@,
{
    let mut i: usize = 0;
    let n: usize = src.len();
    while i < n
        invariant
            n == src@.len(),
            i <= n,
            dst@ == old(dst)@ + src@.take(i as int),
        decreases n - i,
    {
        dst.push(src[i]);
        proof {
            assert(old(dst)@ + src@.take(i as int) + seq![src@[i as int]] =~= old(dst)@
                + src@.take(i + 1));
        }
        i = i + 1;
    }
    proof {
        assert(old(dst)@ + src@.take(n as int) =~= old(dst)@ + src@);
    }
}

/// Move a frame out, leaving an empty one behind.
fn take_frame(v: &mut Vec<i16>) -> (r: Vec<i16>)
    ensures
        r@ == old(v)@,
        final(v)@ == Seq::<i16>::empty(),
{
    let mut t: Vec<i16> = Vec::new();
    core::mem::swap(v, &mut t);
    t
}

/// The speech segmenter: detector, pre-roll ring and segment accumulator.
pub struct Segmenter {
    pub vad: EnergyVad,
    pub pre_roll: Vec<Vec<i16>>,
    pub pre_roll_frames: usize,
    pub voice: Vec<i16>,
    pub last_state: VadState,
}

impl View for Segmenter {
    type V = SegModel;

    open spec fn view(&self) -> SegModel {
        SegModel {
            vad: self.vad@,
            pre_roll: Seq::new(self.pre_roll@.len(), |i: int| self.pre_roll@[i]@),
            pre_roll_frames: self.pre_roll_frames as nat,
            voice: self.voice@,
            last_state: self.last_state,
        }
    }
}

impl Segmenter {
    /// A fresh segmenter around the given detector.  The pre-roll ring is
    /// sized for half a second of audio at the given frame length.
    pub fn new(vad: EnergyVad, frame_rate_ms: u64) -> (s: Segmenter)
        requires
            vad_wf(vad@),
            vad@.state is Silence,
            frame_rate_ms >= 1,
        ensures
            s@.vad == vad@,
            s@.pre_roll == Seq::<Seq<i16>>::empty(),
            s@.pre_roll_frames == 500int / frame_rate_ms as int,
            s@.voice == Seq::<i16>::empty(),
            s@.last_state is Silence,
            seg_wf(s@),
    {
        let frames: u64 = 500 / frame_rate_ms;
        let s = Segmenter {
            vad,
            pre_roll: Vec::new(),
            pre_roll_frames: frames as usize,
            voice: Vec::new(),
            last_state: VadState::Silence,
        };
        proof {
            assert(s@.pre_roll =~= Seq::<Seq<i16>>::empty());
        }
        s
    }

    /// One tick of the segmenter on the frame drained this period.  An empty
    /// frame leaves everything untouched; otherwise the detector advances
    /// and the pre-roll, accumulator, segment hand-out and observer event
    /// all follow the model.
    pub fn tick(&mut self, frame: &Vec<i16>) -> (out: TickOutcome)
        requires
            seg_wf(old(self)@),
        ensures
            seg_wf(final(self)@),
            frame@.len() == 0 ==> final(self)@ == old(self)@ && out.segment is None
                && out.event is None,
            frame@.len() > 0 ==> final(self)@ == tick_seg(old(self)@, frame@),
            frame@.len() > 0 ==> match out.segment {
                Some(s) => tick_segment(old(self)@, frame@) == Some(s@),
                None => tick_segment(old(self)@, frame@) is None,
            },
            frame@.len() > 0 ==> match out.event {
                Some(e) => tick_emits_event(old(self)@, frame@) && e.state == tick_state(
                    old(self)@,
                    frame@,
                ) && e.rms == tick_rms(frame@),
                None => !tick_emits_event(old(self)@, frame@),
            },
    {
        if frame.len() == 0 {
            return TickOutcome { segment: None, event: None };
        }
        let ghost m0 = self@;
        let rms: u32 = EnergyVad::calculate_rms(frame);
        let state: VadState = self.vad.process(rms);
        proof {
            assert(rms == tick_rms(frame@));
            assert(self.vad@ == vad_step(m0.vad, rms));
            assert(state == tick_state(m0, frame@));
        }

        if matches!(state, VadState::Silence) {
            if self.pre_roll.len() >= self.pre_roll_frames && self.pre_roll.len() > 0 {
                let _ = self.pre_roll.remove(0);
            }
            self.pre_roll.push(clone_frame(frame));
        }
        proof {
            let pr1 = if state is Silence {
                push_ring(m0.pre_roll, frame@, pre_roll_cap(m0))
            } else {
                m0.pre_roll
            };
            assert(self@.pre_roll =~= pr1);
        }
        let ghost ring1 = self@.pre_roll;

        let started: bool = matches!(self.last_state, VadState::Silence) && matches!(
            state,
            VadState::Speaking,
        );
        if started {
            let ghost voice0 = self@.voice;
            let mut idx: usize = 0;
            let count: usize = self.pre_roll.len();
            while idx < count
                invariant
                    count == self.pre_roll@.len(),
                    idx <= count,
                    Seq::new(self.pre_roll@.len(), |i: int| self.pre_roll@[i]@) == ring1,
                    self.voice@ == voice0 + flatten_frames(ring1.take(idx as int)),
                    self.vad@ == vad_step(m0.vad, tick_rms(frame@)),
                    self.last_state == m0.last_state,
                    self.pre_roll_frames as nat == m0.pre_roll_frames,
                decreases count - idx,
            {
                let chunk = clone_frame(&self.pre_roll[idx]);
                proof {
                    assert(ring1.take(idx + 1).drop_last() =~= ring1.take(idx as int));
                    assert(ring1.take(idx + 1).last() == ring1[idx as int]);
                    assert(chunk@ == ring1[idx as int]);
                }
                extend_samples(&mut self.voice, &chunk);
                idx = idx + 1;
            }
            proof {
                assert(ring1.take(count as int) =~= ring1);
            }
            self.pre_roll = Vec::new();
            proof {
                assert(self@.pre_roll =~= Seq::<Seq<i16>>::empty());
                assert(self@.voice == voice0 + flatten_frames(ring1));
            }
        }

        if matches!(state, VadState::Speaking) {
            extend_samples(&mut self.voice, frame);
        }
        let ghost voice2 = self@.voice;

        let mut segment: Option<Vec<i16>> = None;
        if matches!(self.last_state, VadState::Speaking) && matches!(state, VadState::Silence) {
            if self.voice.len() > 0 {
                segment = Some(take_frame(&mut self.voice));
            }
        }

        let event: Option<VadEvent> = if discriminant_differs(&state, &self.last_state) {
            Some(VadEvent { state, rms })
        } else {
            None
        };
        self.last_state = state;

        proof {
            assert(self@ =~= tick_seg(m0, frame@));
        }
        TickOutcome { segment, event }
    }
}

impl Segmenter {
    /// Replace the silence timeout (the detector's stop window) at runtime.
    /// Only the detector's window and history bound change: the pre-roll,
    /// the accumulator and the states stay, so no segment in progress is
    /// lost.
    pub fn update_stop_window(&mut self, stop_window_ms: u64, frame_rate_ms: u64)
        requires
            seg_wf(old(self)@),
            frame_rate_ms >= 1,
            stop_window_ms / frame_rate_ms <= usize::MAX,
        ensures
            seg_wf(final(self)@),
            final(self)@.vad.stop_frames == crate::vad::frames_for_window(
                stop_window_ms,
                frame_rate_ms,
            ),
            final(self)@.vad.start_threshold == old(self)@.vad.start_threshold,
            final(self)@.vad.stop_threshold == old(self)@.vad.stop_threshold,
            final(self)@.vad.start_frames == old(self)@.vad.start_frames,
            final(self)@.vad.state == old(self)@.vad.state,
            final(self)@.pre_roll == old(self)@.pre_roll,
            final(self)@.pre_roll_frames == old(self)@.pre_roll_frames,
            final(self)@.voice == old(self)@.voice,
            final(self)@.last_state == old(self)@.last_state,
    {
        self.vad.update_stop_window(stop_window_ms, frame_rate_ms);
        proof {
            assert(final(self)@.pre_roll =~= old(self)@.pre_roll);
        }
    }
}

/// The segmenter's state after a run of non-empty frames, oldest first.
pub open spec fn seg_run(m: SegModel, frames: Seq<Seq<i16>>) -> SegModel
    decreases frames.len(),
{
    if frames.len() == 0 {
        m
    } else {
        seg_run(tick_seg(m, frames[0]), frames.drop_first())
    }
}

/// Whether any tick of the run hands a segment out.
pub open spec fn run_emits_segment(m: SegModel, frames: Seq<Seq<i16>>) -> bool
    decreases frames.len(),
{
    if frames.len() == 0 {
        false
    } else {
        tick_segment(m, frames[0]) is Some || run_emits_segment(
            tick_seg(m, frames[0]),
            frames.drop_first(),
        )
    }
}

/// Whether any tick of the run reports a state change.
pub open spec fn run_emits_event(m: SegModel, frames: Seq<Seq<i16>>) -> bool
    decreases frames.len(),
{
    if frames.len() == 0 {
        false
    } else {
        tick_emits_event(m, frames[0]) || run_emits_event(tick_seg(m, frames[0]), frames.drop_first())
    }
}

/// Silence in, silence out: from a well-formed resting state, a run of
/// non-empty frames whose RMS all lie strictly below the stop threshold
/// hands out no segment, reports no state change, and leaves the detector
/// and the accumulator exactly as they were.
pub proof fn lemma_quiet_run(m: SegModel, frames: Seq<Seq<i16>>)
    requires
        seg_wf(m),
        m.vad.state is Silence,
        m.last_state is Silence,
        m.vad.stop_threshold <= m.vad.start_threshold,
        forall|i: int|
            0 <= i < frames.len() ==> #[trigger] frames[i].len() > 0 && rms_of(frames[i])
                < m.vad.stop_threshold,
    ensures
        seg_wf(seg_run(m, frames)),
        seg_run(m, frames).vad.state is Silence,
        seg_run(m, frames).last_state is Silence,
        seg_run(m, frames).voice == m.voice,
        !run_emits_segment(m, frames),
        !run_emits_event(m, frames),
    decreases frames.len(),
{
    if frames.len() > 0 {
        let f = frames[0];
        crate::vad::lemma_rms_of_bounds(f);
        let rq = tick_rms(f);
        assert(rq == rms_of(f));
        assert(rq < m.vad.stop_threshold);
        let h = crate::vad::push_history(m.vad.history, rq, crate::vad::history_cap(m.vad));
        assert(h.last() == rq);
        assert(!crate::vad::all_above(h, m.vad.start_frames, m.vad.start_threshold)) by {
            if crate::vad::all_above(h, m.vad.start_frames, m.vad.start_threshold) {
                assert(h[h.len() - 1] > m.vad.start_threshold);
            }
        }
        let m1 = tick_seg(m, f);
        assert(m1.vad.state is Silence);
        assert(m1.last_state is Silence);
        assert(m1.voice == m.voice);
        assert(seg_wf(m1));
        assert(tick_segment(m, f) is None);
        assert(!tick_emits_event(m, f));
        assert(forall|i: int|
            0 <= i < frames.drop_first().len() ==> #[trigger] frames.drop_first()[i].len() > 0
                && rms_of(frames.drop_first()[i]) < m1.vad.stop_threshold);
        lemma_quiet_run(m1, frames.drop_first());
    }
}

proof fn lemma_flatten_first(q: Seq<Seq<i16>>)
    requires
        q.len() > 0,
    ensures
        flatten_frames(q) == q[0] + flatten_frames(q.drop_first()),
    decreases q.len(),
{
    if q.len() == 1 {
        assert(q.drop_last() =~= Seq::<Seq<i16>>::empty());
        assert(q.drop_first() =~= Seq::<Seq<i16>>::empty());
        assert(q[0] + flatten_frames(q.drop_first()) =~= q.last());
    } else {
        lemma_flatten_first(q.drop_last());
        assert(q.drop_last().drop_first() =~= q.drop_first().drop_last());
        assert(q.drop_first().last() == q.last());
        assert(q[0] + (flatten_frames(q.drop_first().drop_last()) + q.last()) =~= (q[0]
            + flatten_frames(q.drop_first().drop_last())) + q.last());
    }
}

/// While speech goes on it accumulates: from a well-formed speaking state,
/// a run of non-empty frames whose RMS never falls below the stop threshold
/// keeps the detector speaking, hands out no segment, and appends exactly
/// the frames, in order, to the segment accumulator.
pub proof fn lemma_speaking_run_accumulates(m: SegModel, frames: Seq<Seq<i16>>)
    requires
        seg_wf(m),
        m.vad.state is Speaking,
        m.last_state is Speaking,
        forall|i: int|
            0 <= i < frames.len() ==> #[trigger] frames[i].len() > 0 && rms_of(frames[i])
                >= m.vad.stop_threshold,
    ensures
        seg_wf(seg_run(m, frames)),
        seg_run(m, frames).vad.state is Speaking,
        seg_run(m, frames).last_state is Speaking,
        seg_run(m, frames).voice == m.voice + flatten_frames(frames),
        seg_run(m, frames).pre_roll == m.pre_roll,
        !run_emits_segment(m, frames),
        !run_emits_event(m, frames),
    decreases frames.len(),
{
    if frames.len() == 0 {
        assert(m.voice + flatten_frames(frames) =~= m.voice);
    } else {
        let f = frames[0];
        crate::vad::lemma_rms_of_bounds(f);
        let rq = tick_rms(f);
        assert(rq == rms_of(f));
        assert(rq >= m.vad.stop_threshold);
        let h = crate::vad::push_history(m.vad.history, rq, crate::vad::history_cap(m.vad));
        assert(h.last() == rq);
        assert(!crate::vad::all_below(h, m.vad.stop_frames, m.vad.stop_threshold)) by {
            if crate::vad::all_below(h, m.vad.stop_frames, m.vad.stop_threshold) {
                assert(h[h.len() - 1] < m.vad.stop_threshold);
            }
        }
        let m1 = tick_seg(m, f);
        assert(m1.vad.state is Speaking);
        assert(m1.last_state is Speaking);
        assert(m1.voice == m.voice + f);
        assert(m1.pre_roll == m.pre_roll);
        assert(seg_wf(m1));
        assert(tick_segment(m, f) is None);
        assert(!tick_emits_event(m, f));
        assert(forall|i: int|
            0 <= i < frames.drop_first().len() ==> #[trigger] frames.drop_first()[i].len() > 0
                && rms_of(frames.drop_first()[i]) >= m1.vad.stop_threshold);
        lemma_speaking_run_accumulates(m1, frames.drop_first());
        lemma_flatten_first(frames);
        assert((m.voice + f) + flatten_frames(frames.drop_first()) =~= m.voice + (f
            + flatten_frames(frames.drop_first())));
    }
}

/// The pre-roll ring never exceeds half a second of frames: sized as `new`
/// sizes it, its length stays within the ceiling of `500 / frame_rate_ms`.
pub proof fn lemma_pre_roll_bound(m: SegModel, frame_rate_ms: u64)
    requires
        seg_wf(m),
        frame_rate_ms >= 1,
        m.pre_roll_frames == 500int / frame_rate_ms as int,
    ensures
        m.pre_roll.len() <= (500int + frame_rate_ms as int - 1) / frame_rate_ms as int,
{
    let f = frame_rate_ms as int;
    vstd::arithmetic::div_mod::lemma_div_is_ordered(500int, 500int + f - 1, f);
    vstd::arithmetic::div_mod::lemma_div_is_ordered(f, 500int + f - 1, f);
    vstd::arithmetic::div_mod::lemma_div_by_self(f);
}

/// Whether two states are different variants.
fn discriminant_differs(a: &VadState, b: &VadState) -> (r: bool)
    ensures
        r == (a != b),
{
    crate::vad::discriminant(a) != crate::vad::discriminant(b)
}

} // verus!
