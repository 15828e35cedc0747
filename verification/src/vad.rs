//! Energy-based voice-activity detection with two-threshold hysteresis.
//!
//! Loudness is measured as the root-mean-square of a frame of fixed-point
//! samples (a sample `s: i16` stands for the amplitude `s / 32768`, so an RMS
//! value is in the same `1/32768` unit).  The detector keeps a bounded
//! history of recent RMS values and switches state only when a whole window
//! of them sits strictly on one side of a threshold.

use std::collections::VecDeque;
use vstd::prelude::*;

verus! {

/// Voice-activity classification of a single frame.
#[derive(Debug, PartialEq, Eq, Structural, Clone, Copy)]
pub enum VadAction {
    Silence,
    Speaking,
}

/// Current state of the detector.
#[derive(Debug, PartialEq, Eq, Structural, Clone, Copy)]
pub enum VadState {
    Silence,
    Speaking,
}

/// Variant index of a state, used by observers to detect state changes.
pub fn discriminant(v: &VadState) -> (r: u32)
    ensures
        r == 0 <==> v is Silence,
        r == 1 <==> v is Speaking,
{
    match v {
        VadState::Silence => 0,
        VadState::Speaking => 1,
    }
}

/// Mathematical model of the detector: thresholds, window lengths in frames,
/// current state, and the recent RMS history (oldest first).
#[verifier::ext_equal]
pub struct VadModel {
    pub start_threshold: u32,
    pub stop_threshold: u32,
    pub start_frames: nat,
    pub stop_frames: nat,
    pub state: VadState,
    pub history: Seq<u32>,
}

/// The last `n` entries of `h` are all strictly above `thr`.
pub open spec fn all_above(h: Seq<u32>, n: nat, thr: u32) -> bool {
    h.len() >= n && forall|i: int| h.len() - n <= i < h.len() ==> h[i] > thr
}

/// The last `n` entries of `h` are all strictly below `thr`.
pub open spec fn all_below(h: Seq<u32>, n: nat, thr: u32) -> bool {
    h.len() >= n && forall|i: int| h.len() - n <= i < h.len() ==> h[i] < thr
}

/// Bound kept on the history: the longer of the two windows.
pub open spec fn history_cap(m: VadModel) -> nat {
    if m.start_frames >= m.stop_frames {
        m.start_frames
    } else {
        m.stop_frames
    }
}

/// One RMS value appended to the history, dropping the oldest entry when full.
pub open spec fn push_history(h: Seq<u32>, rms: u32, cap: nat) -> Seq<u32> {
    if h.len() >= cap {
        h.drop_first().push(rms)
    } else {
        h.push(rms)
    }
}

/// The state after one frame, given the updated history `h`.
pub open spec fn next_state(m: VadModel, h: Seq<u32>) -> VadState {
    match m.state {
        VadState::Silence => {
            if all_above(h, m.start_frames, m.start_threshold) {
                VadState::Speaking
            } else {
                VadState::Silence
            }
        },
        VadState::Speaking => {
            if all_below(h, m.stop_frames, m.stop_threshold) {
                VadState::Silence
            } else {
                VadState::Speaking
            }
        },
    }
}

/// The whole model after one frame of the given RMS.
pub open spec fn vad_step(m: VadModel, rms: u32) -> VadModel {
    let h = push_history(m.history, rms, history_cap(m));
    VadModel { state: next_state(m, h), history: h, ..m }
}

/// Well-formedness: both windows are at least one frame long and the history
/// never outgrows the longer window.
pub open spec fn vad_wf(m: VadModel) -> bool {
    &&& m.start_frames >= 1
    &&& m.stop_frames >= 1
    &&& m.history.len() <= history_cap(m)
}

/// Energy-based voice-activity detector with hysteresis.
pub struct EnergyVad {
    pub start_threshold: u32,
    pub stop_threshold: u32,
    pub start_window_frames: usize,
    pub stop_window_frames: usize,
    pub current_state: VadState,
    pub energy_history: VecDeque<u32>,
}

impl View for EnergyVad {
    type V = VadModel;

    open spec fn view(&self) -> VadModel {
        VadModel {
            start_threshold: self.start_threshold,
            stop_threshold: self.stop_threshold,
            start_frames: self.start_window_frames as nat,
            stop_frames: self.stop_window_frames as nat,
            state: self.current_state,
            history: self.energy_history@,
        }
    }
}

impl EnergyVad {
    /// A fresh detector in `Silence` with an empty history.  Window lengths
    /// are given in milliseconds and divided by the frame length, with a
    /// floor of one frame.
    pub fn new(
        start_threshold: u32,
        stop_threshold: u32,
        start_window_ms: u64,
        stop_window_ms: u64,
        frame_rate_ms: u64,
    ) -> (v: EnergyVad)
        requires
            frame_rate_ms >= 1,
            start_window_ms / frame_rate_ms <= usize::MAX,
            stop_window_ms / frame_rate_ms <= usize::MAX,
        ensures
            v@.start_threshold == start_threshold,
            v@.stop_threshold == stop_threshold,
            v@.start_frames == frames_for_window(start_window_ms, frame_rate_ms),
            v@.stop_frames == frames_for_window(stop_window_ms, frame_rate_ms),
            v@.state is Silence,
            v@.history == Seq::<u32>::empty(),
            vad_wf(v@),
    {
        let start_div: u64 = start_window_ms / frame_rate_ms;
        let stop_div: u64 = stop_window_ms / frame_rate_ms;
        let start_frames: usize = if start_div >= 1 {
            start_div as usize
        } else {
            1
        };
        let stop_frames: usize = if stop_div >= 1 {
            stop_div as usize
        } else {
            1
        };
        EnergyVad {
            start_threshold,
            stop_threshold,
            start_window_frames: start_frames,
            stop_window_frames: stop_frames,
            current_state: VadState::Silence,
            energy_history: VecDeque::new(),
        }
    }

    /// Feed one frame's RMS value; the returned state is the state after the
    /// frame.  A `Silence` to `Speaking` transition happens exactly when the
    /// last `start_frames` RMS values all exceed `start_threshold`, and a
    /// `Speaking` to `Silence` transition exactly when the last `stop_frames`
    /// values are all under `stop_threshold`.
    pub fn process(&mut self, rms: u32) -> (s: VadState)
        requires
            vad_wf(old(self)@),
        ensures
            final(self)@ == vad_step(old(self)@, rms),
            s == final(self)@.state,
            vad_wf(final(self)@),
            (old(self)@.state is Silence && final(self)@.state is Speaking) ==> all_above(
                final(self)@.history,
                old(self)@.start_frames,
                old(self)@.start_threshold,
            ),
            (old(self)@.state is Speaking && final(self)@.state is Silence) ==> all_below(
                final(self)@.history,
                old(self)@.stop_frames,
                old(self)@.stop_threshold,
            ),
    {
        let cap: usize = if self.start_window_frames >= self.stop_window_frames {
            self.start_window_frames
        } else {
            self.stop_window_frames
        };
        if self.energy_history.len() >= cap {
            let _ = self.energy_history.pop_front();
        }
        self.energy_history.push_back(rms);
        match self.current_state {
            VadState::Silence => {
                if self.check_window(self.start_threshold, self.start_window_frames, true) {
                    self.current_state = VadState::Speaking;
                }
            },
            VadState::Speaking => {
                if self.check_window(self.stop_threshold, self.stop_window_frames, false) {
                    self.current_state = VadState::Silence;
                }
            },
        }
        self.current_state
    }

    /// Whether the last `window_size` history entries are all strictly above
    /// (`greater`) or all strictly below (`!greater`) the threshold.
    fn check_window(&self, threshold: u32, window_size: usize, greater: bool) -> (r: bool)
        ensures
            greater ==> r == all_above(self@.history, window_size as nat, threshold),
            !greater ==> r == all_below(self@.history, window_size as nat, threshold),
    {
        let hlen: usize = self.energy_history.len();
        if hlen < window_size {
            return false;
        }
        let start_idx: usize = hlen - window_size;
        let mut i: usize = 0;
        while i < window_size
            invariant
                hlen == self.energy_history@.len(),
                window_size <= hlen,
                start_idx == hlen - window_size,
                i <= window_size,
                forall|j: int|
                    start_idx <= j < start_idx + i ==> (if greater {
                        self.energy_history@[j] > threshold
                    } else {
                        self.energy_history@[j] < threshold
                    }),
            decreases window_size - i,
        {
            let val: u32 = self.energy_history[start_idx + i];
            if greater {
                if val <= threshold {
                    return false;
                }
            } else {
                if val >= threshold {
                    return false;
                }
            }
            i = i + 1;
        }
        true
    }

    /// Replace the stop window (in milliseconds) at runtime, dropping the
    /// oldest history entries if the bound shrank.
    pub fn update_stop_window(&mut self, stop_window_ms: u64, frame_rate_ms: u64)
        requires
            vad_wf(old(self)@),
            frame_rate_ms >= 1,
            stop_window_ms / frame_rate_ms <= usize::MAX,
        ensures
            final(self)@.start_threshold == old(self)@.start_threshold,
            final(self)@.stop_threshold == old(self)@.stop_threshold,
            final(self)@.start_frames == old(self)@.start_frames,
            final(self)@.stop_frames == frames_for_window(stop_window_ms, frame_rate_ms),
            final(self)@.state == old(self)@.state,
            final(self)@.history == old(self)@.history.skip(
                if old(self)@.history.len() > history_cap(final(self)@) {
                    old(self)@.history.len() - history_cap(final(self)@)
                } else {
                    0int
                },
            ),
            vad_wf(final(self)@),
    {
        let stop_div: u64 = stop_window_ms / frame_rate_ms;
        self.stop_window_frames = if stop_div >= 1 {
            stop_div as usize
        } else {
            1
        };
        let cap: usize = if self.start_window_frames >= self.stop_window_frames {
            self.start_window_frames
        } else {
            self.stop_window_frames
        };
        while self.energy_history.len() > cap
            invariant
                cap == history_cap(self@),
                self@.start_threshold == old(self)@.start_threshold,
                self@.stop_threshold == old(self)@.stop_threshold,
                self@.start_frames == old(self)@.start_frames,
                self@.stop_frames == frames_for_window(stop_window_ms, frame_rate_ms),
                self@.state == old(self)@.state,
                self@.history == old(self)@.history.skip(
                    old(self)@.history.len() - self@.history.len(),
                ),
                self@.history.len() <= old(self)@.history.len(),
                self@.history.len() >= cap || self@.history.len() == old(self)@.history.len(),
            decreases self.energy_history@.len(),
        {
            let _ = self.energy_history.pop_front();
        }
    }
}

/// A window of `window_ms` milliseconds measured in frames, at least one.
pub open spec fn frames_for_window(window_ms: u64, frame_rate_ms: u64) -> nat {
    if window_ms / frame_rate_ms >= 1 {
        (window_ms / frame_rate_ms) as nat
    } else {
        1
    }
}

/// Sum of the squares of a sample sequence.
pub open spec fn sum_squares(s: Seq<i16>) -> int
    decreases s.len(),
{
    if s.len() == 0 {
        0
    } else {
        sum_squares(s.drop_last()) + s.last() * s.last()
    }
}

/// Mean of the squares; meaningful only for a non-empty sequence.
pub open spec fn mean_square(s: Seq<i16>) -> int {
    sum_squares(s) / s.len() as int
}

/// `r` is the integer square root (floor) of `m`.
pub open spec fn is_floor_sqrt(m: int, r: int) -> bool {
    0 <= r && r * r <= m && m < (r + 1) * (r + 1)
}

/// The RMS of a frame: the floor square root of the mean square, and 0 for
/// an empty frame.
pub open spec fn rms_of(s: Seq<i16>) -> int {
    if s.len() == 0 {
        0
    } else {
        choose|r: int| is_floor_sqrt(mean_square(s), r)
    }
}

proof fn lemma_square_bounds(x: int)
    requires
        -0x8000 <= x <= 0x7fff,
    ensures
        0 <= x * x <= 0x4000_0000,
{
    assert(0 <= x * x <= 0x4000_0000) by (nonlinear_arith)
        requires
            -0x8000 <= x <= 0x7fff,
    ;
}

proof fn lemma_sum_squares_bounds(s: Seq<i16>)
    ensures
        0 <= sum_squares(s) <= s.len() * 0x4000_0000,
    decreases s.len(),
{
    if s.len() > 0 {
        lemma_sum_squares_bounds(s.drop_last());
        lemma_square_bounds(s.last() as int);
    }
}

proof fn lemma_floor_sqrt_exists(m: int)
    requires
        m >= 0,
    ensures
        exists|r: int| #[trigger] is_floor_sqrt(m, r),
    decreases m,
{
    if m == 0 {
        assert(is_floor_sqrt(0, 0));
    } else {
        let m1 = m - 1;
        lemma_floor_sqrt_exists(m1);
        let r = choose|r: int| is_floor_sqrt(m1, r);
        if m < (r + 1) * (r + 1) {
            assert(is_floor_sqrt(m, r));
        } else {
            assert(m == (r + 1) * (r + 1));
            assert((r + 2) * (r + 2) > m) by (nonlinear_arith)
                requires
                    m == (r + 1) * (r + 1),
                    r >= 0,
            ;
            assert(is_floor_sqrt(m, r + 1));
        }
    }
}

/// The RMS of any frame is a fixed-point amplitude: between 0 and 0x8000,
/// the floor square root of the frame's mean square.
pub proof fn lemma_rms_of_bounds(s: Seq<i16>)
    ensures
        0 <= rms_of(s) <= 0x8000,
        s.len() > 0 ==> is_floor_sqrt(mean_square(s), rms_of(s)),
{
    if s.len() > 0 {
        lemma_sum_squares_bounds(s);
        vstd::arithmetic::div_mod::lemma_div_pos_is_pos(sum_squares(s), s.len() as int);
        vstd::arithmetic::div_mod::lemma_div_is_ordered(
            sum_squares(s),
            s.len() as int * 0x4000_0000,
            s.len() as int,
        );
        vstd::arithmetic::div_mod::lemma_div_multiples_vanish(0x4000_0000, s.len() as int);
        assert(mean_square(s) <= 0x4000_0000);
        lemma_floor_sqrt_exists(mean_square(s));
        let r = rms_of(s);
        assert(is_floor_sqrt(mean_square(s), r));
        assert(r <= 0x8000) by (nonlinear_arith)
            requires
                0 <= r,
                r * r <= 0x4000_0000,
        ;
    }
}

proof fn lemma_floor_sqrt_unique(m: int, r1: int, r2: int)
    requires
        is_floor_sqrt(m, r1),
        is_floor_sqrt(m, r2),
    ensures
        r1 == r2,
{
    assert(r1 == r2) by (nonlinear_arith)
        requires
            0 <= r1 && r1 * r1 <= m && m < (r1 + 1) * (r1 + 1),
            0 <= r2 && r2 * r2 <= m && m < (r2 + 1) * (r2 + 1),
    ;
}

/// Whether `a * a <= m`, with the product bounded away from overflow.
fn square_at_most(a: u64, m: u64) -> (r: bool)
    requires
        a <= 0xFFFF_FFFF,
    ensures
        r == (a * a <= m),
{
    proof {
        assert(a * a <= 0xFFFF_FFFFu64 * 0xFFFF_FFFFu64) by (nonlinear_arith)
            requires
                a <= 0xFFFF_FFFFu64,
        ;
    }
    a * a <= m
}

impl EnergyVad {
    /// Root-mean-square loudness of a frame of fixed-point samples, as the
    /// floor of `sqrt(sum(s*s) / len)` in the same `1/32768` amplitude unit.
    /// An empty frame has RMS 0.
    pub fn calculate_rms(samples: &Vec<i16>) -> (r: u32)
        ensures
            r == rms_of(samples@),
            samples@.len() > 0 ==> is_floor_sqrt(mean_square(samples@), r as int),
            r <= 0x8000,
    {
        if samples.len() == 0 {
            return 0;
        }
        let n: usize = samples.len();
        let mut acc: u128 = 0;
        let mut i: usize = 0;
        while i < n
            invariant
                n == samples@.len(),
                i <= n,
                acc == sum_squares(samples@.take(i as int)),
                acc <= i * 0x4000_0000,
            decreases n - i,
        {
            let x: i64 = samples[i] as i64;
            proof {
                lemma_square_bounds(x as int);
                assert(samples@.take(i + 1).drop_last() =~= samples@.take(i as int));
                assert(samples@.take(i + 1).last() == samples@[i as int]);
            }
            let sq: u128 = (x * x) as u128;
            acc = acc + sq;
            i = i + 1;
        }
        proof {
            assert(samples@.take(n as int) =~= samples@);
            vstd::arithmetic::div_mod::lemma_fundamental_div_mod(acc as int, n as int);
            assert(acc as int / n as int <= 0x4000_0000) by (nonlinear_arith)
                requires
                    n as int >= 1,
                    acc as int <= n as int * 0x4000_0000,
                    n as int * (acc as int / n as int) + acc as int % n as int == acc as int,
                    0 <= acc as int % n as int,
            ;
        }
        let mean: u64 = (acc / (n as u128)) as u64;
        proof {
            assert(mean as int == mean_square(samples@));
        }
        let mut r: u32 = 0;
        while square_at_most((r + 1) as u64, mean)
            invariant
                mean <= 0x4000_0000,
                r as int * r as int <= mean as int,
                r <= 0x8000,
            decreases 0x8001 - r,
        {
            proof {
                assert((r as int + 1) * (r as int + 1) <= 0x4000_0000 ==> r as int + 1
                    <= 0x8000) by (nonlinear_arith);
            }
            r = r + 1;
        }
        proof {
            assert(is_floor_sqrt(mean_square(samples@), r as int));
            let picked = choose|q: int| is_floor_sqrt(mean_square(samples@), q);
            assert(is_floor_sqrt(mean_square(samples@), picked));
            lemma_floor_sqrt_unique(mean_square(samples@), picked, r as int);
        }
        r
    }
}

/// The model run over a whole sequence of RMS values, oldest first.
pub open spec fn vad_run(m: VadModel, inputs: Seq<u32>) -> VadModel
    decreases inputs.len(),
{
    if inputs.len() == 0 {
        m
    } else {
        vad_run(vad_step(m, inputs[0]), inputs.drop_first())
    }
}

/// Hysteresis keeps silence silent: starting from `Silence`, a detector whose
/// stop threshold does not exceed its start threshold stays in `Silence` over
/// any sequence of RMS values that all lie strictly below the stop threshold.
pub proof fn lemma_silence_stable(m: VadModel, inputs: Seq<u32>)
    requires
        vad_wf(m),
        m.state is Silence,
        m.stop_threshold <= m.start_threshold,
        forall|i: int| 0 <= i < inputs.len() ==> inputs[i] < m.stop_threshold,
    ensures
        vad_run(m, inputs).state is Silence,
        vad_wf(vad_run(m, inputs)),
    decreases inputs.len(),
{
    if inputs.len() > 0 {
        let h = push_history(m.history, inputs[0], history_cap(m));
        let m1 = vad_step(m, inputs[0]);
        assert(h.last() == inputs[0]);
        assert(!all_above(h, m.start_frames, m.start_threshold)) by {
            if all_above(h, m.start_frames, m.start_threshold) {
                assert(h[h.len() - 1] > m.start_threshold);
            }
        }
        assert(m1.state is Silence);
        assert(vad_wf(m1));
        assert(forall|i: int|
            0 <= i < inputs.drop_first().len() ==> inputs.drop_first()[i] < m.stop_threshold);
        lemma_silence_stable(m1, inputs.drop_first());
    }
}

} // verus!
