//! Fixed-point sample conversion and channel downmixing.
//!
//! The pipeline's canonical sample is a signed 16-bit fixed-point value: the
//! sample `s` stands for the normalized amplitude `s / 32768`, so the
//! representable range covers `[-1, 1)`, `0` stands for silence and `-32768`
//! for `-1.0`.  Device formats are converted into this form at the capture
//! edge; the conversions here are exact on the integer formats.

use vstd::prelude::*;

verus! {

/// The fixed-point value of a signed 16-bit device sample: the identity.
/// `0` maps to silence and `-32768` to `-1.0`; every result lies in
/// `[-32768, 32768)`, that is in `[-1, 1)` after scaling.
pub fn normalize_i16(x: i16) -> (s: i16)
    ensures
        s == x,
        -0x8000 <= s < 0x8000,
{
    x
}

/// The fixed-point value of an unsigned 16-bit device sample, recentered:
/// `32768` maps to silence and `0` to `-1.0`.
pub fn normalize_u16(x: u16) -> (s: i16)
    ensures
        s as int == x as int - 0x8000,
        -0x8000 <= s < 0x8000,
{
    let shifted: i32 = x as i32 - 0x8000;
    shifted as i16
}

/// The average of the two channels of one stereo frame, rounded down.
pub fn downmix_stereo(l: i16, r: i16) -> (m: i16)
    ensures
        m as int == (l as int + r as int) / 2,
        -0x8000 <= m < 0x8000,
{
    let shifted: u32 = (l as i32 + r as i32 + 0x10000) as u32;
    let half: i32 = (shifted / 2) as i32 - 0x8000;
    proof {
        assert((l as int + r as int + 0x10000) / 2 == (l as int + r as int) / 2 + 0x8000);
    }
    half as i16
}

/// What one frame of interleaved device samples becomes after downmixing:
/// stereo frames are averaged, any other channel count passes its first
/// channel through.
pub open spec fn downmix_spec(data: Seq<i16>, channels: nat) -> Seq<i16> {
    Seq::new(
        data.len() / channels,
        |k: int|
            if channels == 2 {
                ((data[2 * k] + data[2 * k + 1]) / 2) as i16
            } else {
                data[k * channels as int]
            },
    )
}

/// Downmix a whole callback's worth of interleaved frames to mono.
pub fn downmix_frames(data: &Vec<i16>, channels: usize) -> (out: Vec<i16>)
    requires
        channels >= 1,
        data@.len() as int % channels as int == 0,
    ensures
        out@ == downmix_spec(data@, channels as nat),
{
    let total: usize = data.len();
    let frames: usize = total / channels;
    let mut out: Vec<i16> = Vec::new();
    let mut k: usize = 0;
    while k < frames
        invariant
            channels >= 1,
            total == data@.len(),
            frames == total as int / channels as int,
            k <= frames,
            out@.len() == k,
            forall|j: int| 0 <= j < k ==> out@[j] == downmix_spec(data@, channels as nat)[j],
        decreases frames - k,
    {
        proof {
            assert(k * channels as int + channels as int <= frames * channels as int)
                by (nonlinear_arith)
                requires
                    k as int + 1 <= frames as int,
                    channels as int >= 1,
            ;
            assert(frames * channels as int <= total as int) by (nonlinear_arith)
                requires
                    frames == total as int / channels as int,
                    channels as int >= 1,
                    total as int >= 0,
            ;
        }
        let base: usize = k * channels;
        let sample: i16 = if channels == 2 {
            downmix_stereo(data[base], data[base + 1])
        } else {
            data[base]
        };
        proof {
            if channels == 2 {
                let lo = data@[2 * k];
                let hi = data@[2 * k + 1];
                assert(downmix_spec(data@, channels as nat)[k as int] == ((lo + hi) / 2) as i16);
                assert(sample as int == (lo + hi) / 2);
            } else {
                assert(downmix_spec(data@, channels as nat)[k as int] == data@[k as int
                    * channels as int]);
            }
        }
        out.push(sample);
        k = k + 1;
    }
    out
}

} // verus!
