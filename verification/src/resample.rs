//! Chunk arithmetic for the fixed-input-size resampler.
//!
//! The resampler proper runs floating-point DSP in an outside crate and so
//! sits outside this crate, in the shell around it.  What is verified here
//! is the plan it is fed by: a segment is processed in exact chunk-size
//! pieces and the final short piece is zero-padded up to the chunk size.

use vstd::prelude::*;

verus! {

/// How a segment of `total` samples is cut for a resampler that takes
/// exactly `chunk` samples at a time: the number of chunks and the number
/// of padding zeros appended to fill the last one.
pub fn chunk_plan(total: usize, chunk: usize) -> (r: (usize, usize))
    requires
        chunk >= 1,
    ensures
        r.1 < chunk,
        total + r.1 == r.0 * chunk,
        total > 0 ==> (r.0 - 1) * chunk < total,
        total == 0 ==> r.0 == 0,
{
    let n: usize = total / chunk;
    let rem: usize = total % chunk;
    proof {
        vstd::arithmetic::div_mod::lemma_fundamental_div_mod(total as int, chunk as int);
    }
    if rem == 0 {
        proof {
            assert(total as int == n as int * chunk as int);
            if total > 0 {
                assert((n as int - 1) * chunk < total) by (nonlinear_arith)
                    requires
                        total as int == n as int * chunk as int,
                        chunk as int >= 1,
                        total as int > 0,
                ;
            }
        }
        (n, 0)
    } else {
        proof {
            assert(n as int * chunk as int + rem as int == total as int);
            assert(n as int + 1 <= total as int) by (nonlinear_arith)
                requires
                    n as int * chunk as int + rem as int == total as int,
                    chunk as int >= 1,
                    rem as int >= 1,
                    n as int >= 0,
            ;
            assert((n as int + 1) * chunk as int == total as int + (chunk as int
                - rem as int)) by (nonlinear_arith)
                requires
                    n as int * chunk as int + rem as int == total as int,
            ;
        }
        (n + 1, chunk - rem)
    }
}

/// Extend a segment with `pad` zero samples, as the final short chunk is
/// padded before resampling.
pub fn pad_with_zeros(segment: &mut Vec<i16>, pad: usize)
    requires
        old(segment)@.len() + pad <= usize::MAX,
    ensures
        final(segment)@ == old(segment)@ + Seq::new(pad as nat, |i: int| 0i16),
{
    let mut i: usize = 0;
    while i < pad
        invariant
            i <= pad,
            segment@ == old(segment)@ + Seq::new(i as nat, |k: int| 0i16),
        decreases pad - i,
    {
        segment.push(0);
        proof {
            assert(segment@ =~= old(segment)@ + Seq::new((i + 1) as nat, |k: int| 0i16));
        }
        i = i + 1;
    }
}

} // verus!
