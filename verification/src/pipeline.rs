//! The per-chunk work of a capture worker: loudness measurement and
//! the resample-and-encode step that turns a raw interleaved chunk
//! into the Linear16 frame handed to the transcription client.

use vstd::prelude::*;
use crate::resampler::{AudioResampler, process_spec};
use crate::sample::{linear16_spec, to_linear16};

verus! {

/// One chunk of captured audio: interleaved fixed-point amplitudes at
/// the device's native rate and channel count.  Chunks are ephemeral —
/// produced per capture callback and consumed once by the resample
/// stage.
#[derive(Clone, Debug)]
pub struct AudioChunk {
    pub samples: Vec<i32>,
    pub sample_rate: u32,
    pub channels: u16,
}

/// Sum of the squares of the samples.
pub open spec fn sum_squares(s: Seq<i32>) -> int
    decreases s.len(),
{
    if s.len() == 0 {
        0
    } else {
        sum_squares(s.drop_last()) + s.last() * s.last()
    }
}

/// What the root-mean-square level of a chunk is: the integer square
/// root of the mean square, capped at full scale (65536, standing for
/// a level of one).  An empty chunk has level zero.
pub open spec fn is_rms_level(s: Seq<i32>, level: u32) -> bool {
    if s.len() == 0 {
        level == 0
    } else {
        let mean = sum_squares(s) / s.len() as int;
        if mean >= 65537 * 65537 {
            level == 65536
        } else {
            level * level <= mean < (level + 1) * (level + 1)
        }
    }
}

/// The loudness of a chunk as a fixed-point fraction of full scale.
pub fn rms_level(samples: &Vec<i32>) -> (level: u32)
    ensures
        is_rms_level(samples@, level),
        level <= 65536,
{
    let n = samples.len();
    if n == 0 {
        return 0;
    }
    let mut sum: u128 = 0;
    let mut k: usize = 0;
    while k < n
        invariant
            n == samples@.len(),
            k <= n,
            sum == sum_squares(samples@.take(k as int)),
            sum <= (k as int) * 0x4000_0000_0000_0000,
        decreases n - k,
    {
        let v = samples[k];
        let v64: i64 = v as i64;
        proof {
            assert(0 <= v64 * v64 <= 0x4000_0000_0000_0000) by (nonlinear_arith)
                requires -0x8000_0000 <= v64 <= 0x7fff_ffff;
            assert(samples@.take(k as int + 1).drop_last() =~= samples@.take(k as int));
            assert(samples@.take(k as int + 1).last() == samples@[k as int]);
        }
        let sq: u64 = (v64 * v64) as u64;
        sum = sum + sq as u128;
        k = k + 1;
    }
    proof {
        assert(samples@.take(n as int) =~= samples@);
    }
    let mean: u128 = sum / (n as u128);
    if mean >= 65537u128 * 65537u128 {
        return 65536;
    }
    // binary search for the integer square root of `mean`
    let m64: u64 = mean as u64;
    let mut lo: u64 = 0;
    let mut hi: u64 = 65537;
    proof {
        assert(65537u64 * 65537u64 > m64);
    }
    while hi - lo > 1
        invariant
            lo < hi <= 65537,
            lo * lo <= m64,
            m64 < hi * hi,
        decreases hi - lo,
    {
        let mid = lo + (hi - lo) / 2;
        proof {
            assert(mid * mid <= 65537u64 * 65537u64) by (nonlinear_arith)
                requires 0 <= mid <= 65537u64;
        }
        if mid * mid <= m64 {
            lo = mid;
        } else {
            hi = mid;
        }
    }
    proof {
        assert(lo * lo <= m64 < (lo + 1) * (lo + 1));
        assert(lo <= 65536) by (nonlinear_arith)
            requires lo * lo <= m64, m64 < 65537 * 65537, lo >= 0;
    }
    lo as u32
}

/// One worker step: measure the chunk's loudness, downmix and
/// resample it, and encode the result as Linear16 samples (possibly
/// none, when the chunk is shorter than the converter's input chunk).
pub fn pipeline_step(resampler: &mut AudioResampler, chunk: &AudioChunk) -> (r: (u32, Vec<i16>))
    requires
        old(resampler).wf(),
    ensures
        *final(resampler) == *old(resampler),
        is_rms_level(chunk.samples@, r.0),
        ({
            let processed = process_spec(
                chunk.samples@,
                old(resampler).channels() as int,
                old(resampler).in_rate() as int,
                old(resampler).out_rate() as int,
                old(resampler).is_active(),
            );
            r.1@.len() == processed.len()
                && forall|i: int| 0 <= i < processed.len() ==> r.1@[i] as int == linear16_spec(processed[i])
        }),
{
    let level = rms_level(&chunk.samples);
    let resampled = match resampler.process(&chunk.samples) {
        Ok(v) => v,
        Err(_) => Vec::new(),
    };
    let pcm = to_linear16(&resampled);
    (level, pcm)
}

} // verus!
