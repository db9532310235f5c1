//! Fixed-point amplitudes and the Linear16 PCM encoding.
//!
//! An amplitude is a signed fixed-point integer in units of `1/65536`:
//! `65536` stands for full scale `+1`, `-65536` for `-1`.  The Linear16
//! encoding clamps an amplitude to full scale and then scales positive
//! values by the largest positive 16-bit value and negative values by
//! the magnitude of the smallest one, truncating toward zero, so that
//! silence maps to `0` and the two full-scale amplitudes map exactly to
//! `32767` and `-32768`.

use vstd::prelude::*;
use vstd::arithmetic::div_mod::lemma_div_is_ordered;

verus! {

/// Fixed-point representation of amplitude `+1`.
pub const SAMPLE_UNIT: i32 = 65536;

/// An amplitude clamped to full scale, in fixed-point units.
pub open spec fn clamp_spec(q: int) -> int {
    if q > 65536 {
        65536
    } else if q < -65536 {
        -65536
    } else {
        q
    }
}

/// The Linear16 value of a fixed-point amplitude: clamp, then scale
/// positives by 32767 and negatives by 32768, truncating toward zero.
pub open spec fn linear16_spec(q: int) -> int {
    let c = clamp_spec(q);
    if c >= 0 {
        (c * 32767) / 65536
    } else {
        -(((-c) * 32768) / 65536)
    }
}

/// Law: the Linear16 encoding always lands in the signed 16-bit range,
/// and maps silence and the two full-scale amplitudes exactly.
pub proof fn lemma_linear16_range(q: int)
    ensures
        -32768 <= linear16_spec(q) <= 32767,
        linear16_spec(0) == 0,
        linear16_spec(65536) == 32767,
        linear16_spec(-65536) == -32768,
{
    let c = clamp_spec(q);
    if c >= 0 {
        assert(c * 32767 <= 65536 * 32767) by (nonlinear_arith)
            requires c <= 65536;
        assert(c * 32767 >= 0) by (nonlinear_arith)
            requires c >= 0;
        lemma_div_is_ordered(0int, c * 32767, 65536);
        lemma_div_is_ordered(c * 32767, 65536int * 32767, 65536);
        assert(65536 * 32767 / 65536 == 32767);
    } else {
        assert((-c) * 32768 <= 65536 * 32768) by (nonlinear_arith)
            requires -c <= 65536;
        assert((-c) * 32768 >= 0) by (nonlinear_arith)
            requires -c >= 0;
        lemma_div_is_ordered(0int, (-c) * 32768, 65536);
        lemma_div_is_ordered((-c) * 32768, 65536int * 32768, 65536);
        assert(65536 * 32768 / 65536 == 32768);
    }
    assert(linear16_spec(0) == 0);
    assert(linear16_spec(65536) == 32767);
    assert(linear16_spec(-65536) == -32768);
}

/// Encode one fixed-point amplitude as a Linear16 value.
pub fn encode_linear16(s: i32) -> (v: i16)
    ensures
        v as int == linear16_spec(s as int),
{
    proof {
        lemma_linear16_range(s as int);
    }
    let c: i32 = if s > 65536 {
        65536
    } else if s < -65536 {
        -65536
    } else {
        s
    };
    if c >= 0 {
        (((c as u64) * 32767) / 65536) as i16
    } else {
        let m: u64 = (((-c) as u64) * 32768) / 65536;
        (-(m as i32)) as i16
    }
}

/// Encode a chunk of fixed-point amplitudes as Linear16 PCM.
pub fn to_linear16(samples: &Vec<i32>) -> (out: Vec<i16>)
    ensures
        out@.len() == samples@.len(),
        forall|i: int| 0 <= i < samples@.len() ==> out@[i] as int == linear16_spec(samples@[i] as int),
{
    let mut out: Vec<i16> = Vec::new();
    let mut k: usize = 0;
    while k < samples.len()
        invariant
            k <= samples@.len(),
            out@.len() == k,
            forall|i: int| 0 <= i < k ==> out@[i] as int == linear16_spec(samples@[i] as int),
        decreases samples@.len() - k,
    {
        let v = encode_linear16(samples[k]);
        out.push(v);
        k = k + 1;
    }
    out
}

/// A 16-bit capture sample as a fixed-point amplitude: divide by the
/// largest positive 16-bit value, truncating toward zero.
pub open spec fn sample_from_i16_spec(s: int) -> int {
    if s >= 0 {
        (s * 65536) / 32767
    } else {
        -(((-s) * 65536) / 32767)
    }
}

/// Convert one 16-bit capture sample to a fixed-point amplitude.
pub fn sample_from_i16(s: i16) -> (q: i32)
    ensures
        q as int == sample_from_i16_spec(s as int),
        -65539 <= q <= 65536,
{
    proof {
        if s >= 0 {
            assert((s as int) * 65536 <= 32767 * 65536) by (nonlinear_arith)
                requires s as int <= 32767;
            assert((s as int) * 65536 >= 0) by (nonlinear_arith)
                requires s as int >= 0;
            lemma_div_is_ordered(0int, (s as int) * 65536, 32767);
            lemma_div_is_ordered((s as int) * 65536, 32767int * 65536, 32767);
            assert(32767 * 65536 / 32767 == 65536);
        } else {
            assert((-(s as int)) * 65536 <= 32768 * 65536) by (nonlinear_arith)
                requires -(s as int) <= 32768;
            assert((-(s as int)) * 65536 >= 0) by (nonlinear_arith)
                requires -(s as int) >= 0;
            lemma_div_is_ordered(0int, (-(s as int)) * 65536, 32767);
            lemma_div_is_ordered((-(s as int)) * 65536, 32768int * 65536, 32767);
            assert(32768 * 65536 / 32767 == 65538);
        }
    }
    if s >= 0 {
        (((s as u64) * 65536) / 32767) as i32
    } else {
        let m: u64 = ((-(s as i32)) as u64 * 65536) / 32767;
        -(m as i32)
    }
}

} // verus!
