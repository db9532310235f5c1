//! Downmix and sample-rate conversion of fixed-point audio.
//!
//! Interleaved frames are first averaged per frame down to one channel.
//! When the input and output rates differ (or the input is not already
//! mono), the mono signal is cut into fixed chunks of
//! [`RESAMPLE_CHUNK`] samples (10 ms at 48 kHz); each full chunk is
//! converted to the output rate by linear interpolation between
//! neighbouring samples, and a trailing partial chunk is dropped — a
//! deliberate, documented limitation of the streaming design, where the
//! continuous capture stream supplies full chunks.

use vstd::prelude::*;
use vstd::arithmetic::div_mod::{
    lemma_div_is_ordered, lemma_div_nonincreasing, lemma_fundamental_div_mod,
    lemma_fundamental_div_mod_converse, lemma_mod_division_less_than_divisor,
};
use vstd::arithmetic::mul::lemma_mul_inequality;

verus! {

/// Number of mono input samples handed to the rate converter at a time.
pub const RESAMPLE_CHUNK: usize = 480;

/// Signed division truncating toward zero (for a positive divisor).
pub open spec fn div_trunc(a: int, b: int) -> int
    recommends
        b >= 1,
{
    if a >= 0 {
        a / b
    } else {
        -((-a) / b)
    }
}

/// Sum of `count` samples starting at `start`.
pub open spec fn frame_sum(s: Seq<i32>, start: int, count: int) -> int
    decreases count,
{
    if count <= 0 {
        0
    } else {
        frame_sum(s, start, count - 1) + s[start + count - 1]
    }
}

/// The mono signal: every interleaved frame of `ch` samples replaced by
/// its average (truncating toward zero, and always dividing by the full
/// channel count, also for a shorter trailing frame).
pub open spec fn downmix_spec(s: Seq<i32>, ch: int) -> Seq<int>
    recommends
        1 <= ch,
    decreases s.len(),
{
    if ch < 1 || s.len() == 0 {
        Seq::empty()
    } else if s.len() < ch {
        seq![div_trunc(frame_sum(s, 0, s.len() as int), ch)]
    } else {
        seq![div_trunc(frame_sum(s, 0, ch), ch)] + downmix_spec(s.skip(ch), ch)
    }
}

/// How many output samples one full chunk yields.
pub open spec fn out_per_chunk(in_rate: int, out_rate: int) -> int
    recommends
        in_rate >= 1,
{
    (480 * out_rate) / in_rate
}

/// Linear interpolation of the sample at output index `j`: position
/// `j * in_rate / out_rate` between input samples, interpolated from its
/// two neighbours (held at the last sample of the chunk).
pub open spec fn lerp_sample(c: Seq<int>, in_rate: int, out_rate: int, j: int) -> int
    recommends
        in_rate >= 1,
        out_rate >= 1,
        j >= 0,
{
    let pos = j * in_rate;
    let idx = pos / out_rate;
    let frac = pos % out_rate;
    if 0 <= idx && idx + 1 < c.len() {
        c[idx] + div_trunc((c[idx + 1] - c[idx]) * frac, out_rate)
    } else if 0 <= idx && idx < c.len() {
        c[idx]
    } else {
        0
    }
}

/// The output of the rate converter for one full chunk.
pub open spec fn chunk_out(c: Seq<int>, in_rate: int, out_rate: int) -> Seq<int>
    recommends
        in_rate >= 1,
        out_rate >= 1,
{
    Seq::new(out_per_chunk(in_rate, out_rate) as nat, |j: int| lerp_sample(c, in_rate, out_rate, j))
}

/// The output of the rate converter for a whole mono signal: full
/// chunks converted in order, a trailing partial chunk dropped.
pub open spec fn resampled_spec(s: Seq<int>, in_rate: int, out_rate: int) -> Seq<int>
    recommends
        in_rate >= 1,
        out_rate >= 1,
    decreases s.len(),
{
    if s.len() < 480 {
        Seq::empty()
    } else {
        chunk_out(s.take(480), in_rate, out_rate) + resampled_spec(s.skip(480), in_rate, out_rate)
    }
}

/// A sequence of fixed-point samples as mathematical integers.
pub open spec fn to_ints(s: Seq<i32>) -> Seq<int> {
    s.map_values(|x: i32| x as int)
}

/// What `process` returns: the mono downmix, rate-converted unless the
/// configuration is a pure passthrough.
pub open spec fn process_spec(s: Seq<i32>, ch: int, in_rate: int, out_rate: int, active: bool) -> Seq<int>
    recommends
        1 <= ch,
        in_rate >= 1,
        out_rate >= 1,
{
    if active {
        resampled_spec(downmix_spec(s, ch), in_rate, out_rate)
    } else {
        downmix_spec(s, ch)
    }
}

/// Summing a frame through `skip` reads the same samples.
proof fn lemma_frame_sum_skip(s: Seq<i32>, off: int, count: int)
    requires
        0 <= off,
        0 <= count,
        off + count <= s.len(),
    ensures
        frame_sum(s.skip(off), 0, count) == frame_sum(s, off, count),
    decreases count,
{
    if count > 0 {
        lemma_frame_sum_skip(s, off, count - 1);
        assert(s.skip(off)[count - 1] == s[off + count - 1]);
    }
}

/// Streaming downmix and rate conversion stage.
pub struct AudioResampler {
    active: bool,
    input_rate: u32,
    output_rate: u32,
    input_channels: usize,
    chunk_size: usize,
}

impl AudioResampler {
    /// The configured input rate.
    pub closed spec fn in_rate(&self) -> u32 {
        self.input_rate
    }

    /// The configured output rate.
    pub closed spec fn out_rate(&self) -> u32 {
        self.output_rate
    }

    /// The configured interleaved channel count.
    pub closed spec fn channels(&self) -> usize {
        self.input_channels
    }

    /// Whether a rate converter is attached (false for a passthrough).
    pub closed spec fn is_active(&self) -> bool {
        self.active
    }

    /// Well-formedness: positive rates, a sane channel count, and a
    /// converter exactly when the stream is not already mono at the
    /// target rate.
    pub closed spec fn wf(&self) -> bool {
        &&& self.input_rate >= 1
        &&& self.output_rate >= 1
        &&& 1 <= self.input_channels <= 65535
        &&& self.active <==> !(self.input_rate == self.output_rate && self.input_channels == 1)
        &&& self.chunk_size == if self.active { 480int } else { 0int }
    }

    /// Build a resampling stage.  The configuration is rejected — with
    /// the error below — exactly when a rate is zero or the channel
    /// count is zero or beyond what interleaved 16-bit capture can
    /// carry.
    pub fn new(input_rate: u32, output_rate: u32, channels: usize) -> (r: Result<AudioResampler, String>)
        ensures
            (r is Ok) <==> (input_rate >= 1 && output_rate >= 1 && 1 <= channels <= 65535),
            r matches Ok(rs) ==> rs.wf() && rs.in_rate() == input_rate && rs.out_rate() == output_rate
                && rs.channels() == channels
                && (rs.is_active() <==> !(input_rate == output_rate && channels == 1)),
            r matches Err(e) ==> e@ == "Failed to create resampler: invalid configuration"@,
    {
        if input_rate == 0 || output_rate == 0 || channels == 0 || channels > 65535 {
            return Err("Failed to create resampler: invalid configuration".to_owned());
        }
        if input_rate == output_rate && channels == 1 {
            Ok(AudioResampler {
                active: false,
                input_rate,
                output_rate,
                input_channels: channels,
                chunk_size: 0,
            })
        } else {
            Ok(AudioResampler {
                active: true,
                input_rate,
                output_rate,
                input_channels: channels,
                chunk_size: RESAMPLE_CHUNK,
            })
        }
    }

    /// Process one interleaved chunk: downmix to mono, then convert the
    /// rate unless the stage is a passthrough.  This converter cannot
    /// fail on a chunk; the `Result` mirrors the stage's interface.
    pub fn process(&mut self, input: &Vec<i32>) -> (r: Result<Vec<i32>, String>)
        requires
            old(self).wf(),
        ensures
            *final(self) == *old(self),
            r is Ok,
            r matches Ok(out) ==> to_ints(out@) =~= process_spec(
                input@,
                old(self).channels() as int,
                old(self).in_rate() as int,
                old(self).out_rate() as int,
                old(self).is_active(),
            ),
            (old(self).in_rate() == old(self).out_rate() && old(self).channels() == 1)
                ==> (r matches Ok(out) && out@ =~= input@),
    {
        let ch = self.input_channels;
        let mono = downmix(input, ch);
        proof {
            if self.input_rate == self.output_rate && self.input_channels == 1 {
                assert(!self.active);
                lemma_downmix_mono(input@);
                assert(mono@.len() == input@.len());
                assert forall|i: int| 0 <= i < mono@.len() implies mono@[i] == input@[i] by {
                    assert(to_ints(mono@)[i] == downmix_spec(input@, 1)[i]);
                    assert(to_ints(input@)[i] == input@[i] as int);
                }
                assert(mono@ =~= input@);
            }
        }
        if !self.active {
            return Ok(mono);
        }
        let out = resample_all(&mono, self.input_rate, self.output_rate);
        Ok(out)
    }
}

/// On one channel the downmix leaves the signal unchanged.
proof fn lemma_downmix_mono(s: Seq<i32>)
    ensures
        downmix_spec(s, 1) =~= to_ints(s),
    decreases s.len(),
{
    if s.len() == 0 {
    } else {
        lemma_downmix_mono(s.skip(1));
        assert(frame_sum(s, 0, 0) == 0);
        assert(frame_sum(s, 0, 1) == s[0]);
        let x = s[0] as int;
        vstd::arithmetic::div_mod::lemma_div_basics(x);
        vstd::arithmetic::div_mod::lemma_div_basics(-x);
        assert(div_trunc(x, 1) == x);
        assert(downmix_spec(s, 1) == seq![x] + downmix_spec(s.skip(1), 1));
        assert forall|i: int| 0 <= i < s.len() implies downmix_spec(s, 1)[i] == s[i] as int by {
            if i > 0 {
                assert(downmix_spec(s.skip(1), 1)[i - 1] == to_ints(s.skip(1))[i - 1]);
                assert(s.skip(1)[i - 1] == s[i]);
            }
        }
    }
}

/// Average every interleaved frame down to one channel.
pub fn downmix(input: &Vec<i32>, ch: usize) -> (mono: Vec<i32>)
    requires
        1 <= ch <= 65535,
    ensures
        to_ints(mono@) =~= downmix_spec(input@, ch as int),
{
    let ilen = input.len();
    let mut mono: Vec<i32> = Vec::new();
    let mut start: usize = 0;
    proof {
        assert(input@.skip(0) =~= input@);
        assert(to_ints(mono@) + downmix_spec(input@, ch as int) =~= downmix_spec(input@, ch as int));
    }
    while start < ilen
        invariant
            1 <= ch <= 65535,
            ilen == input@.len(),
            start <= ilen,
            to_ints(mono@) + downmix_spec(input@.skip(start as int), ch as int)
                =~= downmix_spec(input@, ch as int),
        decreases ilen - start,
    {
        let ghost rest = input@.skip(start as int);
        let ghost prev = to_ints(mono@);
        let count = if ilen - start < ch {
            ilen - start
        } else {
            ch
        };
        let a = frame_average(input, start, count, ch);
        proof {
            lemma_frame_sum_skip(input@, start as int, count as int);
            assert(a as int == div_trunc(frame_sum(rest, 0, count as int), ch as int));
        }
        mono.push(a);
        proof {
            assert(to_ints(mono@) =~= prev.push(a as int));
            if count < ch {
                assert(rest.len() == count);
                assert(downmix_spec(rest, ch as int) =~= seq![a as int]);
                assert(prev.push(a as int) + Seq::<int>::empty() =~= prev + seq![a as int]);
                assert(input@.skip(ilen as int).len() == 0);
            } else {
                assert(downmix_spec(rest, ch as int)
                    == seq![a as int] + downmix_spec(rest.skip(ch as int), ch as int));
                assert(rest.skip(ch as int) =~= input@.skip(start as int + ch as int));
                assert(prev.push(a as int) + downmix_spec(input@.skip(start as int + ch as int), ch as int)
                    =~= prev + downmix_spec(rest, ch as int));
            }
        }
        start = start + count;
    }
    proof {
        assert(input@.skip(start as int).len() == 0);
        assert(to_ints(mono@) =~= downmix_spec(input@, ch as int));
    }
    mono
}

/// Average of one frame (divided by the full channel count).
fn frame_average(input: &Vec<i32>, start: usize, count: usize, ch: usize) -> (a: i32)
    requires
        1 <= count <= ch <= 65535,
        start + count <= input@.len(),
    ensures
        a as int == div_trunc(frame_sum(input@, start as int, count as int), ch as int),
{
    let ilen = input.len();
    let mut sum: i64 = 0;
    let mut k: usize = 0;
    while k < count
        invariant
            ilen == input@.len(),
            start + count <= ilen,
            k <= count,
            count <= 65535,
            sum == frame_sum(input@, start as int, k as int),
            -(k as int) * 0x8000_0000 <= sum <= (k as int) * 0x7fff_ffff,
        decreases count - k,
    {
        let v = input[start + k];
        proof {
            assert(-((k + 1) as int) * 0x8000_0000 <= sum + v <= ((k + 1) as int) * 0x7fff_ffff);
        }
        sum = sum + v as i64;
        k = k + 1;
    }
    let q = div_trunc_i64(sum, ch as i64);
    proof {
        let s = frame_sum(input@, start as int, count as int);
        if s >= 0 {
            assert(s <= (ch as int) * 0x7fff_ffff) by {
                lemma_mul_inequality(count as int, ch as int, 0x7fff_ffff);
            }
            lemma_div_is_ordered(s, (ch as int) * 0x7fff_ffff, ch as int);
            assert((ch as int) * 0x7fff_ffff / (ch as int) == 0x7fff_ffff) by {
                lemma_fundamental_div_mod_converse((ch as int) * 0x7fff_ffff, ch as int, 0x7fff_ffff, 0);
            }
            lemma_div_is_ordered(0int, s, ch as int);
        } else {
            assert(-s <= (ch as int) * 0x8000_0000) by {
                lemma_mul_inequality(count as int, ch as int, 0x8000_0000);
            }
            lemma_div_is_ordered(-s, (ch as int) * 0x8000_0000, ch as int);
            assert((ch as int) * 0x8000_0000 / (ch as int) == 0x8000_0000) by {
                lemma_fundamental_div_mod_converse((ch as int) * 0x8000_0000, ch as int, 0x8000_0000, 0);
            }
            lemma_div_is_ordered(0int, -s, ch as int);
        }
    }
    q as i32
}

/// Truncating signed division.
fn div_trunc_i64(a: i64, b: i64) -> (q: i64)
    requires
        b >= 1,
    ensures
        q as int == div_trunc(a as int, b as int),
        a >= 0 ==> 0 <= q <= a,
        a < 0 ==> a <= q <= 0,
{
    if a >= 0 {
        proof {
            lemma_div_is_ordered(0int, a as int, b as int);
            lemma_div_nonincreasing(a as int, b as int);
        }
        ((a as u64) / (b as u64)) as i64
    } else {
        proof {
            let ma = -(a as int);
            lemma_div_is_ordered(0int, ma, b as int);
            lemma_div_nonincreasing(ma, b as int);
        }
        let m = ((-(a as i128)) as u128) / (b as u128);
        (-(m as i128)) as i64
    }
}

/// Rate-convert a whole mono signal, chunk by chunk.
fn resample_all(mono: &Vec<i32>, in_rate: u32, out_rate: u32) -> (out: Vec<i32>)
    requires
        in_rate >= 1,
        out_rate >= 1,
    ensures
        to_ints(out@) =~= resampled_spec(to_ints(mono@), in_rate as int, out_rate as int),
{
    let ghost ints = to_ints(mono@);
    let mut out: Vec<i32> = Vec::new();
    let n = mono.len();
    let mut base: usize = 0;
    proof {
        assert(ints.skip(0) =~= ints);
        assert(to_ints(out@) + resampled_spec(ints, in_rate as int, out_rate as int)
            =~= resampled_spec(ints, in_rate as int, out_rate as int));
    }
    while n - base >= 480
        invariant
            in_rate >= 1,
            out_rate >= 1,
            n == mono@.len(),
            ints == to_ints(mono@),
            base <= n,
            to_ints(out@) + resampled_spec(ints.skip(base as int), in_rate as int, out_rate as int)
                =~= resampled_spec(ints, in_rate as int, out_rate as int),
        decreases n - base,
    {
        let ghost rest = ints.skip(base as int);
        let ghost chunk = ints.subrange(base as int, base as int + 480);
        proof {
            assert(rest.len() >= 480);
            assert(rest.take(480) =~= chunk);
            assert(rest.skip(480) =~= ints.skip(base as int + 480));
            assert(resampled_spec(rest, in_rate as int, out_rate as int)
                == chunk_out(chunk, in_rate as int, out_rate as int)
                    + resampled_spec(ints.skip(base as int + 480), in_rate as int, out_rate as int));
        }
        let out_n = (480u64 * out_rate as u64) / in_rate as u64;
        let ghost prev = to_ints(out@);
        proof {
            lemma_div_is_ordered(0int, 480 * out_rate as int, in_rate as int);
            assert(chunk_out(chunk, in_rate as int, out_rate as int).take(0) =~= Seq::<int>::empty());
            assert(prev + Seq::<int>::empty() =~= prev);
        }
        let mut j: u64 = 0;
        while j < out_n
            invariant
                in_rate >= 1,
                out_rate >= 1,
                n == mono@.len(),
                ints == to_ints(mono@),
                base + 480 <= n,
                chunk == ints.subrange(base as int, base as int + 480),
                out_n == out_per_chunk(in_rate as int, out_rate as int),
                j <= out_n,
                to_ints(out@) =~= prev + chunk_out(chunk, in_rate as int, out_rate as int).take(j as int),
            decreases out_n - j,
        {
            let ghost mid = to_ints(out@);
            let v = lerp_point(mono, base, j, in_rate, out_rate);
            out.push(v);
            proof {
                assert(to_ints(out@) =~= mid.push(v as int));
                assert(chunk_out(chunk, in_rate as int, out_rate as int).take(j as int + 1)
                    =~= chunk_out(chunk, in_rate as int, out_rate as int).take(j as int)
                        .push(lerp_sample(chunk, in_rate as int, out_rate as int, j as int)));
                assert(mid.push(v as int)
                    =~= prev + chunk_out(chunk, in_rate as int, out_rate as int).take(j as int + 1));
            }
            j = j + 1;
        }
        proof {
            assert(chunk_out(chunk, in_rate as int, out_rate as int).take(out_n as int)
                =~= chunk_out(chunk, in_rate as int, out_rate as int));
            assert(to_ints(out@) + resampled_spec(ints.skip(base as int + 480), in_rate as int, out_rate as int)
                =~= prev + (chunk_out(chunk, in_rate as int, out_rate as int)
                    + resampled_spec(ints.skip(base as int + 480), in_rate as int, out_rate as int)));
            assert(prev + resampled_spec(rest, in_rate as int, out_rate as int)
                =~= resampled_spec(ints, in_rate as int, out_rate as int));
        }
        base = base + 480;
    }
    proof {
        assert(ints.skip(base as int).len() < 480);
        assert(resampled_spec(ints.skip(base as int), in_rate as int, out_rate as int)
            =~= Seq::<int>::empty());
        assert(to_ints(out@) =~= resampled_spec(ints, in_rate as int, out_rate as int));
    }
    out
}

/// One linearly interpolated output sample from the chunk at `base`.
fn lerp_point(mono: &Vec<i32>, base: usize, j: u64, in_rate: u32, out_rate: u32) -> (v: i32)
    requires
        in_rate >= 1,
        out_rate >= 1,
        base + 480 <= mono@.len(),
        j < out_per_chunk(in_rate as int, out_rate as int),
    ensures
        v as int == lerp_sample(
            to_ints(mono@).subrange(base as int, base as int + 480),
            in_rate as int,
            out_rate as int,
            j as int,
        ),
{
    let ghost chunk = to_ints(mono@).subrange(base as int, base as int + 480);
    proof {
        // j < (480 * out) / in  ==>  j * in <= 480 * out - in, so the
        // source position lies inside the chunk.
        let jj = j as int;
        let ii = in_rate as int;
        let oo = out_rate as int;
        lemma_fundamental_div_mod(480 * oo, ii);
        lemma_mod_division_less_than_divisor(480 * oo, ii);
        assert(out_per_chunk(ii, oo) * ii <= 480 * oo) by (nonlinear_arith)
            requires 480 * oo == ii * out_per_chunk(ii, oo) + (480 * oo) % ii, (480 * oo) % ii >= 0;
        lemma_mul_inequality(jj + 1, out_per_chunk(ii, oo), ii);
        assert((jj + 1) * ii == jj * ii + ii) by (nonlinear_arith);
        assert(jj * ii <= 480 * oo - ii);
        assert(jj * ii >= 0) by (nonlinear_arith)
            requires jj >= 0, ii >= 1;
        lemma_div_is_ordered(jj * ii, 480 * oo - 1, oo);
        lemma_fundamental_div_mod_converse(480 * oo - 1, oo, 479, oo - 1);
        assert((jj * ii) / oo <= 479);
        lemma_div_is_ordered(0int, jj * ii, oo);
        lemma_mod_division_less_than_divisor(jj * ii, oo);
    }
    let mlen = mono.len();
    let pos: u64 = j * (in_rate as u64);
    let idx64: u64 = pos / (out_rate as u64);
    let frac: u64 = pos % (out_rate as u64);
    let idx: usize = idx64 as usize;
    proof {
        assert(idx < 480);
        assert(base + idx < mlen);
    }
    let s0 = mono[base + idx];
    proof {
        assert(chunk[idx as int] == s0 as int);
    }
    if idx + 1 < 480 {
        let s1 = mono[base + idx + 1];
        proof {
            assert(chunk[idx as int + 1] == s1 as int);
        }
        let diff: i64 = (s1 as i64) - (s0 as i64);
        let t = lerp_offset(diff, frac, out_rate);
        (s0 as i64 + t) as i32
    } else {
        s0
    }
}

/// The interpolation offset `diff * frac / out_rate`, truncating toward
/// zero; it never exceeds `diff` in magnitude.
fn lerp_offset(diff: i64, frac: u64, out_rate: u32) -> (t: i64)
    requires
        out_rate >= 1,
        frac < out_rate,
        -0xffff_ffff <= diff <= 0xffff_ffff,
    ensures
        t as int == div_trunc(diff as int * frac as int, out_rate as int),
        diff >= 0 ==> 0 <= t <= diff,
        diff < 0 ==> diff <= t <= 0,
{
    proof {
        let dd = diff as int;
        let ff = frac as int;
        let oo = out_rate as int;
        assert(-0x1_0000_0000_0000_0000 < dd * ff < 0x1_0000_0000_0000_0000) by (nonlinear_arith)
            requires -0xffff_ffff <= dd <= 0xffff_ffff, 0 <= ff <= 0xffff_ffff;
        if dd >= 0 {
            assert(dd * ff <= oo * dd) by (nonlinear_arith)
                requires dd >= 0, ff < oo;
            lemma_div_is_ordered(dd * ff, oo * dd, oo);
            lemma_fundamental_div_mod_converse(oo * dd, oo, dd, 0);
            assert(dd * ff >= 0) by (nonlinear_arith)
                requires dd >= 0, ff >= 0;
            lemma_div_is_ordered(0int, dd * ff, oo);
        } else {
            assert(-(dd * ff) == (-dd) * ff) by (nonlinear_arith);
            assert((-dd) * ff <= oo * (-dd)) by (nonlinear_arith)
                requires dd < 0, ff < oo;
            lemma_div_is_ordered((-dd) * ff, oo * (-dd), oo);
            lemma_fundamental_div_mod_converse(oo * (-dd), oo, -dd, 0);
            assert((-dd) * ff >= 0) by (nonlinear_arith)
                requires dd < 0, ff >= 0;
            lemma_div_is_ordered(0int, (-dd) * ff, oo);
        }
    }
    let num: i128 = (diff as i128) * (frac as i128);
    if num >= 0 {
        (((num as u128) / (out_rate as u128)) as u64) as i64
    } else {
        let m = ((-num) as u128) / (out_rate as u128);
        (-(m as i128)) as i64
    }
}

} // verus!
