//! Fixed-point audio samples.
//!
//! A sample is an `i32` in units of 1/32768 of full scale, so `FULL_SCALE`
//! stands for amplitude 1.0 and a 16-bit capture value is its own sample.
//! Samples keep their headroom through the pipeline: nothing here limits a
//! sample to the unit range except `quantize`, the step taken right before
//! a codec sees the data.

use vstd::prelude::*;

verus! {

/// The integer that stands for amplitude 1.0.
pub const FULL_SCALE: i32 = 32768;

/// Largest value of a quantized 16-bit PCM sample.
pub const PCM_MAX: i32 = 32767;

/// Gain multiplier 1.0, in thousandths.
pub const UNITY_GAIN: u32 = 1000;

/// Largest gain multiplier a source accepts (2.0), in thousandths.
pub const MAX_GAIN: u32 = 2000;

/// Integer division that rounds toward zero.
pub open spec fn trunc_div(a: int, d: int) -> int
    recommends
        d > 0,
{
    if a >= 0 {
        a / d
    } else {
        -((-a) / d)
    }
}

/// `v` limited to `[-FULL_SCALE, FULL_SCALE]`.
pub open spec fn clamp_unit(v: int) -> int {
    if v < -(FULL_SCALE as int) {
        -(FULL_SCALE as int)
    } else if v > FULL_SCALE as int {
        FULL_SCALE as int
    } else {
        v
    }
}

/// The 16-bit PCM value of a sample: the sample is limited to the unit
/// range, scaled by `PCM_MAX / FULL_SCALE` and rounded toward zero.
pub open spec fn quantized(v: int) -> int {
    trunc_div(clamp_unit(v) * (PCM_MAX as int), FULL_SCALE as int)
}

/// `quantized` applied to every sample of a chunk.
pub open spec fn quantized_seq(s: Seq<i32>) -> Seq<i16> {
    Seq::new(s.len(), |i: int| quantized(s[i] as int) as i16)
}

/// `v` limited to the range of `i32`.
pub open spec fn saturated(v: int) -> int {
    if v < i32::MIN as int {
        i32::MIN as int
    } else if v > i32::MAX as int {
        i32::MAX as int
    } else {
        v
    }
}

/// A gain limited to `[0, MAX_GAIN]`.
pub open spec fn clamped_gain(gain: int) -> int {
    if gain > MAX_GAIN as int {
        MAX_GAIN as int
    } else if gain < 0 {
        0
    } else {
        gain
    }
}

/// A sample multiplied by a gain in thousandths, rounded toward zero and
/// limited to the range of `i32`.
pub open spec fn gained(v: int, gain: int) -> int {
    saturated(trunc_div(v * gain, UNITY_GAIN as int))
}

/// The arithmetic mean of two samples, rounded toward zero.
pub open spec fn mean_of(a: int, b: int) -> int {
    trunc_div(a + b, 2)
}

/// The quantized value of every sample lies in `[-PCM_MAX, PCM_MAX]`.
pub proof fn lemma_quantized_range(v: int)
    ensures
        -(PCM_MAX as int) <= quantized(v) <= PCM_MAX as int,
        v >= 0 ==> quantized(v) >= 0,
        v <= 0 ==> quantized(v) <= 0,
{
    let c = clamp_unit(v);
    if c >= 0 {
        assert(0 <= c * 32767 <= 32768 * 32767) by (nonlinear_arith)
            requires
                0 <= c <= 32768,
        ;
    } else {
        assert(0 <= (-(c * 32767)) <= 32768 * 32767) by (nonlinear_arith)
            requires
                -32768 <= c < 0,
        ;
    }
}

/// Quantizing chunk by chunk is quantizing the whole.
pub proof fn lemma_quantized_seq_concat(a: Seq<i32>, b: Seq<i32>)
    ensures
        quantized_seq(a + b) == quantized_seq(a) + quantized_seq(b),
{
    assert(quantized_seq(a + b) =~= quantized_seq(a) + quantized_seq(b));
}

/// The mean of two samples is again a sample.
pub proof fn lemma_mean_range(a: i32, b: i32)
    ensures
        i32::MIN as int <= mean_of(a as int, b as int) <= i32::MAX as int,
{
}

/// Limits a sample to the unit range.
pub fn clamp_sample(v: i32) -> (r: i32)
    ensures
        r as int == clamp_unit(v as int),
{
    if v < -FULL_SCALE {
        -FULL_SCALE
    } else if v > FULL_SCALE {
        FULL_SCALE
    } else {
        v
    }
}

/// Turns a sample into 16-bit PCM: out-of-range input is no error, it is
/// limited to the unit range first.
pub fn quantize(v: i32) -> (r: i16)
    ensures
        r as int == quantized(v as int),
{
    let c: i32 = clamp_sample(v);
    proof {
        lemma_quantized_range(v as int);
        if c >= 0 {
            assert(0 <= c * 32767 <= 32768 * 32767) by (nonlinear_arith)
                requires
                    0 <= c <= 32768,
            ;
        } else {
            assert(-(32768 * 32767) <= c * 32767 < 0) by (nonlinear_arith)
                requires
                    -32768 <= c < 0,
            ;
        }
    }
    let scaled: i32 = c * PCM_MAX;
    let q: i32 = scaled / FULL_SCALE;
    q as i16
}

/// Quantizes a whole chunk, keeping the order of its samples.
pub fn quantize_chunk(samples: &Vec<i32>) -> (pcm: Vec<i16>)
    ensures
        pcm@ == quantized_seq(samples@),
{
    let mut pcm: Vec<i16> = Vec::new();
    let mut i: usize = 0;
    while i < samples.len()
        invariant
            0 <= i <= samples.len(),
            pcm@.len() == i,
            forall|k: int| 0 <= k < i ==> pcm@[k] as int == quantized(samples@[k] as int),
        decreases samples.len() - i,
    {
        let q: i16 = quantize(samples[i]);
        pcm.push(q);
        i += 1;
    }
    proof {
        assert forall|k: int| 0 <= k < pcm@.len() implies pcm@[k] == quantized_seq(samples@)[k] by {
            lemma_quantized_range(samples@[k] as int);
        }
        assert(pcm@ =~= quantized_seq(samples@));
    }
    pcm
}

/// Limits a gain to `[0, MAX_GAIN]`.
pub fn clamp_gain(gain: u32) -> (r: u32)
    ensures
        r as int == clamped_gain(gain as int),
        r <= MAX_GAIN,
{
    if gain > MAX_GAIN {
        MAX_GAIN
    } else {
        gain
    }
}

/// Applies a gain in thousandths to one sample.
pub fn apply_gain(v: i32, gain: u32) -> (r: i32)
    ensures
        r as int == gained(v as int, gain as int),
{
    proof {
        assert(-0x8000_0000_0000_0000 < v * gain < 0x8000_0000_0000_0000) by (nonlinear_arith)
            requires
                -0x8000_0000 <= v < 0x8000_0000,
                0 <= gain < 0x1_0000_0000,
        ;
    }
    let wide: i64 = (v as i64) * (gain as i64);
    let scaled: i64 = wide / 1000;
    if scaled < i32::MIN as i64 {
        i32::MIN
    } else if scaled > i32::MAX as i64 {
        i32::MAX
    } else {
        scaled as i32
    }
}

/// The mean of two samples, rounded toward zero.
pub fn mean_sample(a: i32, b: i32) -> (r: i32)
    ensures
        r as int == mean_of(a as int, b as int),
{
    let sum: i64 = (a as i64) + (b as i64);
    let half: i64 = sum / 2;
    half as i32
}

} // verus!
