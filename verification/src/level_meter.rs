//! Loudness of a chunk: the root mean square of its samples, on the scale
//! of the samples themselves and limited to full scale.

use vstd::prelude::*;
use crate::sample::FULL_SCALE;

verus! {

/// The sum of the squares of all samples.
pub open spec fn sum_squares(s: Seq<i32>) -> nat
    decreases s.len(),
{
    if s.len() == 0 {
        0
    } else {
        sum_squares(s.drop_last()) + ((s.last() as int) * (s.last() as int)) as nat
    }
}

/// The mean of the squares of all samples, rounded down; 0 for an empty
/// chunk.
pub open spec fn mean_square(s: Seq<i32>) -> nat {
    if s.len() == 0 {
        0
    } else {
        sum_squares(s) / s.len()
    }
}

/// `r` is the square root of `x`, rounded down.
pub open spec fn is_floor_sqrt(x: nat, r: nat) -> bool {
    r * r <= x < (r + 1) * (r + 1)
}

/// The square root of `x`, rounded down.
pub open spec fn floor_sqrt(x: nat) -> nat {
    choose|r: nat| is_floor_sqrt(x, r)
}

/// The level of a chunk: the root of its mean square, limited to
/// `FULL_SCALE`. An empty chunk has level 0.
pub open spec fn rms_level(s: Seq<i32>) -> nat {
    let r = floor_sqrt(mean_square(s));
    if r > FULL_SCALE as nat {
        FULL_SCALE as nat
    } else {
        r
    }
}

/// Only one number is the rounded-down square root of `x`.
pub proof fn lemma_floor_sqrt_unique(x: nat, r1: nat, r2: nat)
    requires
        is_floor_sqrt(x, r1),
        is_floor_sqrt(x, r2),
    ensures
        r1 == r2,
{
    if r1 < r2 {
        assert((r1 + 1) * (r1 + 1) <= r2 * r2) by (nonlinear_arith)
            requires
                r1 + 1 <= r2,
        ;
    } else if r2 < r1 {
        assert((r2 + 1) * (r2 + 1) <= r1 * r1) by (nonlinear_arith)
            requires
                r2 + 1 <= r1,
        ;
    }
}

/// A number that passes for the rounded-down square root of `x` is it.
pub proof fn lemma_floor_sqrt_is(x: nat, r: nat)
    requires
        is_floor_sqrt(x, r),
    ensures
        floor_sqrt(x) == r,
{
    lemma_floor_sqrt_unique(x, r, floor_sqrt(x));
}

/// The sum of squares of `n` samples is at most `n` times the largest
/// square of a sample.
pub proof fn lemma_sum_squares_bound(s: Seq<i32>)
    ensures
        sum_squares(s) <= s.len() * 0x4000_0000_0000_0000,
    decreases s.len(),
{
    if s.len() > 0 {
        lemma_sum_squares_bound(s.drop_last());
        let v = s.last() as int;
        assert(0 <= v * v <= 0x4000_0000_0000_0000) by (nonlinear_arith)
            requires
                -0x8000_0000 <= v < 0x8000_0000,
        ;
        assert((s.len() - 1) * 0x4000_0000_0000_0000 + 0x4000_0000_0000_0000 == s.len()
            * 0x4000_0000_0000_0000) by (nonlinear_arith);
    }
}

/// The square root of a number below 2^64, rounded down.
pub fn integer_sqrt(x: u64) -> (r: u32)
    ensures
        r as nat == floor_sqrt(x as nat),
        is_floor_sqrt(x as nat, r as nat),
{
    let mut lo: u64 = 0;
    let mut hi: u64 = 0x1_0000_0000;
    assert(0x1_0000_0000u64 * 0x1_0000_0000u64 > x) by (nonlinear_arith);
    while hi - lo > 1
        invariant
            lo < hi <= 0x1_0000_0000,
            lo * lo <= x,
            x < hi * hi,
        decreases hi - lo,
    {
        let mid: u64 = lo + (hi - lo) / 2;
        assert(mid * mid <= 0xffff_ffff * 0xffff_ffff) by (nonlinear_arith)
            requires
                0 <= mid <= 0xffff_ffff,
        ;
        if mid * mid <= x {
            lo = mid;
        } else {
            hi = mid;
        }
    }
    proof {
        assert(hi == lo + 1);
        lemma_floor_sqrt_is(x as nat, lo as nat);
    }
    lo as u32
}

/// Measures chunks. It holds no state: the level of a chunk depends on
/// the chunk alone.
#[derive(Debug, Clone, Copy, PartialEq, Eq, Structural)]
pub struct LevelMeter {}

impl LevelMeter {
    pub fn new() -> (m: LevelMeter) {
        LevelMeter {  }
    }

    /// The root-mean-square level of a chunk, between 0 and `FULL_SCALE`.
    pub fn measure(&self, samples: &Vec<i32>) -> (level: u32)
        ensures
            level as nat == rms_level(samples@),
            level <= FULL_SCALE,
    {
        let root: u32 = root_mean_square(samples);
        if root > FULL_SCALE as u32 {
            FULL_SCALE as u32
        } else {
            root
        }
    }
}

/// The root of the mean square of a chunk, rounded down, with no limit
/// applied.
pub fn root_mean_square(samples: &Vec<i32>) -> (root: u32)
    ensures
        root as nat == floor_sqrt(mean_square(samples@)),
{
    let n: usize = samples.len();
    if n == 0 {
        proof {
            assert(is_floor_sqrt(0, 0)) by (nonlinear_arith);
            lemma_floor_sqrt_is(0, 0);
        }
        return 0;
    }
    let mut sum: u128 = 0;
    let mut i: usize = 0;
    while i < n
        invariant
            n == samples@.len(),
            0 <= i <= n,
            sum as nat == sum_squares(samples@.subrange(0, i as int)),
        decreases n - i,
    {
        let v: i64 = samples[i] as i64;
        proof {
            let prefix = samples@.subrange(0, i as int + 1);
            assert(prefix.drop_last() =~= samples@.subrange(0, i as int));
            assert(prefix.last() == samples@[i as int]);
            lemma_sum_squares_bound(samples@.subrange(0, i as int));
            assert(0 <= v * v <= 0x4000_0000_0000_0000) by (nonlinear_arith)
                requires
                    -0x8000_0000 <= v < 0x8000_0000,
            ;
            assert(i * 0x4000_0000_0000_0000 <= 0xffff_ffff_ffff_ffff * 0x4000_0000_0000_0000)
                by (nonlinear_arith)
                requires
                    0 <= i <= 0xffff_ffff_ffff_ffff,
            ;
        }
        let square: u64 = (v * v) as u64;
        sum = sum + square as u128;
        i += 1;
    }
    proof {
        assert(samples@.subrange(0, n as int) =~= samples@);
        lemma_sum_squares_bound(samples@);
        assert(sum_squares(samples@) / (n as nat) <= 0x4000_0000_0000_0000) by (nonlinear_arith)
            requires
                sum_squares(samples@) <= n * 0x4000_0000_0000_0000,
                n > 0,
        ;
    }
    let mean: u128 = sum / (n as u128);
    integer_sqrt(mean as u64)
}

/// The level a meter shows for a buffer of samples: the root mean square
/// limited to `FULL_SCALE`, as `LevelMeter::measure` gives it, and 0 for
/// an empty buffer.
pub fn calculate_rms(samples: &Vec<i32>) -> (level: u32)
    ensures
        level as nat == rms_level(samples@),
        level <= FULL_SCALE,
{
    LevelMeter::new().measure(samples)
}

} // verus!
