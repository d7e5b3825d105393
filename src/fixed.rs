//! Fixed-point sample arithmetic shared by every stage of the signal chain.
use vstd::prelude::*;

verus! {

/// A sample value of 1.0: samples are `i64` numerators over this unit, 2^40.
/// The unit is finer than one part in any phase period or envelope length,
/// so every step of a ramp moves the sample.
pub const ONE: i64 = 0x100_0000_0000;

/// Gains (feedback, amplification) are integer thousandths: 1000 is 1.0.
pub const GAIN_UNIT: i32 = 1000;

/// Smallest and largest values a sample can hold.
pub open spec fn sample_min() -> int {
    i64::MIN as int
}

pub open spec fn sample_max() -> int {
    i64::MAX as int
}

/// Limits `x` to the range of a sample.
pub open spec fn clamp(x: int) -> int {
    if x < sample_min() {
        sample_min()
    } else if x > sample_max() {
        sample_max()
    } else {
        x
    }
}

/// `x` scaled by `gain` thousandths, rounded toward zero.
pub open spec fn scale(x: int, gain: int) -> int {
    if x * gain >= 0 {
        (x * gain) / (GAIN_UNIT as int)
    } else {
        -((-(x * gain)) / (GAIN_UNIT as int))
    }
}

/// Saturating sum of two samples.
pub fn add_sat(a: i64, b: i64) -> (r: i64)
    ensures
        r == clamp(a + b),
{
    let s: i128 = a as i128 + b as i128;
    if s < i64::MIN as i128 {
        i64::MIN
    } else if s > i64::MAX as i128 {
        i64::MAX
    } else {
        s as i64
    }
}

/// `x` scaled by `gain` thousandths, rounded toward zero, limited to a sample.
pub fn scale_sat(x: i64, gain: i32) -> (r: i64)
    ensures
        r == clamp(scale(x as int, gain as int)),
{
    proof {
        let a = x as int;
        let b = gain as int;
        assert(-0x4000_0000_0000_0000_0000_0000 <= a * b <= 0x4000_0000_0000_0000_0000_0000)
            by (nonlinear_arith)
            requires -0x8000_0000_0000_0000 <= a < 0x8000_0000_0000_0000, -0x8000_0000 <= b < 0x8000_0000;
    }
    let p: i128 = x as i128 * gain as i128;
    let q: i128 = if p >= 0 {
        p / (GAIN_UNIT as i128)
    } else {
        -((-p) / (GAIN_UNIT as i128))
    };
    if q < i64::MIN as i128 {
        i64::MIN
    } else if q > i64::MAX as i128 {
        i64::MAX
    } else {
        q as i64
    }
}

/// For `0 <= x < k * d`, the quotient `x / d` stays below `k`.
pub proof fn lemma_div_below(x: int, d: int, k: int)
    requires
        0 <= x < k * d,
        d > 0,
    ensures
        0 <= x / d < k,
{
    vstd::arithmetic::div_mod::lemma_fundamental_div_mod(x, d);
    let q = x / d;
    let r = x % d;
    assert(0 <= q < k) by (nonlinear_arith)
        requires x == d * q + r, 0 <= r < d, 0 <= x < k * d, d > 0;
}

/// For `k * d <= x`, the quotient `x / d` is at least `k`.
pub proof fn lemma_div_at_least(x: int, d: int, k: int)
    requires
        k * d <= x,
        d > 0,
    ensures
        k <= x / d,
{
    vstd::arithmetic::div_mod::lemma_fundamental_div_mod(x, d);
    let q = x / d;
    let r = x % d;
    assert(k <= q) by (nonlinear_arith)
        requires x == d * q + r, 0 <= r < d, k * d <= x, d > 0;
}

/// Numerators at least `d` apart have different quotients by `d`.
pub proof fn lemma_div_step(x: int, y: int, d: int)
    requires
        0 <= x,
        x + d <= y,
        d > 0,
    ensures
        x / d < y / d,
{
    vstd::arithmetic::div_mod::lemma_fundamental_div_mod(x, d);
    let q = x / d;
    assert((q + 1) * d <= y) by (nonlinear_arith)
        requires x == d * q + x % d, 0 <= x % d, x + d <= y;
    lemma_div_at_least(y, d, q + 1);
}

} // verus!
