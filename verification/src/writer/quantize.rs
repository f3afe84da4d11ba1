//! Quantization of scalars to unsigned 16-bit steps of a declared range.

use vstd::prelude::*;
use crate::fixed::{
    Fixed,
    lemma_round_div_exact,
    lemma_round_div_monotone,
    lemma_round_div_nearest,
    round_div,
    round_div_exec,
};

verus! {

/// The step, from 0 to 65535, nearest to `f` in the range from `min` to
/// `max`: `(f - min) / (max - min) * 65535`, rounded.
pub open spec fn quantized(f: int, min: int, max: int) -> int {
    round_div((f - min) * 65535, max - min)
}

/// 65535 times the value that the step `q` of the range from `min` to `max`
/// stands for, in raw units: the value itself is `min + q (max - min) /
/// 65535`.
pub open spec fn dequantized_scaled(q: int, min: int, max: int) -> int {
    65535 * min + q * (max - min)
}

/// The scalar nearest to the value that the step `q` of the range stands
/// for.
pub open spec fn dequantized(q: int, min: int, max: int) -> int {
    min + round_div(q * (max - min), 65535)
}

/// The step of a value within the range lies from 0 to 65535, the ends of
/// the range at the ends of the steps.
pub proof fn lemma_quantized_range(f: int, min: int, max: int)
    requires
        min < max,
        min <= f <= max,
    ensures
        0 <= quantized(f, min, max) <= 65535,
        quantized(min, min, max) == 0,
        quantized(max, min, max) == 65535,
{
    let d = max - min;
    lemma_round_div_exact(0, d);
    lemma_round_div_exact(65535, d);
    assert((f - min) * 65535 <= 65535 * d) by (nonlinear_arith)
        requires
            f - min <= d,
    ;
    assert((f - min) * 65535 >= 0 * d) by (nonlinear_arith)
        requires
            f - min >= 0,
    ;
    assert((max - min) * 65535 == 65535 * d) by (nonlinear_arith)
        requires
            d == max - min,
    ;
    assert((min - min) * 65535 == 0 * d) by (nonlinear_arith);
    lemma_round_div_monotone(0 * d, (f - min) * 65535, d);
    lemma_round_div_monotone((f - min) * 65535, 65535 * d, d);
}

/// A value within the range comes back from its step to within half a
/// step: the value that the step stands for differs from `f` by at most
/// `(max - min) / (2 * 65535)`, so by less than `(max - min) / 65535`.
pub proof fn lemma_quantize_round_trip(f: int, min: int, max: int)
    requires
        min < max,
        min <= f <= max,
    ensures
        -(max - min) <= 2 * (dequantized_scaled(quantized(f, min, max), min, max) - 65535 * f) <= max
            - min,
{
    let d = max - min;
    lemma_round_div_nearest((f - min) * 65535, d);
    assert((f - min) * 65535 == 65535 * f - 65535 * min) by (nonlinear_arith);
}

/// The scalar that a step stands for, rounded to a scalar, differs from a
/// value within the range whose step it is by at most half a step and half
/// a raw unit.
pub proof fn lemma_dequantized_near(f: int, min: int, max: int)
    requires
        min < max,
        min <= f <= max,
    ensures
        -(max - min) - 65535 <= 2 * 65535 * (dequantized(quantized(f, min, max), min, max) - f) <= (
        max - min) + 65535,
{
    let q = quantized(f, min, max);
    lemma_quantize_round_trip(f, min, max);
    lemma_round_div_nearest(q * (max - min), 65535);
    let r = round_div(q * (max - min), 65535);
    assert(2 * 65535 * (min + r - f) == 2 * (r * 65535 - q * (max - min)) + 2 * (65535 * min + q * (
    max - min) - 65535 * f)) by (nonlinear_arith);
}

/// The step of `f` in the range from `min` to `max`, where `f` lies within
/// the range.
pub fn quantize(f: Fixed, min: Fixed, max: Fixed) -> (step: Option<u16>)
    requires
        min@ < max@,
    ensures
        step == (if min@ <= f@ <= max@ {
            Some(quantized(f@, min@, max@) as u16)
        } else {
            None
        }),
        step matches Some(q) ==> q == quantized(f@, min@, max@),
{
    if f.raw < min.raw || f.raw > max.raw {
        return None;
    }
    let n = (f.raw as i128 - min.raw as i128) * 65535;
    let d = max.raw as i128 - min.raw as i128;
    proof {
        lemma_quantized_range(f@, min@, max@);
    }
    let q = round_div_exec(n, d);
    Some(q as u16)
}

/// The scalar nearest to the value that the step `q` of the range from
/// `min` to `max` stands for.
pub fn dequantize(q: u16, min: Fixed, max: Fixed) -> (f: Fixed)
    requires
        min@ < max@,
    ensures
        f@ == dequantized(q as int, min@, max@),
        min@ <= f@ <= max@,
{
    let d = max.raw as i128 - min.raw as i128;
    assert(0 <= (q as i128) * d <= 65535 * d) by (nonlinear_arith)
        requires
            0 <= q <= 65535,
            d > 0,
    ;
    let r = round_div_exec((q as i128) * d, 65535);
    proof {
        lemma_round_div_exact(0, 65535);
        lemma_round_div_exact(d as int, 65535);
        assert(d * 65535 == 65535 * d) by (nonlinear_arith);
        lemma_round_div_monotone(0int * 65535, q * d, 65535);
        lemma_round_div_monotone(q * d, d * 65535, 65535);
    }
    Fixed { raw: (min.raw as i128 + r) as i32 }
}

} // verus!
