//! Fixed-point scalars.
//!
//! Every coordinate, angle and factor of a model is held as a signed 32-bit
//! count of 1/65536ths, so that all geometry is exact integer arithmetic.

use vstd::prelude::*;

verus! {

/// Raw units in one whole: a scalar `x` stands for the number `x.raw / 65536`.
pub const ONE_RAW: i32 = 65536;

/// A fixed-point number with 16 fractional bits.
#[derive(Copy, Clone, Debug, PartialEq, Eq, Structural, Hash)]
pub struct Fixed {
    pub raw: i32,
}

impl View for Fixed {
    type V = int;

    /// The raw count of 1/65536ths.
    open spec fn view(&self) -> int {
        self.raw as int
    }
}

/// The integer nearest to `n / d`, halves rounded away from zero (`d > 0`).
pub open spec fn round_div(n: int, d: int) -> int
    recommends
        d > 0,
{
    if n >= 0 {
        (2 * n + d) / (2 * d)
    } else {
        -((d - 2 * n) / (2 * d))
    }
}

/// `n` limited to the range of a 32-bit signed integer.
pub open spec fn clamp_raw(n: int) -> int {
    if n < i32::MIN {
        i32::MIN as int
    } else if n > i32::MAX {
        i32::MAX as int
    } else {
        n
    }
}

/// `round_div(n, d)` is the one integer `q` with `|2(q d - n)| <= d`, where a
/// tie is resolved away from zero.
pub proof fn lemma_round_div_nearest(n: int, d: int)
    requires
        d > 0,
    ensures
        -d <= 2 * (round_div(n, d) * d - n) <= d,
        n >= 0 ==> round_div(n, d) >= 0 && 2 * (round_div(n, d) * d - n) > -d,
        n <= 0 ==> round_div(n, d) <= 0 && 2 * (round_div(n, d) * d - n) < d,
{
    if n >= 0 {
        let a = 2 * n + d;
        let q = a / (2 * d);
        let r = a % (2 * d);
        let t = q * d;
        vstd::arithmetic::div_mod::lemma_fundamental_div_mod(a, 2 * d);
        vstd::arithmetic::div_mod::lemma_mod_bound(a, 2 * d);
        vstd::arithmetic::div_mod::lemma_div_pos_is_pos(a, 2 * d);
        assert((2 * d) * q == 2 * t) by (nonlinear_arith)
            requires
                t == q * d,
        ;
        assert(2 * (t - n) == d - r);
        if n == 0 {
            vstd::arithmetic::div_mod::lemma_basic_div(d, 2 * d);
            assert(q == 0);
            assert(t == 0);
        }
        assert(round_div(n, d) == q);
    } else {
        let a = d - 2 * n;
        let q = a / (2 * d);
        let r = a % (2 * d);
        let t = q * d;
        vstd::arithmetic::div_mod::lemma_fundamental_div_mod(a, 2 * d);
        vstd::arithmetic::div_mod::lemma_mod_bound(a, 2 * d);
        vstd::arithmetic::div_mod::lemma_div_pos_is_pos(a, 2 * d);
        assert((2 * d) * q == 2 * t) by (nonlinear_arith)
            requires
                t == q * d,
        ;
        assert((-q) * d == -t) by (nonlinear_arith)
            requires
                t == q * d,
        ;
        assert(round_div(n, d) == -q);
        assert(2 * ((-t) - n) == r - d);
    }
}

/// Rounding division is monotone in its numerator.
pub proof fn lemma_round_div_monotone(a: int, b: int, d: int)
    requires
        d > 0,
        a <= b,
    ensures
        round_div(a, d) <= round_div(b, d),
{
    lemma_round_div_nearest(a, d);
    lemma_round_div_nearest(b, d);
    let qa = round_div(a, d);
    let qb = round_div(b, d);
    if qa > qb {
        assert(qa * d >= (qb + 1) * d) by (nonlinear_arith)
            requires
                qa >= qb + 1,
                d > 0,
        ;
        assert((qb + 1) * d == qb * d + d) by (nonlinear_arith);
    }
}

/// A multiple of the divisor divides exactly.
pub proof fn lemma_round_div_exact(q: int, d: int)
    requires
        d > 0,
    ensures
        round_div(q * d, d) == q,
{
    lemma_round_div_nearest(q * d, d);
    let r = round_div(q * d, d);
    if r > q {
        assert(r * d >= (q + 1) * d) by (nonlinear_arith)
            requires
                r >= q + 1,
                d > 0,
        ;
        assert((q + 1) * d == q * d + d) by (nonlinear_arith);
    } else if r < q {
        assert(r * d <= (q - 1) * d) by (nonlinear_arith)
            requires
                r <= q - 1,
                d > 0,
        ;
        assert((q - 1) * d == q * d - d) by (nonlinear_arith);
    }
}

/// Computes `round_div` on machine integers.
pub fn round_div_exec(n: i128, d: i128) -> (q: i128)
    requires
        0 < d <= 0x1_0000_0000_0000_0000_0000,
        -0x1_0000_0000_0000_0000_0000_0000 <= n <= 0x1_0000_0000_0000_0000_0000_0000,
    ensures
        q == round_div(n as int, d as int),
{
    if n >= 0 {
        (2 * n + d) / (2 * d)
    } else {
        -((d - 2 * n) / (2 * d))
    }
}

impl Fixed {
    /// The scalar with the given raw count of 1/65536ths.
    pub fn from_raw(raw: i32) -> (x: Fixed)
        ensures
            x@ == raw,
    {
        Fixed { raw }
    }

    /// The scalar that stands for the whole number `n`.
    pub fn from_int(n: i16) -> (x: Fixed)
        ensures
            x@ == n * 65536,
    {
        Fixed { raw: (n as i32) * ONE_RAW }
    }

    /// The number zero.
    pub fn zero() -> (x: Fixed)
        ensures
            x@ == 0,
    {
        Fixed { raw: 0 }
    }

    /// The number one.
    pub fn one() -> (x: Fixed)
        ensures
            x@ == 65536,
    {
        Fixed { raw: ONE_RAW }
    }

    /// The scalar nearest to the raw count `n`: `n` itself where it fits,
    /// the end of the range nearest to it otherwise.
    pub fn saturate(n: i128) -> (x: Fixed)
        ensures
            x@ == clamp_raw(n as int),
    {
        if n < -2147483648 {
            Fixed { raw: -2147483648 }
        } else if n > 2147483647 {
            Fixed { raw: 2147483647 }
        } else {
            Fixed { raw: n as i32 }
        }
    }

    /// The raw count of 1/65536ths.
    pub fn raw(self) -> (raw: i32)
        ensures
            raw == self@,
    {
        self.raw
    }

    /// The scalar divided by sixteen, rounded to the nearest representable
    /// value: the step from the 16-unit block space to the unit cube.
    pub open spec fn spec_div16(self) -> Fixed {
        Fixed { raw: round_div(self@, 16) as i32 }
    }

    /// The scalar divided by sixteen, rounded to the nearest representable
    /// value: the step from the 16-unit block space to the unit cube.
    #[verifier::when_used_as_spec(spec_div16)]
    pub fn div16(self) -> (x: Fixed)
        ensures
            x == self.spec_div16(),
            x@ == round_div(self@, 16),
    {
        let q = round_div_exec(self.raw as i128, 16);
        proof {
            lemma_round_div_nearest(self@, 16);
        }
        Fixed { raw: q as i32 }
    }
}

} // verus!
