//! The IEEE 754 single-precision bit pattern of a fixed-point scalar.
//!
//! A scalar with raw count `m` stands for `m / 65536`, so its binary
//! exponent lies between -16 and 15: every scalar but zero is a normal
//! number of the format, and none overflows.

use vstd::prelude::*;
use vstd::arithmetic::power2::{
    lemma2_to64,
    lemma_pow2_pos,
    lemma_pow2_strictly_increases,
    lemma_pow2_unfold,
    pow2,
};
use crate::fixed::Fixed;

verus! {

/// Position of the highest bit of `m` that is set: the `p` with
/// `2^p <= m < 2^(p+1)`, for `m >= 1`.
pub open spec fn top_bit(m: int) -> nat
    decreases m,
{
    if m <= 1 {
        0
    } else {
        1 + top_bit(m / 2)
    }
}

/// `m / d` rounded to the nearest integer, a tie going to the even one.
pub open spec fn round_half_even(m: int, d: int) -> int
    recommends
        m >= 0,
        d > 0,
{
    let q = m / d;
    let r = m % d;
    if 2 * r > d || (2 * r == d && q % 2 == 1) {
        q + 1
    } else {
        q
    }
}

/// The 24-bit significand of the magnitude `m >= 1`: `m` scaled so that its
/// highest bit is bit 23, rounded to nearest, ties to even, where `m` has
/// more than 24 bits. The result is `2^24` where rounding carries.
pub open spec fn significand(m: int) -> int {
    let p = top_bit(m);
    if p <= 23 {
        m * pow2((23 - p) as nat)
    } else {
        round_half_even(m, pow2((p - 23) as nat) as int)
    }
}

/// The bit pattern of the single-precision number nearest to `raw / 65536`:
/// the sign in bit 31, the biased exponent in bits 23 to 30, the
/// significand without its leading one below. A carry of the rounding runs
/// into the exponent, as the format has it.
pub open spec fn binary32_bits(raw: int) -> int {
    if raw == 0 {
        0
    } else {
        let m = if raw < 0 {
            -raw
        } else {
            raw
        };
        let sign = if raw < 0 {
            0x8000_0000int
        } else {
            0int
        };
        sign + (top_bit(m) + 111) * 0x80_0000 + (significand(m) - 0x80_0000)
    }
}

/// Rounding to nearest moves a quotient by at most half a unit: the
/// rounded quotient times the divisor differs from `m` by at most `d / 2`.
pub proof fn lemma_round_half_even_nearest(m: int, d: int)
    requires
        m >= 0,
        d > 0,
    ensures
        -d <= 2 * (round_half_even(m, d) * d - m) <= d,
        m % d == 0 ==> round_half_even(m, d) * d == m,
{
    let q = m / d;
    let r = m % d;
    vstd::arithmetic::div_mod::lemma_fundamental_div_mod(m, d);
    vstd::arithmetic::div_mod::lemma_mod_bound(m, d);
    assert(q * d == d * q) by (nonlinear_arith);
    assert((q + 1) * d == d * q + d) by (nonlinear_arith);
}

/// The highest bit of `m` is the `p` with `2^p <= m < 2^(p+1)`.
pub proof fn lemma_top_bit_bounds(m: int)
    requires
        m >= 1,
    ensures
        pow2(top_bit(m)) <= m < 2 * pow2(top_bit(m)),
    decreases m,
{
    lemma2_to64();
    if m > 1 {
        lemma_top_bit_bounds(m / 2);
        lemma_pow2_unfold(top_bit(m));
    }
}

/// The one `p` with `2^p <= m < 2^(p+1)` is the highest bit of `m`.
pub proof fn lemma_top_bit_unique(m: int, p: nat)
    requires
        pow2(p) <= m < 2 * pow2(p),
    ensures
        top_bit(m) == p,
{
    lemma_pow2_pos(p);
    lemma_top_bit_bounds(m);
    let t = top_bit(m);
    if t < p {
        lemma_pow2_unfold((t + 1) as nat);
        if t + 1 < p {
            lemma_pow2_strictly_increases((t + 1) as nat, p);
        }
    } else if p < t {
        lemma_pow2_unfold((p + 1) as nat);
        if p + 1 < t {
            lemma_pow2_strictly_increases((p + 1) as nat, t);
        }
    }
}

/// The significand has its highest bit at bit 23, or is `2^24` after a
/// carry.
pub proof fn lemma_significand_range(m: int)
    requires
        m >= 1,
    ensures
        0x80_0000 <= significand(m) <= 0x100_0000,
{
    let p = top_bit(m);
    lemma_top_bit_bounds(m);
    lemma2_to64();
    if p <= 23 {
        let s = pow2((23 - p) as nat) as int;
        vstd::arithmetic::power2::lemma_pow2_adds(p, (23 - p) as nat);
        let t = pow2(p) as int;
        assert(t * s == 0x80_0000);
        assert(m * s >= t * s) by (nonlinear_arith)
            requires
                m >= t,
                s >= 0,
        ;
        assert(m * s < 2 * (t * s)) by (nonlinear_arith)
            requires
                m < 2 * t,
                s > 0,
        ;
    } else {
        let d = pow2((p - 23) as nat) as int;
        vstd::arithmetic::power2::lemma_pow2_adds((p - 23) as nat, 23);
        let t = pow2(p) as int;
        assert(t == d * 0x80_0000);
        lemma_quotient_range(m, d, 0x80_0000);
    }
}

/// The significand stands for the magnitude as nearly as 24 bits can: a
/// magnitude of at most 24 bits is kept exactly, and a longer one is moved
/// by at most half a unit of its last kept bit.
pub proof fn lemma_significand_nearest(m: int)
    requires
        m >= 1,
    ensures
        top_bit(m) <= 23 ==> significand(m) == m * pow2((23 - top_bit(m)) as nat),
        top_bit(m) > 23 ==> {
            let unit = pow2((top_bit(m) - 23) as nat) as int;
            -unit <= 2 * (significand(m) * unit - m) <= unit
        },
{
    let p = top_bit(m);
    if p > 23 {
        lemma_pow2_pos((p - 23) as nat);
        lemma_round_half_even_nearest(m, pow2((p - 23) as nat) as int);
    }
}

/// Where `d c <= m < 2 d c`, the quotient `m / d` lies from `c` to below `2 c`.
proof fn lemma_quotient_range(m: int, d: int, c: int)
    requires
        d > 0,
        c > 0,
        d * c <= m < 2 * (d * c),
    ensures
        c <= m / d < 2 * c,
{
    vstd::arithmetic::div_mod::lemma_fundamental_div_mod(m, d);
    vstd::arithmetic::div_mod::lemma_mod_bound(m, d);
    let q = m / d;
    if q < c {
        assert(d * q <= d * (c - 1)) by (nonlinear_arith)
            requires
                q <= c - 1,
                d > 0,
        ;
        assert(d * (c - 1) == d * c - d) by (nonlinear_arith);
    }
    if q >= 2 * c {
        assert(d * q >= d * (2 * c)) by (nonlinear_arith)
            requires
                q >= 2 * c,
                d > 0,
        ;
        assert(d * (2 * c) == 2 * (d * c)) by (nonlinear_arith);
    }
}

impl Fixed {
    /// The bit pattern of the single-precision number nearest to the
    /// scalar.
    pub fn to_binary32(self) -> (bits: u32)
        ensures
            bits == binary32_bits(self@),
    {
        if self.raw == 0 {
            return 0;
        }
        let m: u64 = if self.raw < 0 {
            (-(self.raw as i64)) as u64
        } else {
            self.raw as u64
        };
        let mut p: u32 = 0;
        let mut top: u64 = 1;
        proof {
            lemma2_to64();
        }
        while top * 2 <= m
            invariant
                top == pow2(p as nat),
                1 <= top <= m,
                m <= 0x8000_0000,
                p <= 31,
            decreases m - top,
        {
            proof {
                lemma_pow2_unfold((p + 1) as nat);
                lemma2_to64();
                if p + 1 > 31 {
                    lemma_pow2_strictly_increases(31, (p + 1) as nat);
                }
            }
            top = top * 2;
            p = p + 1;
        }
        proof {
            lemma_top_bit_unique(m as int, p as nat);
            lemma_significand_range(m as int);
        }
        let sig: u64 = if p <= 23 {
            let mut scale: u64 = 1;
            let mut k: u32 = p;
            while k < 23
                invariant
                    p <= k <= 23,
                    scale == pow2((k - p) as nat),
                    1 <= scale <= 0x80_0000,
                decreases 23 - k,
            {
                proof {
                    lemma_pow2_unfold((k + 1 - p) as nat);
                    lemma2_to64();
                    if k + 1 - p < 23 {
                        lemma_pow2_strictly_increases((k + 1 - p) as nat, 23);
                    }
                }
                scale = scale * 2;
                k = k + 1;
            }
            assert(m * scale <= 0x8000_0000 * 0x80_0000) by (nonlinear_arith)
                requires
                    m <= 0x8000_0000,
                    scale <= 0x80_0000,
            ;
            m * scale
        } else {
            let mut d: u64 = 1;
            let mut k: u32 = 23;
            while k < p
                invariant
                    23 <= k <= p <= 31,
                    d == pow2((k - 23) as nat),
                    1 <= d <= 0x100,
                decreases p - k,
            {
                proof {
                    lemma_pow2_unfold((k + 1 - 23) as nat);
                    lemma2_to64();
                    if k + 1 - 23 < 8 {
                        lemma_pow2_strictly_increases((k + 1 - 23) as nat, 8);
                    }
                }
                d = d * 2;
                k = k + 1;
            }
            let q = m / d;
            let r = m % d;
            if 2 * r > d || (2 * r == d && q % 2 == 1) {
                q + 1
            } else {
                q
            }
        };
        let sign: u32 = if self.raw < 0 {
            0x8000_0000
        } else {
            0
        };
        sign + (p + 111) * 0x80_0000 + (sig as u32 - 0x80_0000)
    }
}

} // verus!
