//! Fixed-point CPU percentages.
//!
//! The operating-system probe reports CPU usage as an IEEE-754 single-precision
//! bit pattern. The monitor stores percentages as integers counting hundredths
//! of a percent, so this module reads such a bit pattern and turns it into that
//! fixed-point form: the result is the percentage multiplied by one hundred and
//! rounded down. A negative or not-a-number pattern reads as zero; an infinite
//! one saturates.

use vstd::prelude::*;
use vstd::arithmetic::div_mod::lemma_basic_div;
use vstd::arithmetic::mul::lemma_mul_inequality;
use vstd::arithmetic::power2::{
    lemma2_to64,
    lemma2_to64_rest,
    lemma_pow2_pos,
    lemma_pow2_strictly_increases,
    pow2,
};

verus! {

/// The value, in hundredths of a percent and rounded down, that an IEEE-754
/// single-precision bit pattern stands for: a sign bit, then eight exponent
/// bits, then twenty-three mantissa bits. Negative and not-a-number patterns
/// read as zero; infinity saturates to `u64::MAX`, as does any finite value
/// whose scaled form exceeds it. Subnormal values are below one hundredth of
/// a percent and also read as zero.
pub open spec fn spec_centi_of_bits(bits: u32) -> u64 {
    let e = (bits as int / 0x80_0000) % 0x100;
    let m = bits as int % 0x80_0000;
    if bits >= 0x8000_0000 {
        0u64
    } else if e == 0 {
        0u64
    } else if e == 255 {
        if m == 0 {
            u64::MAX
        } else {
            0u64
        }
    } else if e >= 150 {
        let exact = (m + 0x80_0000) * 100 * pow2((e - 150) as nat);
        if exact > u64::MAX as int {
            u64::MAX
        } else {
            exact as u64
        }
    } else {
        (((m + 0x80_0000) * 100) / pow2((150 - e) as nat) as int) as u64
    }
}

/// Two raised to the power `k`, as an executable value.
pub(crate) fn pow2_u64(k: u64) -> (r: u64)
    requires
        k < 64,
    ensures
        r as int == pow2(k as nat),
{
    proof {
        lemma2_to64();
    }
    let mut r: u64 = 1;
    let mut i: u64 = 0;
    while i < k
        invariant
            i <= k,
            k < 64,
            r as int == pow2(i as nat),
        decreases k - i,
    {
        proof {
            lemma2_to64();
            lemma2_to64_rest();
            lemma_pow2_strictly_increases((i + 1) as nat, 64);
            assert(pow2((i + 1) as nat) == 2 * pow2(i as nat)) by {
                vstd::arithmetic::power2::lemma_pow2_adds(i as nat, 1);
            }
        }
        r = r * 2;
        i = i + 1;
    }
    r
}

/// Reads an IEEE-754 single-precision bit pattern as hundredths of a percent,
/// rounded down.
pub fn centi_of_bits(bits: u32) -> (r: u64)
    ensures
        r == spec_centi_of_bits(bits),
{
    if bits >= 0x8000_0000 {
        return 0;
    }
    let e: u32 = (bits / 0x80_0000) % 0x100;
    let m: u32 = bits % 0x80_0000;
    let m100: u64 = (m as u64 + 0x80_0000) * 100;
    if e == 0 {
        0
    } else if e == 255 {
        if m == 0 {
            u64::MAX
        } else {
            0
        }
    } else if e >= 150 {
        let shift: u32 = e - 150;
        if shift >= 35 {
            proof {
                lemma2_to64_rest();
                if shift > 35 {
                    lemma_pow2_strictly_increases(35, shift as nat);
                }
                // 2^35 * m100 <= 2^shift * m100
                lemma_mul_inequality(0x8_0000_0000, pow2(shift as nat) as int, m100 as int);
                // 838860800 * 2^35 <= m100 * 2^35
                lemma_mul_inequality(838860800, m100 as int, 0x8_0000_0000);
                assert(838860800 * 0x8_0000_0000 > u64::MAX as int) by (nonlinear_arith);
                assert(m100 as int * pow2(shift as nat) > u64::MAX as int);
            }
            u64::MAX
        } else {
            let p: u64 = pow2_u64(shift as u64);
            proof {
                lemma2_to64_rest();
                if shift < 34 {
                    lemma_pow2_strictly_increases(shift as nat, 34);
                }
                // p * m100 <= 2^34 * m100, and m100 * 2^34 <= 2^31 * 2^34
                lemma_mul_inequality(p as int, 0x4_0000_0000, m100 as int);
                lemma_mul_inequality(m100 as int, 0x8000_0000, 0x4_0000_0000);
                assert(0x8000_0000 * 0x4_0000_0000 < u128::MAX as int) by (nonlinear_arith);
            }
            let prod: u128 = (m100 as u128) * (p as u128);
            if prod > u64::MAX as u128 {
                u64::MAX
            } else {
                prod as u64
            }
        }
    } else {
        let shift: u32 = 150 - e;
        if shift >= 31 {
            proof {
                lemma2_to64();
                lemma2_to64_rest();
                if shift > 31 {
                    lemma_pow2_strictly_increases(31, shift as nat);
                }
                lemma_basic_div(m100 as int, pow2(shift as nat) as int);
            }
            0
        } else {
            let p: u64 = pow2_u64(shift as u64);
            proof {
                lemma_pow2_pos(shift as nat);
            }
            m100 / p
        }
    }
}

} // verus!
