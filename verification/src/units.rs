//! Human-readable byte quantities.
//!
//! A byte count is rendered against the largest binary unit it reaches
//! (KB, MB, GB or TB, each 1024 times the previous), with two decimal places;
//! below one kilobyte the count is shown in plain bytes. The two decimals are
//! rounded to the nearest hundredth with exact ties going to the even
//! hundredth, and a count too large for 53 significant binary digits is first
//! rounded to that precision, ties to even — the value the count reads as in
//! double-precision arithmetic.

use vstd::prelude::*;
use vstd::string::StringExecFns;
use vstd::arithmetic::div_mod::{
    lemma_div_is_ordered_by_denominator,
    lemma_fundamental_div_mod,
};
use vstd::arithmetic::mul::{
    lemma_mul_basics,
    lemma_mul_inequality,
    lemma_mul_is_commutative,
    lemma_mul_is_distributive_add,
};
use vstd::arithmetic::power2::{
    lemma2_to64,
    lemma2_to64_rest,
    lemma_pow2_adds,
    lemma_pow2_pos,
    lemma_pow2_strictly_increases,
    pow2,
};
use crate::percent::pow2_u64;

verus! {

/// The decimal digit character for `d`.
pub open spec fn spec_digit_char(d: int) -> char {
    if d == 0 {
        '0'
    } else if d == 1 {
        '1'
    } else if d == 2 {
        '2'
    } else if d == 3 {
        '3'
    } else if d == 4 {
        '4'
    } else if d == 5 {
        '5'
    } else if d == 6 {
        '6'
    } else if d == 7 {
        '7'
    } else if d == 8 {
        '8'
    } else {
        '9'
    }
}

/// The decimal rendering of `n`, most significant digit first, no leading
/// zeroes except for zero itself.
pub open spec fn spec_decimal_digits(n: nat) -> Seq<char>
    decreases n,
{
    if n < 10 {
        seq![spec_digit_char(n as int)]
    } else {
        spec_decimal_digits(n / 10).push(spec_digit_char((n % 10) as int))
    }
}

/// `f` rendered as exactly two decimal digits, for `0 <= f < 100`.
pub open spec fn spec_two_digits(f: int) -> Seq<char> {
    seq![spec_digit_char(f / 10), spec_digit_char(f % 10)]
}

/// The position of the highest set binary digit of `n` (zero for zero).
pub open spec fn spec_msb(n: nat) -> nat
    decreases n,
{
    if n < 2 {
        0
    } else {
        1 + spec_msb(n / 2)
    }
}

/// `n` rounded to at most 53 significant binary digits, ties to even: the
/// value `n` reads as after conversion to a double-precision float.
pub open spec fn spec_round53(n: u64) -> int {
    if n < 0x20_0000_0000_0000 {
        n as int
    } else {
        let s = (spec_msb(n as nat) - 52) as nat;
        let base = n as int / pow2(s) as int;
        let low = n as int % pow2(s) as int;
        let half = pow2((s - 1) as nat) as int;
        if low < half {
            base * pow2(s)
        } else if low > half {
            (base + 1) * pow2(s)
        } else if base % 2 == 0 {
            base * pow2(s)
        } else {
            (base + 1) * pow2(s)
        }
    }
}

/// `bytes` scaled against `unit`, as a whole part and two decimal places:
/// the double-precision reading of `bytes`, divided by `unit`, rounded to
/// the nearest hundredth with exact ties to the even hundredth.
pub open spec fn spec_scaled(bytes: u64, unit: int) -> Seq<char> {
    let num = spec_round53(bytes) * 100;
    let q = num / unit;
    let r = num % unit;
    let h = if 2 * r < unit {
        q
    } else if 2 * r > unit {
        q + 1
    } else if q % 2 == 0 {
        q
    } else {
        q + 1
    };
    spec_decimal_digits((h / 100) as nat) + seq!['.'] + spec_two_digits(h % 100)
}

/// The full rendering of a byte count: scaled against the largest binary unit
/// it reaches, or in plain bytes below one kilobyte.
pub open spec fn spec_format_bytes(bytes: u64) -> Seq<char> {
    if bytes >= 0x100_0000_0000 {
        spec_scaled(bytes, 0x100_0000_0000) + seq![' ', 'T', 'B']
    } else if bytes >= 0x4000_0000 {
        spec_scaled(bytes, 0x4000_0000) + seq![' ', 'G', 'B']
    } else if bytes >= 0x10_0000 {
        spec_scaled(bytes, 0x10_0000) + seq![' ', 'M', 'B']
    } else if bytes >= 0x400 {
        spec_scaled(bytes, 0x400) + seq![' ', 'K', 'B']
    } else {
        spec_decimal_digits(bytes as nat) + seq![' ', 'B']
    }
}

/// The highest set binary digit sits where `spec_msb` says: `n` lies between
/// that power of two and the next.
proof fn lemma_msb_bounds(n: nat)
    requires
        n >= 1,
    ensures
        pow2(spec_msb(n)) <= n < pow2((spec_msb(n) + 1) as nat),
    decreases n,
{
    lemma2_to64();
    if n >= 2 {
        lemma_msb_bounds(n / 2);
        let m = spec_msb(n / 2);
        assert(pow2((m + 1) as nat) == 2 * pow2(m)) by {
            lemma_pow2_adds(m, 1);
        }
        assert(pow2((m + 2) as nat) == 2 * pow2((m + 1) as nat)) by {
            lemma_pow2_adds((m + 1) as nat, 1);
        }
    }
}

/// The one-character string for the decimal digit `d`.
fn digit_str(d: u64) -> (r: &'static str)
    requires
        d < 10,
    ensures
        r@.len() == 1,
        r@[0] == spec_digit_char(d as int),
{
    proof {
        reveal_strlit("0");
        reveal_strlit("1");
        reveal_strlit("2");
        reveal_strlit("3");
        reveal_strlit("4");
        reveal_strlit("5");
        reveal_strlit("6");
        reveal_strlit("7");
        reveal_strlit("8");
        reveal_strlit("9");
    }
    match d {
        0 => "0",
        1 => "1",
        2 => "2",
        3 => "3",
        4 => "4",
        5 => "5",
        6 => "6",
        7 => "7",
        8 => "8",
        _ => "9",
    }
}

/// The decimal rendering of `n` as a string.
pub fn u64_to_string(n: u64) -> (r: String)
    ensures
        r@ == spec_decimal_digits(n as nat),
    decreases n,
{
    if n < 10 {
        let d = digit_str(n);
        let r = String::from_str(d);
        proof {
            assert(r@ =~= seq![spec_digit_char(n as int)]);
        }
        r
    } else {
        let mut r = u64_to_string(n / 10);
        r.append(digit_str(n % 10));
        proof {
            assert(r@ =~= spec_decimal_digits((n / 10) as nat).push(
                spec_digit_char((n % 10) as int),
            ));
        }
        r
    }
}

/// The position of the highest set binary digit of `n`.
fn msb_index(n: u64) -> (r: u64)
    ensures
        r as nat == spec_msb(n as nat),
        r <= 63,
    decreases n,
{
    if n < 2 {
        0
    } else {
        let sub = msb_index(n / 2);
        proof {
            lemma_msb_bounds((n / 2) as nat);
            lemma2_to64();
            lemma2_to64_rest();
            let m = spec_msb((n / 2) as nat);
            if m >= 63 {
                if m > 63 {
                    lemma_pow2_strictly_increases(63, m);
                }
                assert(false);
            }
        }
        1 + sub
    }
}

/// `n` rounded to at most 53 significant binary digits, ties to even.
fn round53(n: u64) -> (r: u128)
    ensures
        r as int == spec_round53(n),
        r as int <= u64::MAX as int + 2048,
{
    if n < 0x20_0000_0000_0000 {
        return n as u128;
    }
    let e = msb_index(n);
    proof {
        lemma_msb_bounds(n as nat);
        lemma2_to64();
        lemma2_to64_rest();
        if (e as nat) + 1 < 53 {
            lemma_pow2_strictly_increases(((e as nat) + 1) as nat, 53);
        }
        assert(e >= 53);
        if e > 64 {
            lemma_pow2_strictly_increases(64, e as nat);
        }
        assert(e <= 63);
    }
    let s = e - 52;
    let p = pow2_u64(s);
    proof {
        lemma_pow2_pos((s - 1) as nat);
        assert(p as int == 2 * pow2((s - 1) as nat)) by {
            lemma_pow2_adds((s - 1) as nat, 1);
            lemma2_to64();
        }
        lemma_div_is_ordered_by_denominator(n as int, 2, p as int);
    }
    let base = n / p;
    let low = n % p;
    let half = p / 2;
    let rounded: u64 = if low < half {
        base
    } else if low > half {
        base + 1
    } else if base % 2 == 0 {
        base
    } else {
        base + 1
    };
    proof {
        lemma_fundamental_div_mod(n as int, p as int);
        lemma_mul_is_distributive_add(p as int, base as int, 1);
        lemma_mul_basics(p as int);
        lemma_mul_is_commutative(base as int + 1, p as int);
        lemma_mul_inequality(rounded as int, base as int + 1, p as int);
        if s < 11 {
            lemma_pow2_strictly_increases(s as nat, 11);
        }
        assert(p <= 2048);
        assert((rounded as int) * (p as int) <= n as int + 2048);
    }
    (rounded as u128) * (p as u128)
}

/// `bytes` scaled against `unit` with two decimal places, ties to even.
fn scaled_string(bytes: u64, unit: u64) -> (r: String)
    requires
        1024 <= unit <= 0x100_0000_0000,
    ensures
        r@ == spec_scaled(bytes, unit as int),
{
    let num: u128 = round53(bytes) * 100;
    let den: u128 = unit as u128;
    let q: u128 = num / den;
    let rem: u128 = num % den;
    proof {
        lemma_div_is_ordered_by_denominator(num as int, 1024, den as int);
    }
    let h: u128 = if 2 * rem < den {
        q
    } else if 2 * rem > den {
        q + 1
    } else if q % 2 == 0 {
        q
    } else {
        q + 1
    };
    let whole: u64 = (h / 100) as u64;
    let frac: u64 = (h % 100) as u64;
    let mut r = u64_to_string(whole);
    r.append(".");
    r.append(digit_str(frac / 10));
    r.append(digit_str(frac % 10));
    proof {
        reveal_strlit(".");
        assert(r@ =~= spec_scaled(bytes, unit as int));
    }
    r
}

/// Renders a byte count against the largest binary unit it reaches, with two
/// decimal places rounded to the nearest hundredth and exact ties to even;
/// below one kilobyte, in plain bytes.
pub fn format_bytes(bytes: u64) -> (r: String)
    ensures
        r@ == spec_format_bytes(bytes),
{
    if bytes >= 0x100_0000_0000 {
        let mut r = scaled_string(bytes, 0x100_0000_0000);
        r.append(" TB");
        proof {
            reveal_strlit(" TB");
            assert(r@ =~= spec_format_bytes(bytes));
        }
        r
    } else if bytes >= 0x4000_0000 {
        let mut r = scaled_string(bytes, 0x4000_0000);
        r.append(" GB");
        proof {
            reveal_strlit(" GB");
            assert(r@ =~= spec_format_bytes(bytes));
        }
        r
    } else if bytes >= 0x10_0000 {
        let mut r = scaled_string(bytes, 0x10_0000);
        r.append(" MB");
        proof {
            reveal_strlit(" MB");
            assert(r@ =~= spec_format_bytes(bytes));
        }
        r
    } else if bytes >= 0x400 {
        let mut r = scaled_string(bytes, 0x400);
        r.append(" KB");
        proof {
            reveal_strlit(" KB");
            assert(r@ =~= spec_format_bytes(bytes));
        }
        r
    } else {
        let mut r = u64_to_string(bytes);
        r.append(" B");
        proof {
            reveal_strlit(" B");
            assert(r@ =~= spec_format_bytes(bytes));
        }
        r
    }
}

} // verus!
