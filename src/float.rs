//! Binary64 floating-point numbers held as their IEEE 754 bit patterns.
//!
//! The value model stores a floating-point number as the 64-bit pattern of its
//! IEEE 754 binary64 encoding. This module states what equality and order mean
//! on such patterns and computes them.

use vstd::arithmetic::power2::{pow2, lemma_pow2_unfold, lemma_pow2_adds, lemma_pow2_pos, lemma2_to64, lemma_pow2_strictly_increases};
use vstd::prelude::*;

verus! {

/// Width of the fraction part of a binary64 pattern, as a power of two.
pub const FRACTION_SPAN: u64 = 0x10_0000_0000_0000;

/// The sign bit of a binary64 pattern.
pub const SIGN_BIT: u64 = 0x8000_0000_0000_0000;

/// The biased exponent field of a pattern.
pub open spec fn exponent_field(b: u64) -> int {
    (b as int / FRACTION_SPAN as int) % 0x800
}

/// The fraction field of a pattern.
pub open spec fn fraction_field(b: u64) -> int {
    b as int % FRACTION_SPAN as int
}

/// A pattern encodes NaN: all exponent bits set and a non-zero fraction.
pub open spec fn is_nan(b: u64) -> bool {
    exponent_field(b) == 0x7ff && fraction_field(b) != 0
}

/// Position of a non-NaN pattern on the number line: binary64 numbers are
/// ordered by their magnitude bits, negated when the sign bit is set. Both
/// zeros land on 0.
pub open spec fn order_key(b: u64) -> int {
    if b >= SIGN_BIT {
        -(b - SIGN_BIT)
    } else {
        b as int
    }
}

/// IEEE equality: NaN equals nothing, the two zeros are equal.
pub open spec fn float_eq(a: u64, b: u64) -> bool {
    !is_nan(a) && !is_nan(b) && order_key(a) == order_key(b)
}

/// IEEE `a > b`; false when either side is NaN.
pub open spec fn float_gt(a: u64, b: u64) -> bool {
    !is_nan(a) && !is_nan(b) && order_key(a) > order_key(b)
}

/// IEEE `a >= b`; false when either side is NaN.
pub open spec fn float_ge(a: u64, b: u64) -> bool {
    !is_nan(a) && !is_nan(b) && order_key(a) >= order_key(b)
}

/// Number of binary digits of `n` (zero has none).
pub open spec fn bit_length(n: nat) -> nat
    decreases n,
{
    if n == 0 {
        0
    } else {
        1 + bit_length(n / 2)
    }
}

/// Pattern of the binary64 number nearest to the positive integer `n`,
/// ties to even, with the sign bit clear (`n < 2^64`).
pub open spec fn magnitude_pattern(n: nat) -> int {
    let e = (bit_length(n) - 1) as nat;
    if e <= 52 {
        (e + 1023) * FRACTION_SPAN + n * pow2((52 - e) as nat) - FRACTION_SPAN
    } else {
        let shift = (e - 52) as nat;
        let q = n as int / pow2(shift) as int;
        let rest = n as int % pow2(shift) as int;
        let half = pow2((shift - 1) as nat) as int;
        let up = rest > half || (rest == half && q % 2 == 1);
        let q_rounded = if up { q + 1 } else { q };
        (e + 1023) * FRACTION_SPAN + q_rounded - FRACTION_SPAN
    }
}

/// The binary64 pattern that converting the integer `i` gives: the nearest
/// representable number, ties to even, and positive zero for zero.
pub open spec fn float_of_int(i: i64) -> u64 {
    if i == 0 {
        0
    } else if i > 0 {
        magnitude_pattern(i as nat) as u64
    } else {
        (SIGN_BIT + magnitude_pattern((-i) as nat)) as u64
    }
}

proof fn lemma_bit_length(n: nat, e: nat)
    requires
        pow2(e) <= n < 2 * pow2(e),
    ensures
        bit_length(n) == e + 1,
    decreases e,
{
    if e == 0 {
        lemma2_to64();
        assert(n == 1);
        assert(bit_length(0) == 0);
    } else {
        lemma_pow2_unfold(e);
        lemma_bit_length(n / 2, (e - 1) as nat);
    }
}

/// `2^k` for `k < 64`.
fn two_to(k: u64) -> (r: u64)
    requires
        k < 64,
    ensures
        r == pow2(k as nat),
{
    let mut r: u64 = 1;
    let mut i: u64 = 0;
    proof {
        lemma2_to64();
    }
    while i < k
        invariant
            i <= k < 64,
            r == pow2(i as nat),
        decreases k - i,
    {
        proof {
            lemma_pow2_unfold((i + 1) as nat);
            lemma_pow2_strictly_increases((i + 1) as nat, 64);
            lemma2_to64();
            vstd::arithmetic::power2::lemma2_to64_rest();
        }
        r = r * 2;
        i = i + 1;
    }
    r
}

/// Pattern of the binary64 number nearest to the positive integer `n`.
fn magnitude_from(n: u64) -> (r: u64)
    requires
        0 < n <= SIGN_BIT,
    ensures
        r == magnitude_pattern(n as nat),
        r < SIGN_BIT,
{
    let mut e: u64 = 0;
    let mut p: u64 = 1;
    proof {
        lemma2_to64();
    }
    while p <= n / 2
        invariant
            p == pow2(e as nat),
            1 <= p <= n,
            e < 64,
            n <= SIGN_BIT,
        decreases n - p,
    {
        proof {
            lemma_pow2_unfold((e + 1) as nat);
            vstd::arithmetic::power2::lemma2_to64_rest();
            if e + 1 >= 64 {
                lemma_pow2_strictly_increases(63, (e + 1) as nat);
            }
        }
        p = p * 2;
        e = e + 1;
    }
    proof {
        lemma_bit_length(n as nat, e as nat);
        vstd::arithmetic::power2::lemma2_to64_rest();
        if e > 63 {
            lemma_pow2_strictly_increases(63, e as nat);
        }
        lemma_pow2_unfold(64);
    }
    assert(e <= 63);
    if e <= 52 {
        let scale = two_to(52 - e);
        proof {
            lemma_pow2_adds((e + 1) as nat, (52 - e) as nat);
            lemma_pow2_unfold((e + 1) as nat);
            assert(n < pow2((e + 1) as nat));
            assert(n * scale < pow2((e + 1) as nat) * scale) by (nonlinear_arith)
                requires n < pow2((e + 1) as nat), scale > 0;
            assert(n * scale >= scale) by (nonlinear_arith)
                requires n >= 1, scale > 0;
            assert(pow2(53) == 0x20_0000_0000_0000) by { vstd::arithmetic::power2::lemma2_to64_rest(); };
        }
        (e + 1023) * FRACTION_SPAN + n * scale - FRACTION_SPAN
    } else {
        let shift = e - 52;
        let div = two_to(shift);
        let half = two_to(shift - 1);
        let q = n / div;
        let rest = n % div;
        proof {
            lemma_pow2_pos(shift as nat);
            lemma_pow2_adds(52, shift as nat);
            lemma_pow2_adds(53, shift as nat);
            lemma_pow2_unfold((e + 1) as nat);
            vstd::arithmetic::power2::lemma2_to64_rest();
            assert(52 + shift == e);
            let big = pow2(53) as int;
            assert(pow2((e + 1) as nat) == pow2(53) * pow2(shift as nat));
            assert(n < big * div);
            vstd::arithmetic::div_mod::lemma_fundamental_div_mod(n as int, div as int);
            vstd::arithmetic::div_mod::lemma_mod_pos_bound(n as int, div as int);
            assert(q < big) by (nonlinear_arith)
                requires
                    n == div * q + rest,
                    0 <= rest,
                    n < big * div,
                    div > 0,
            ;
        }
        let up = rest > half || (rest == half && q % 2 == 1);
        let q_rounded = if up { q + 1 } else { q };
        (e + 1023) * FRACTION_SPAN + q_rounded - FRACTION_SPAN
    }
}

/// Converts an integer to the binary64 pattern of the nearest number, as the
/// `as` cast to a 64-bit float does.
pub fn float_from_int(i: i64) -> (r: u64)
    ensures
        r == float_of_int(i),
{
    if i == 0 {
        0
    } else if i > 0 {
        magnitude_from(i as u64)
    } else {
        let n: u64 = if i == i64::MIN { SIGN_BIT } else { (-i) as u64 };
        SIGN_BIT + magnitude_from(n)
    }
}

/// Tells whether a pattern encodes NaN.
pub fn nan(b: u64) -> (r: bool)
    ensures
        r == is_nan(b),
{
    (b / FRACTION_SPAN) % 0x800 == 0x7ff && b % FRACTION_SPAN != 0
}

/// Compares the magnitudes of two non-NaN patterns on the number line:
/// -1, 0 or 1 as `a` lies below, on or above `b`.
fn compare_keys(a: u64, b: u64) -> (r: i8)
    ensures
        r == -1 <==> order_key(a) < order_key(b),
        r == 0 <==> order_key(a) == order_key(b),
        r == 1 <==> order_key(a) > order_key(b),
{
    let a_neg = a >= SIGN_BIT;
    let b_neg = b >= SIGN_BIT;
    let a_mag = if a_neg { a - SIGN_BIT } else { a };
    let b_mag = if b_neg { b - SIGN_BIT } else { b };
    if a_neg == b_neg {
        if a_mag == b_mag {
            0
        } else if (a_mag < b_mag) != a_neg {
            -1
        } else {
            1
        }
    } else if a_mag == 0 && b_mag == 0 {
        0
    } else if a_neg {
        -1
    } else {
        1
    }
}

/// IEEE equality of two binary64 patterns.
pub fn eq(a: u64, b: u64) -> (r: bool)
    ensures
        r == float_eq(a, b),
{
    !nan(a) && !nan(b) && compare_keys(a, b) == 0
}

/// IEEE `a > b` on two binary64 patterns.
pub fn gt(a: u64, b: u64) -> (r: bool)
    ensures
        r == float_gt(a, b),
{
    !nan(a) && !nan(b) && compare_keys(a, b) == 1
}

/// IEEE `a >= b` on two binary64 patterns.
pub fn ge(a: u64, b: u64) -> (r: bool)
    ensures
        r == float_ge(a, b),
{
    !nan(a) && !nan(b) && compare_keys(a, b) >= 0
}

} // verus!
