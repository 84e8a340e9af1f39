//! The order of single-precision numbers, told from their IEEE 754 bit patterns.
//!
//! The library never computes with fractions. Where a rule compares a score or a gain with a
//! threshold, the number comes in as its bit pattern.

use vstd::arithmetic::power2::{lemma2_to64, lemma_pow2_pos, lemma_pow2_unfold, pow2};
use vstd::prelude::*;

verus! {

/// The bit pattern of positive infinity: a magnitude above it is not a number.
pub const INFINITY_BITS: u32 = 0x7f80_0000;

/// The lowest bit pattern with the sign bit set, that of negative zero.
pub const SIGN_BIT: u32 = 0x8000_0000;

/// The bit pattern without its sign bit.
pub open spec fn magnitude(bits: u32) -> int {
    if bits < SIGN_BIT {
        bits as int
    } else {
        bits - SIGN_BIT
    }
}

/// Whether the bit pattern is one of those that stand for no number.
pub open spec fn is_nan(bits: u32) -> bool {
    magnitude(bits) > INFINITY_BITS
}

/// An integer that grows with the number: both zeros have rank 0, and a step of one rank leads to
/// the next number.
pub open spec fn rank(bits: u32) -> int {
    if bits < SIGN_BIT {
        magnitude(bits)
    } else {
        -magnitude(bits)
    }
}

/// Whether the number behind `a` is greater than the one behind `b`. What is not a number compares
/// with nothing.
pub open spec fn greater_spec(a: u32, b: u32) -> bool {
    !is_nan(a) && !is_nan(b) && rank(a) > rank(b)
}

/// Whether the numbers behind `a` and `b` are equal.
pub open spec fn equal_spec(a: u32, b: u32) -> bool {
    !is_nan(a) && !is_nan(b) && rank(a) == rank(b)
}

fn nan(bits: u32) -> (r: bool)
    ensures
        r == is_nan(bits),
{
    if bits < SIGN_BIT {
        bits > INFINITY_BITS
    } else {
        bits - SIGN_BIT > INFINITY_BITS
    }
}

fn rank_of(bits: u32) -> (r: i64)
    ensures
        r == rank(bits),
{
    if bits < SIGN_BIT {
        bits as i64
    } else {
        -((bits - SIGN_BIT) as i64)
    }
}

/// Compares two single-precision numbers, given by their bit patterns.
pub fn greater(a: u32, b: u32) -> (r: bool)
    ensures
        r == greater_spec(a, b),
{
    !nan(a) && !nan(b) && rank_of(a) > rank_of(b)
}

/// Whether two single-precision numbers, given by their bit patterns, are equal.
pub fn equal(a: u32, b: u32) -> (r: bool)
    ensures
        r == equal_spec(a, b),
{
    !nan(a) && !nan(b) && rank_of(a) == rank_of(b)
}

/// Of two numbers exactly one holds: the first is greater, the second is greater, or they are
/// equal; and none of the three holds where one of them is not a number.
pub proof fn law_order_is_total_on_numbers(a: u32, b: u32)
    ensures
        !is_nan(a) && !is_nan(b) ==> (greater_spec(a, b) || greater_spec(b, a) || equal_spec(a, b)),
        !(greater_spec(a, b) && greater_spec(b, a)),
        !(greater_spec(a, b) && equal_spec(a, b)),
        is_nan(a) || is_nan(b) ==> !greater_spec(a, b) && !equal_spec(a, b),
{
}

/// The order of the numbers is transitive.
pub proof fn law_order_is_transitive(a: u32, b: u32, c: u32)
    requires
        greater_spec(a, b),
        greater_spec(b, c),
    ensures
        greater_spec(a, c),
{
}

/// The number with this magnitude, counted in units of the smallest positive number: 23 bits of a
/// fraction below the exponent, with a leading one where the exponent is not zero.
pub open spec fn units(magnitude: nat) -> nat {
    let exponent = magnitude / 0x80_0000;
    let fraction = magnitude % 0x80_0000;
    if exponent == 0 {
        fraction
    } else {
        (0x80_0000 + fraction) * pow2((exponent - 1) as nat)
    }
}

/// The number behind a bit pattern, counted in units of the smallest positive number. The top bit is
/// the sign.
pub open spec fn number(bits: u32) -> int {
    if bits < 0x8000_0000 {
        units(bits as nat) as int
    } else {
        -(units((bits - 0x8000_0000) as nat) as int)
    }
}

/// Whether a bit pattern stands for no number: its exponent is the largest, and its fraction is not
/// zero.
pub open spec fn stands_for_no_number(bits: u32) -> bool {
    0x7f80_0000 < bits < 0x8000_0000 || bits > 0xff80_0000
}

/// Bit patterns compare as the numbers that they stand for.
pub proof fn law_patterns_compare_as_numbers(a: u32, b: u32, more: bool, same: bool)
    requires
        call_ensures(greater, (a, b), more),
        call_ensures(equal, (a, b), same),
    ensures
        more <==> !stands_for_no_number(a) && !stands_for_no_number(b) && number(a) > number(b),
        same <==> !stands_for_no_number(a) && !stands_for_no_number(b) && number(a) == number(b),
{
    let m = magnitude_of(a);
    let n = magnitude_of(b);
    if m < n {
        lemma_units_grow(m, n);
    } else if n < m {
        lemma_units_grow(n, m);
    }
    lemma_units_grow_from_zero(m);
    lemma_units_grow_from_zero(n);
}

spec fn magnitude_of(bits: u32) -> nat {
    if bits < 0x8000_0000 {
        bits as nat
    } else {
        (bits - 0x8000_0000) as nat
    }
}

proof fn lemma_units_grow_from_zero(n: nat)
    ensures
        n == 0 ==> units(n) == 0,
        n > 0 ==> units(n) > 0,
{
    if n > 0 {
        lemma_units_grow(0, n);
    }
}

proof fn lemma_units_grow(m: nat, n: nat)
    requires
        m < n,
    ensures
        units(m) < units(n),
    decreases n - m,
{
    let before = (n - 1) as nat;
    if m < before {
        lemma_units_grow(m, before);
    }
    let exponent = before / 0x80_0000;
    let fraction = before % 0x80_0000;
    if fraction + 1 < 0x80_0000 {
        assert(n / 0x80_0000 == exponent && n % 0x80_0000 == fraction + 1);
        if exponent > 0 {
            let p = pow2((exponent - 1) as nat);
            lemma_pow2_pos((exponent - 1) as nat);
            assert((0x80_0000 + fraction) * p < (0x80_0000 + fraction + 1) * p) by (nonlinear_arith)
                requires
                    p > 0,
            ;
            assert(units(before) == (0x80_0000 + fraction) * p);
            assert(units(n) == (0x80_0000 + fraction + 1) * p);
        } else {
            assert(units(before) == fraction && units(n) == fraction + 1);
        }
    } else {
        assert(n / 0x80_0000 == exponent + 1 && n % 0x80_0000 == 0);
        lemma_pow2_pos(exponent);
        assert(units(n) == 0x80_0000 * pow2(exponent));
        if exponent == 0 {
            lemma2_to64();
            assert(units(before) == fraction);
        } else {
            let p = pow2((exponent - 1) as nat);
            lemma_pow2_pos((exponent - 1) as nat);
            lemma_pow2_unfold(exponent);
            assert(fraction == 0x7f_ffff);
            assert(units(before) == (0x80_0000 + 0x7f_ffff) * p);
            assert((0x80_0000 + 0x7f_ffff) * p < 0x80_0000 * (2 * p)) by (nonlinear_arith)
                requires
                    p > 0,
            ;
        }
    }
}

} // verus!
