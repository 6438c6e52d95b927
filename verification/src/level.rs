//! The rank of a real number that is given by its bit pattern.
//!
//! The real component of a bin arrives as the 32 bits of a binary32 number
//! of IEEE 754: one sign bit, eight bits of exponent, 23 bits of fraction.
//! Bins are compared by a level, an integer that is made from these bits and
//! that orders the patterns as the numbers they stand for are ordered:
//! negative numbers below positive ones, fractions between the whole
//! numbers, both zeros alike. A pattern that stands for no number has the
//! lowest level of all.

use vstd::arithmetic::power2::{lemma_pow2_pos, lemma_pow2_strictly_increases, lemma_pow2_unfold, pow2};
use vstd::prelude::*;

verus! {

/// The sign bit of a pattern.
pub const SIGN_BIT: u32 = 0x8000_0000;

/// The pattern of positive infinity: the largest magnitude of a number.
pub const INFINITY_BITS: u32 = 0x7F80_0000;

/// The number of fractions to one exponent: two to the power of 23.
pub const FRACTIONS: u32 = 0x0080_0000;

/// Whether the sign bit of the pattern is set.
pub open spec fn is_negative(bits: u32) -> bool {
    bits >= SIGN_BIT
}

/// The pattern without its sign bit: exponent and fraction.
pub open spec fn magnitude(bits: u32) -> nat {
    if bits >= SIGN_BIT {
        (bits - SIGN_BIT) as nat
    } else {
        bits as nat
    }
}

/// Whether the pattern stands for a number, finite or infinite.
pub open spec fn is_number(bits: u32) -> bool {
    magnitude(bits) <= INFINITY_BITS
}

/// The absolute value that a magnitude stands for, times two to the power
/// of 149, which makes it whole: the fraction alone where the exponent is
/// zero, else the fraction with its leading one, doubled once for each
/// exponent above one. An infinity counts as the power of two next above
/// the largest finite value.
pub open spec fn scaled_magnitude(magnitude: nat) -> nat {
    let exponent = magnitude / (FRACTIONS as nat);
    let fraction = magnitude % (FRACTIONS as nat);
    if exponent == 0 {
        fraction
    } else {
        ((FRACTIONS + fraction) * pow2((exponent - 1) as nat)) as nat
    }
}

/// The number that a pattern stands for, times two to the power of 149.
pub open spec fn scaled_value(bits: u32) -> int {
    if is_negative(bits) {
        -(scaled_magnitude(magnitude(bits)) as int)
    } else {
        scaled_magnitude(magnitude(bits)) as int
    }
}

/// The level of a pattern: zero where it stands for no number; else as far
/// below the middle of the range as its magnitude says where it is negative,
/// and as far above where it is not.
pub open spec fn level_of(bits: u32) -> u32 {
    if !is_number(bits) {
        0
    } else if is_negative(bits) {
        (SIGN_BIT - magnitude(bits)) as u32
    } else {
        (SIGN_BIT + magnitude(bits)) as u32
    }
}

/// The level by which a real component, given by its bits, is compared.
pub fn component_level(bits: u32) -> (level: u32)
    ensures
        level == level_of(bits),
        is_number(bits) ==> level >= FRACTIONS,
{
    let negative = bits >= SIGN_BIT;
    let magnitude: u32 = if negative {
        bits - SIGN_BIT
    } else {
        bits
    };
    if magnitude > INFINITY_BITS {
        0
    } else if negative {
        SIGN_BIT - magnitude
    } else {
        SIGN_BIT + magnitude
    }
}

/// All values of one exponent lie below the first value of the next.
proof fn lemma_scaled_magnitude_bounds(magnitude: nat)
    ensures
        scaled_magnitude(magnitude) < FRACTIONS * pow2(magnitude / (FRACTIONS as nat)),
        magnitude / (FRACTIONS as nat) >= 1 ==> scaled_magnitude(magnitude) >= FRACTIONS * pow2(
            (magnitude / (FRACTIONS as nat) - 1) as nat,
        ),
{
    let exponent = magnitude / (FRACTIONS as nat);
    let fraction = magnitude % (FRACTIONS as nat);
    lemma_pow2_pos(exponent);
    if exponent == 0 {
        assert(FRACTIONS * pow2(exponent) >= FRACTIONS) by (nonlinear_arith)
            requires
                pow2(exponent) >= 1,
        ;
    } else {
        let below = pow2((exponent - 1) as nat);
        lemma_pow2_pos((exponent - 1) as nat);
        lemma_pow2_unfold(exponent);
        assert((FRACTIONS + fraction) * below < FRACTIONS * (2 * below)) by (nonlinear_arith)
            requires
                fraction < FRACTIONS,
                below >= 1,
        ;
        assert((FRACTIONS + fraction) * below >= FRACTIONS * below) by (nonlinear_arith)
            requires
                fraction >= 0,
                below >= 1,
        ;
    }
}

/// A larger magnitude stands for a larger absolute value.
pub proof fn lemma_scaled_magnitude_increases(smaller: nat, larger: nat)
    requires
        smaller < larger,
    ensures
        scaled_magnitude(smaller) < scaled_magnitude(larger),
{
    let low = smaller / (FRACTIONS as nat);
    let high = larger / (FRACTIONS as nat);
    if low == high {
        if low > 0 {
            let below = pow2((low - 1) as nat);
            let fewer = smaller % (FRACTIONS as nat);
            let more = larger % (FRACTIONS as nat);
            lemma_pow2_pos((low - 1) as nat);
            assert((FRACTIONS + fewer) * below < (FRACTIONS + more) * below) by (nonlinear_arith)
                requires
                    fewer < more,
                    below >= 1,
            ;
        }
    } else {
        assert(low < high);
        lemma_scaled_magnitude_bounds(smaller);
        lemma_scaled_magnitude_bounds(larger);
        if low < high - 1 {
            lemma_pow2_strictly_increases(low, (high - 1) as nat);
        }
        assert(FRACTIONS * pow2(low) <= FRACTIONS * pow2((high - 1) as nat)) by (nonlinear_arith)
            requires
                pow2(low) <= pow2((high - 1) as nat),
        ;
    }
}

/// The levels of two numbers stand to each other as the numbers do: the
/// lower level belongs to the smaller number, and equal levels to equal
/// numbers.
pub proof fn lemma_level_keeps_order(first: u32, second: u32)
    requires
        is_number(first),
        is_number(second),
    ensures
        level_of(first) < level_of(second) <==> scaled_value(first) < scaled_value(second),
        level_of(first) == level_of(second) <==> scaled_value(first) == scaled_value(second),
{
    let a = magnitude(first);
    let b = magnitude(second);
    if a < b {
        lemma_scaled_magnitude_increases(a, b);
    }
    if b < a {
        lemma_scaled_magnitude_increases(b, a);
    }
    if 0 < a {
        lemma_scaled_magnitude_increases(0, a);
    }
    if 0 < b {
        lemma_scaled_magnitude_increases(0, b);
    }
    assert(scaled_magnitude(0) == 0);
}

/// What stands for no number lies below every number.
pub proof fn lemma_no_number_is_lowest(first: u32, second: u32)
    requires
        !is_number(first),
        is_number(second),
    ensures
        level_of(first) < level_of(second),
{
}

} // verus!
