//! The scale of the guideline grids.
//!
//! The grids are drawn at the viewport scale with its power of two taken
//! out, so that they neither thin out nor crowd together as the user zooms.
//! A scale is a positive binary floating-point number in single precision,
//! and taking out the power of two only touches its exponent. That is done
//! here, on the bit pattern of the number.
//!
//! A bit pattern holds, from the top, one sign bit, eight exponent bits and
//! 23 mantissa bits. With exponent bits `e` and mantissa bits `m` it stands
//! for `(2^23 + m) * 2^(e - 150)` if `e` is not zero, and for the subnormal
//! number `m * 2^(-149)` if `e` is zero; exponent bits `255` stand for
//! infinity and for what is not a number.

use vstd::prelude::*;
use vstd::arithmetic::power2::{lemma2_to64, lemma_pow2_unfold, pow2};

verus! {

/// The bit pattern of the number one.
pub const ONE: u32 = 0x3F80_0000;

/// Whether the pattern stands for a negative number.
pub open spec fn sign_bit(bits: u32) -> bool {
    bits & 0x8000_0000 != 0
}

/// The exponent bits of a pattern.
pub open spec fn exponent_bits(bits: u32) -> u32 {
    (bits >> 23) & 0xFF
}

/// The mantissa bits of a pattern.
pub open spec fn mantissa_bits(bits: u32) -> u32 {
    bits & 0x7F_FFFF
}

/// Whether the pattern stands for a number above zero and below infinity.
pub open spec fn is_positive_finite(bits: u32) -> bool {
    !sign_bit(bits) && exponent_bits(bits) != 0xFF && bits != 0
}

/// The integer that the pattern's number is a power of two times of.
pub open spec fn significand(bits: u32) -> nat {
    if exponent_bits(bits) == 0 {
        mantissa_bits(bits) as nat
    } else {
        (0x80_0000 + mantissa_bits(bits)) as nat
    }
}

/// Whether the pattern stands for a number from one up to, but not
/// including, two.
pub open spec fn is_between_one_and_two(bits: u32) -> bool {
    !sign_bit(bits) && exponent_bits(bits) == 127
}

/// Whether `normalized` is the number of `bits` with its power of two taken
/// out: a number from one up to two that is a power of two times the number
/// of `bits`. For each positive finite number there is exactly one.
pub open spec fn is_normalized_scale(bits: u32, normalized: u32) -> bool {
    &&& is_between_one_and_two(normalized)
    &&& exists|shift: nat| significand(normalized) == #[trigger] pow2(shift) * significand(bits)
}

/// Divides a scale by the largest power of two that is not above it: the
/// result is in `[1, 2)`. Both the scale and the result are bit patterns.
/// A pattern that is no positive finite number comes back unchanged.
pub fn normalize_scale(bits: u32) -> (normalized: u32)
    ensures
        is_positive_finite(bits) ==> is_normalized_scale(bits, normalized),
        !is_positive_finite(bits) ==> normalized == bits,
        is_positive_finite(bits) && exponent_bits(bits) != 0 ==> mantissa_bits(normalized)
            == mantissa_bits(bits),
{
    let exponent: u32 = (bits >> 23) & 0xFF;
    let mantissa: u32 = bits & 0x7F_FFFF;
    if bits & 0x8000_0000 != 0 || exponent == 0xFF || bits == 0 {
        return bits;
    }
    assert(mantissa < 0x80_0000) by (bit_vector)
        requires
            mantissa == bits & 0x7F_FFFF,
    ;
    if exponent != 0 {
        let normalized: u32 = mantissa | ONE;
        assert(is_between_one_and_two(normalized) && mantissa_bits(normalized) == mantissa) by {
            lemma_one_with_mantissa(mantissa, normalized);
        }
        assert(significand(normalized) == pow2(0) * significand(bits)) by {
            lemma2_to64();
        }
        return normalized;
    }
    assert(mantissa != 0) by (bit_vector)
        requires
            bits != 0,
            bits & 0x8000_0000 == 0,
            (bits >> 23) & 0xFF == 0,
            mantissa == bits & 0x7F_FFFF,
    ;
    let mut shifted: u32 = mantissa;
    let ghost mut shift: nat = 0;
    proof {
        lemma2_to64();
    }
    while shifted < 0x80_0000
        invariant
            0 < shifted < 0x100_0000,
            shifted == pow2(shift) * mantissa,
        decreases 0x100_0000 - shifted,
    {
        proof {
            lemma_pow2_unfold(shift + 1);
            assert(pow2(shift + 1) * mantissa == 2 * (pow2(shift) * mantissa)) by (nonlinear_arith)
                requires
                    pow2(shift + 1) == 2 * pow2(shift),
            ;
            shift = shift + 1;
        }
        shifted = shifted * 2;
    }
    let normalized: u32 = (shifted & 0x7F_FFFF) | ONE;
    assert(shifted & 0x7F_FFFF == shifted - 0x80_0000) by (bit_vector)
        requires
            0x80_0000 <= shifted < 0x100_0000,
    ;
    assert(is_between_one_and_two(normalized) && mantissa_bits(normalized) == shifted
        - 0x80_0000) by {
        lemma_one_with_mantissa((shifted - 0x80_0000) as u32, normalized);
    }
    assert(significand(normalized) == pow2(shift) * significand(bits));
    normalized
}

/// The number of `bits` with its power of two taken out is determined by
/// `bits`: two patterns that both are it are the same pattern.
pub proof fn lemma_normalized_scale_is_unique(bits: u32, first: u32, second: u32)
    requires
        is_normalized_scale(bits, first),
        is_normalized_scale(bits, second),
    ensures
        first == second,
{
    let i = choose|shift: nat| significand(first) == #[trigger] pow2(shift) * significand(bits);
    let j = choose|shift: nat| significand(second) == #[trigger] pow2(shift) * significand(bits);
    lemma_mantissa_is_small(first);
    lemma_mantissa_is_small(second);
    if i < j {
        lemma_doubling_leaves_the_range(significand(bits), i, j);
    } else if j < i {
        lemma_doubling_leaves_the_range(significand(bits), j, i);
    }
    assert(mantissa_bits(first) == mantissa_bits(second));
    assert(first == second) by (bit_vector)
        requires
            first & 0x8000_0000 == 0,
            second & 0x8000_0000 == 0,
            (first >> 23) & 0xFF == 127,
            (second >> 23) & 0xFF == 127,
            first & 0x7F_FFFF == second & 0x7F_FFFF,
    ;
}

/// A number from one up to two is its own scale.
pub proof fn lemma_scale_between_one_and_two_is_kept(bits: u32)
    requires
        is_between_one_and_two(bits),
    ensures
        is_positive_finite(bits),
        is_normalized_scale(bits, bits),
{
    assert(bits != 0) by (bit_vector)
        requires
            (bits >> 23) & 0xFF == 127,
    ;
    lemma2_to64();
    assert(significand(bits) == pow2(0) * significand(bits));
}

/// Mantissa bits are below `2^23`.
proof fn lemma_mantissa_is_small(bits: u32)
    ensures
        mantissa_bits(bits) < 0x80_0000,
{
    assert(bits & 0x7F_FFFF < 0x80_0000) by (bit_vector);
}

/// Of two different powers of two times the same number, at most one lies
/// from `2^23` up to `2^24`.
proof fn lemma_doubling_leaves_the_range(n: nat, i: nat, j: nat)
    requires
        i < j,
        0x80_0000 <= pow2(i) * n,
    ensures
        pow2(j) * n >= 0x100_0000,
    decreases j - i,
{
    lemma_pow2_unfold(j);
    if i + 1 < j {
        lemma_doubling_leaves_the_range(n, i, (j - 1) as nat);
        assert(pow2(j) * n >= pow2((j - 1) as nat) * n) by (nonlinear_arith)
            requires
                pow2(j) == 2 * pow2((j - 1) as nat),
        ;
    } else {
        assert(pow2(j) * n == 2 * (pow2(i) * n)) by (nonlinear_arith)
            requires
                pow2(j) == 2 * pow2(i),
        ;
    }
}

/// Putting mantissa bits under the exponent of the number one gives a number
/// from one up to two with that mantissa.
proof fn lemma_one_with_mantissa(mantissa: u32, normalized: u32)
    requires
        mantissa < 0x80_0000,
        normalized == mantissa | ONE,
    ensures
        is_between_one_and_two(normalized),
        mantissa_bits(normalized) == mantissa,
{
    assert(normalized & 0x8000_0000 == 0 && (normalized >> 23) & 0xFF == 127 && normalized
        & 0x7F_FFFF == mantissa) by (bit_vector)
        requires
            mantissa < 0x80_0000,
            normalized == mantissa | 0x3F80_0000,
    ;
}

} // verus!
