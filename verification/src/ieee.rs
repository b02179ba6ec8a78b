//! Binary64 numbers as bit patterns.
//!
//! A pattern is a `u64`: one sign bit, eleven exponent bits, fifty-two
//! fraction bits. With the sign bit cleared, patterns grow with the absolute
//! value they encode, infinity is the largest pattern that is not a NaN, and
//! every larger pattern is a NaN. Everything below follows from that layout:
//! the classes of patterns are read off its fields
//! ([`classes_follow_the_layout`]), and the integer keys by which patterns
//! are compared order them as the numbers they encode are ordered
//! ([`key_order_is_value_order`]).

use vstd::arithmetic::power2::{lemma_pow2_pos, lemma_pow2_strictly_increases, lemma_pow2_unfold, pow2};
use vstd::prelude::*;

verus! {

/// The pattern whose only set bit is the sign.
pub const SIGN_BIT: u64 = 0x8000_0000_0000_0000;

/// `0.0`.
pub const ZERO: u64 = 0;

/// `-0.0`.
pub const NEG_ZERO: u64 = 0x8000_0000_0000_0000;

/// `1.0`.
pub const ONE: u64 = 0x3FF0_0000_0000_0000;

/// Positive infinity.
pub const INFINITY: u64 = 0x7FF0_0000_0000_0000;

/// Negative infinity.
pub const NEG_INFINITY: u64 = 0xFFF0_0000_0000_0000;

/// The gap between `1.0` and the next larger number, two to the power of -52.
pub const EPSILON: u64 = 0x3CB0_0000_0000_0000;

/// The pattern with its sign bit cleared.
pub open spec fn magnitude(bits: u64) -> int {
    (bits % SIGN_BIT) as int
}

/// The sign bit is set.
pub open spec fn sign_set(bits: u64) -> bool {
    bits >= SIGN_BIT
}

/// The pattern encodes no number.
pub open spec fn nan(bits: u64) -> bool {
    magnitude(bits) > INFINITY
}

/// The pattern encodes a number other than an infinity.
pub open spec fn finite(bits: u64) -> bool {
    magnitude(bits) < INFINITY
}

/// An integer that orders the patterns of numbers as their values are
/// ordered. Both zeros have key 0.
pub open spec fn numeric_key(bits: u64) -> int {
    if sign_set(bits) {
        -magnitude(bits)
    } else {
        magnitude(bits)
    }
}

/// An integer that orders all patterns totally: negative NaNs, negative
/// infinity, negative numbers, `-0.0`, `0.0`, positive numbers, positive
/// infinity, positive NaNs. Different patterns have different keys.
pub open spec fn total_key(bits: u64) -> int {
    if sign_set(bits) {
        -magnitude(bits) - 1
    } else {
        magnitude(bits)
    }
}

/// `a < b` as numbers: false when either is a NaN.
pub open spec fn less(a: u64, b: u64) -> bool {
    !nan(a) && !nan(b) && numeric_key(a) < numeric_key(b)
}

/// `a <= b` as numbers: false when either is a NaN.
pub open spec fn at_most(a: u64, b: u64) -> bool {
    !nan(a) && !nan(b) && numeric_key(a) <= numeric_key(b)
}

/// The pattern encodes a number between zero and one, bounds included.
pub open spec fn in_unit_interval(bits: u64) -> bool {
    at_most(ZERO, bits) && at_most(bits, ONE)
}

/// The larger of two numbers. A NaN counts as missing: the other argument is
/// the result. Of two numbers that compare equal the first is the result.
pub open spec fn larger(a: u64, b: u64) -> u64 {
    if nan(a) {
        b
    } else if nan(b) {
        a
    } else if less(a, b) {
        b
    } else {
        a
    }
}

/// The smaller of two numbers. A NaN counts as missing: the other argument is
/// the result. Of two numbers that compare equal the first is the result.
pub open spec fn smaller(a: u64, b: u64) -> u64 {
    if nan(a) {
        b
    } else if nan(b) {
        a
    } else if less(b, a) {
        b
    } else {
        a
    }
}

/// Whether the pattern encodes a number other than an infinity.
pub fn is_finite(bits: u64) -> (r: bool)
    ensures
        r == finite(bits),
{
    bits % SIGN_BIT < INFINITY
}

/// Whether the pattern encodes no number.
pub fn is_nan(bits: u64) -> (r: bool)
    ensures
        r == nan(bits),
{
    bits % SIGN_BIT > INFINITY
}

/// Whether `a < b` as numbers.
pub fn is_less(a: u64, b: u64) -> (r: bool)
    ensures
        r == less(a, b),
{
    if is_nan(a) || is_nan(b) {
        return false;
    }
    let ma: u64 = a % SIGN_BIT;
    let mb: u64 = b % SIGN_BIT;
    if a >= SIGN_BIT {
        if b >= SIGN_BIT {
            mb < ma
        } else {
            ma > 0 || mb > 0
        }
    } else {
        if b >= SIGN_BIT {
            false
        } else {
            ma < mb
        }
    }
}

/// Whether `a <= b` as numbers.
pub fn is_at_most(a: u64, b: u64) -> (r: bool)
    ensures
        r == at_most(a, b),
{
    if is_nan(a) || is_nan(b) {
        return false;
    }
    !is_less(b, a)
}

/// The larger of two numbers, a NaN counting as missing.
pub fn maximum(a: u64, b: u64) -> (r: u64)
    ensures
        r == larger(a, b),
{
    if is_nan(a) {
        b
    } else if is_nan(b) {
        a
    } else if is_less(a, b) {
        b
    } else {
        a
    }
}

/// The smaller of two numbers, a NaN counting as missing.
pub fn minimum(a: u64, b: u64) -> (r: u64)
    ensures
        r == smaller(a, b),
{
    if is_nan(a) {
        b
    } else if is_nan(b) {
        a
    } else if is_less(b, a) {
        b
    } else {
        a
    }
}

/// Whether `a` comes before `b` in the total order of patterns.
pub fn total_before(a: u64, b: u64) -> (r: bool)
    ensures
        r == (total_key(a) < total_key(b)),
{
    let ma: u64 = a % SIGN_BIT;
    let mb: u64 = b % SIGN_BIT;
    if a >= SIGN_BIT {
        if b >= SIGN_BIT {
            mb < ma
        } else {
            true
        }
    } else {
        if b >= SIGN_BIT {
            false
        } else {
            ma < mb
        }
    }
}

/// The exponent field of a pattern, as a number.
pub open spec fn exponent_field(bits: u64) -> nat {
    (magnitude(bits) / 0x10_0000_0000_0000) as nat
}

/// The fraction field of a pattern, as a number.
pub open spec fn fraction_field(bits: u64) -> nat {
    (magnitude(bits) % 0x10_0000_0000_0000) as nat
}

/// The absolute value that a finite pattern encodes, counted in units of two
/// to the power of -1074, the smallest positive number there is. A pattern
/// with exponent field 0 encodes its fraction field in those units; any
/// other finite pattern encodes two to the power of 52 plus its fraction
/// field, doubled once for every step of the exponent field above 1.
pub open spec fn scaled_magnitude(bits: u64) -> nat {
    if exponent_field(bits) == 0 {
        fraction_field(bits)
    } else {
        (0x10_0000_0000_0000 + fraction_field(bits)) * pow2((exponent_field(bits) - 1) as nat)
    }
}

/// The number that a finite pattern encodes, in the same units: an integer.
pub open spec fn scaled_value(bits: u64) -> int {
    if sign_set(bits) {
        -(scaled_magnitude(bits) as int)
    } else {
        scaled_magnitude(bits) as int
    }
}

/// A larger magnitude encodes a larger absolute value.
proof fn magnitude_grows_with_value(a: u64, b: u64)
    requires
        finite(a),
        finite(b),
        magnitude(a) < magnitude(b),
    ensures
        scaled_magnitude(a) < scaled_magnitude(b),
{
    let ea = exponent_field(a);
    let eb = exponent_field(b);
    let fa = fraction_field(a);
    let fb = fraction_field(b);
    let unit: nat = 0x10_0000_0000_0000;
    assert(ea <= eb);
    if ea == eb {
        if ea > 0 {
            let p = pow2((ea - 1) as nat);
            lemma_pow2_pos((ea - 1) as nat);
            assert((unit + fa) * p < (unit + fb) * p) by (nonlinear_arith)
                requires
                    fa < fb,
                    p > 0,
            ;
        }
    } else {
        let pb = pow2((eb - 1) as nat);
        lemma_pow2_pos((eb - 1) as nat);
        assert(unit * pb <= (unit + fb) * pb) by (nonlinear_arith)
            requires
                pb > 0,
        ;
        if ea == 0 {
            assert(unit * 1 <= unit * pb) by (nonlinear_arith)
                requires
                    pb >= 1,
            ;
        } else {
            let pa = pow2((ea - 1) as nat);
            lemma_pow2_pos((ea - 1) as nat);
            lemma_pow2_unfold(ea);
            assert(pow2(ea) == 2 * pa);
            if ea < eb - 1 {
                lemma_pow2_strictly_increases(ea, (eb - 1) as nat);
            }
            assert(pow2(ea) <= pb);
            assert((unit + fa) * pa < unit * (2 * pa)) by (nonlinear_arith)
                requires
                    fa < unit,
                    pa > 0,
            ;
            assert(unit * (2 * pa) <= unit * pb) by (nonlinear_arith)
                requires
                    2 * pa <= pb,
            ;
        }
    }
}

/// The order of the keys is the order of the numbers: of two finite patterns
/// the one with the smaller key encodes the smaller number, and two with one
/// key encode one number.
pub proof fn key_order_is_value_order(a: u64, b: u64)
    requires
        finite(a),
        finite(b),
    ensures
        numeric_key(a) < numeric_key(b) <==> scaled_value(a) < scaled_value(b),
        numeric_key(a) == numeric_key(b) <==> scaled_value(a) == scaled_value(b),
{
    if magnitude(a) < magnitude(b) {
        magnitude_grows_with_value(a, b);
    }
    if magnitude(b) < magnitude(a) {
        magnitude_grows_with_value(b, a);
    }
    if magnitude(a) == magnitude(b) {
        assert(scaled_magnitude(a) == scaled_magnitude(b));
    }
    assert(scaled_magnitude(ZERO) == 0);
    if magnitude(a) > 0 {
        magnitude_grows_with_value(ZERO, a);
    } else {
        assert(scaled_magnitude(a) == 0);
    }
    if magnitude(b) > 0 {
        magnitude_grows_with_value(ZERO, b);
    } else {
        assert(scaled_magnitude(b) == 0);
    }
}

/// What the named patterns encode: `ZERO` and `NEG_ZERO` zero, `ONE` two to
/// the power of 1074 units, `EPSILON` two to the power of 1022 units.
pub proof fn named_patterns_encode_their_numbers()
    ensures
        scaled_value(ZERO) == 0,
        scaled_value(NEG_ZERO) == 0,
        scaled_value(ONE) == 0x10_0000_0000_0000 * pow2(1022),
        scaled_value(EPSILON) == 0x10_0000_0000_0000 * pow2(970),
{
    assert(exponent_field(ONE) == 1023 && fraction_field(ONE) == 0);
    assert(exponent_field(EPSILON) == 971 && fraction_field(EPSILON) == 0);
}

/// The eleven exponent bits of a pattern.
pub open spec fn exponent_bits(bits: u64) -> u64 {
    (bits >> 52) & 0x7FF
}

/// The fifty-two fraction bits of a pattern.
pub open spec fn fraction_bits(bits: u64) -> u64 {
    bits & 0x000F_FFFF_FFFF_FFFF
}

/// The classes of patterns, read off the fields of the layout: a pattern is
/// finite unless all its exponent bits are set, and of those with all
/// exponent bits set the NaNs are the ones with a fraction bit set. The
/// magnitude is the pattern without its top bit, and the sign is that bit.
pub proof fn classes_follow_the_layout(bits: u64)
    ensures
        finite(bits) <==> exponent_bits(bits) != 0x7FF,
        nan(bits) <==> exponent_bits(bits) == 0x7FF && fraction_bits(bits) != 0,
        magnitude(bits) == bits & 0x7FFF_FFFF_FFFF_FFFF,
        sign_set(bits) <==> bits >> 63 == 1,
{
    assert(bits % 0x8000_0000_0000_0000 == bits & 0x7FFF_FFFF_FFFF_FFFF) by (bit_vector);
    assert((bits & 0x7FFF_FFFF_FFFF_FFFF) < 0x7FF0_0000_0000_0000 <==> ((bits >> 52) & 0x7FF) != 0x7FF)
        by (bit_vector);
    assert((bits & 0x7FFF_FFFF_FFFF_FFFF) > 0x7FF0_0000_0000_0000 <==> ((bits >> 52) & 0x7FF) == 0x7FF && (bits
        & 0x000F_FFFF_FFFF_FFFF) != 0) by (bit_vector);
    assert(bits >= 0x8000_0000_0000_0000 <==> bits >> 63 == 1) by (bit_vector);
}

/// The place of a pattern in the total order is the pattern read as a signed
/// integer in two's complement, after the bits below the sign have been
/// flipped where the sign is set.
pub proof fn total_key_flips_negative_patterns(bits: u64)
    ensures
        total_key(bits) == {
            let flipped = if sign_set(bits) {
                bits ^ 0x7FFF_FFFF_FFFF_FFFF
            } else {
                bits
            };
            if flipped >= SIGN_BIT {
                flipped - 0x1_0000_0000_0000_0000
            } else {
                flipped as int
            }
        },
{
    assert(bits >= 0x8000_0000_0000_0000 ==> (bits ^ 0x7FFF_FFFF_FFFF_FFFF) == 0xFFFF_FFFF_FFFF_FFFF - (bits
        % 0x8000_0000_0000_0000)) by (bit_vector);
    assert(bits < 0x8000_0000_0000_0000 ==> bits % 0x8000_0000_0000_0000 == bits) by (bit_vector);
}

/// Different patterns have different places in the total order.
pub proof fn total_key_injective(a: u64, b: u64)
    ensures
        total_key(a) == total_key(b) <==> a == b,
{
}

/// On numbers the total order refines the numeric one: what comes first in the
/// total order is not numerically larger.
pub proof fn total_order_refines_numeric(a: u64, b: u64)
    requires
        !nan(a),
        !nan(b),
        total_key(a) <= total_key(b),
    ensures
        at_most(a, b),
{
}

} // verus!
