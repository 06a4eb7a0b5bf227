//! Reading a single-precision IEEE-754 number from its bit pattern.
//!
//! The library never computes with floating-point numbers itself. A number
//! travels through it as the 32 bits that encode it: one sign bit, eight
//! exponent bits and 23 fraction bits. Everything the library has to *decide*
//! about a number (is it a NaN, is it smaller than another one, are two of
//! them a few representable steps apart) can be read off those bits with
//! integer arithmetic, and that is what this module does.
use vstd::arithmetic::power2::{lemma2_to64, lemma_pow2_strictly_increases, pow2};
use vstd::prelude::*;

verus! {

/// The sign bit of the encoding.
pub const SIGN_BIT: u32 = 0x8000_0000;

/// The encoding of positive infinity. Every magnitude above it is a NaN,
/// every magnitude below it a finite number.
pub const INFINITY: u32 = 0x7f80_0000;

/// The encoding of `0.0`.
pub const ZERO: u32 = 0x0000_0000;

/// The encoding of `0.5`.
pub const HALF: u32 = 0x3f00_0000;

/// The encoding of `1.0`.
pub const ONE: u32 = 0x3f80_0000;

/// The encoding of `2.0`.
pub const TWO: u32 = 0x4000_0000;

/// The encoding of `10.0`.
pub const TEN: u32 = 0x4120_0000;

/// The encoding of `20.0`.
pub const TWENTY: u32 = 0x41a0_0000;

/// What one step of the exponent adds to an encoding: 2 to the power of 23,
/// the number of encodings that share an exponent and a sign.
pub const EXPONENT_STEP: u32 = 0x0080_0000;

/// The exponent field of `1.0`: a number with the exponent field `e` and the
/// significand `m` has the magnitude `m * 2 ^ (e - EXPONENT_BIAS - 23)`.
pub const EXPONENT_BIAS: u32 = 127;

/// How many representable steps two numbers may lie apart and still count
/// as approximately equal.
pub const ULPS: i64 = 3;

/// The encoding with its sign bit cleared: the encoding of the absolute value.
pub open spec fn spec_magnitude(bits: u32) -> u32 {
    if bits >= SIGN_BIT {
        (bits - SIGN_BIT) as u32
    } else {
        bits
    }
}

/// The encoding with its sign bit cleared: the encoding of the absolute value.
#[verifier::when_used_as_spec(spec_magnitude)]
pub fn magnitude(bits: u32) -> (r: u32)
    ensures
        r == spec_magnitude(bits),
{
    if bits >= SIGN_BIT {
        bits - SIGN_BIT
    } else {
        bits
    }
}

/// Whether the sign bit is set. This holds of `-0.0` too.
pub open spec fn spec_is_sign_negative(bits: u32) -> bool {
    bits >= SIGN_BIT
}

/// Whether the sign bit is set. This holds of `-0.0` too.
#[verifier::when_used_as_spec(spec_is_sign_negative)]
pub fn is_sign_negative(bits: u32) -> (r: bool)
    ensures
        r == spec_is_sign_negative(bits),
{
    bits >= SIGN_BIT
}

/// Whether the bits encode a NaN.
pub open spec fn spec_is_nan(bits: u32) -> bool {
    spec_magnitude(bits) > INFINITY
}

/// Whether the bits encode a NaN.
#[verifier::when_used_as_spec(spec_is_nan)]
pub fn is_nan(bits: u32) -> (r: bool)
    ensures
        r == spec_is_nan(bits),
{
    magnitude(bits) > INFINITY
}

/// Whether the bits encode positive or negative infinity.
pub open spec fn spec_is_infinite(bits: u32) -> bool {
    spec_magnitude(bits) == INFINITY
}

/// Whether the bits encode positive or negative infinity.
#[verifier::when_used_as_spec(spec_is_infinite)]
pub fn is_infinite(bits: u32) -> (r: bool)
    ensures
        r == spec_is_infinite(bits),
{
    magnitude(bits) == INFINITY
}

/// Whether the bits encode a number that is neither a NaN nor infinite.
pub open spec fn spec_is_finite(bits: u32) -> bool {
    spec_magnitude(bits) < INFINITY
}

/// Whether the bits encode a number that is neither a NaN nor infinite.
#[verifier::when_used_as_spec(spec_is_finite)]
pub fn is_finite(bits: u32) -> (r: bool)
    ensures
        r == spec_is_finite(bits),
{
    magnitude(bits) < INFINITY
}

/// An integer that is ordered as the encoded numbers are: the magnitude for
/// a number with a clear sign bit, its negation otherwise. Both zeros get
/// the key 0; apart from them, distinct numbers get distinct keys. A NaN has
/// a key beyond those of the infinities.
pub open spec fn spec_order_key(bits: u32) -> int {
    if bits >= SIGN_BIT {
        -(spec_magnitude(bits) as int)
    } else {
        spec_magnitude(bits) as int
    }
}

/// An integer that is ordered as the encoded numbers are.
pub fn order_key(bits: u32) -> (r: i64)
    ensures
        r == spec_order_key(bits),
{
    if bits >= SIGN_BIT {
        -(magnitude(bits) as i64)
    } else {
        magnitude(bits) as i64
    }
}

/// `a < b` as IEEE-754 defines it: false as soon as one side is a NaN.
pub open spec fn spec_less_than(a: u32, b: u32) -> bool {
    !spec_is_nan(a) && !spec_is_nan(b) && spec_order_key(a) < spec_order_key(b)
}

/// `a < b` as IEEE-754 defines it: false as soon as one side is a NaN.
#[verifier::when_used_as_spec(spec_less_than)]
pub fn less_than(a: u32, b: u32) -> (r: bool)
    ensures
        r == spec_less_than(a, b),
{
    !is_nan(a) && !is_nan(b) && order_key(a) < order_key(b)
}

/// `a <= b` as IEEE-754 defines it: false as soon as one side is a NaN.
pub open spec fn spec_less_or_equal(a: u32, b: u32) -> bool {
    !spec_is_nan(a) && !spec_is_nan(b) && spec_order_key(a) <= spec_order_key(b)
}

/// `a <= b` as IEEE-754 defines it: false as soon as one side is a NaN.
#[verifier::when_used_as_spec(spec_less_or_equal)]
pub fn less_or_equal(a: u32, b: u32) -> (r: bool)
    ensures
        r == spec_less_or_equal(a, b),
{
    !is_nan(a) && !is_nan(b) && order_key(a) <= order_key(b)
}

/// `a > b` as IEEE-754 defines it: false as soon as one side is a NaN.
pub open spec fn spec_greater_than(a: u32, b: u32) -> bool {
    spec_less_than(b, a)
}

/// `a > b` as IEEE-754 defines it: false as soon as one side is a NaN.
#[verifier::when_used_as_spec(spec_greater_than)]
pub fn greater_than(a: u32, b: u32) -> (r: bool)
    ensures
        r == spec_greater_than(a, b),
{
    less_than(b, a)
}

/// `a >= b` as IEEE-754 defines it: false as soon as one side is a NaN.
pub open spec fn spec_greater_or_equal(a: u32, b: u32) -> bool {
    spec_less_or_equal(b, a)
}

/// `a >= b` as IEEE-754 defines it: false as soon as one side is a NaN.
#[verifier::when_used_as_spec(spec_greater_or_equal)]
pub fn greater_or_equal(a: u32, b: u32) -> (r: bool)
    ensures
        r == spec_greater_or_equal(a, b),
{
    less_or_equal(b, a)
}

/// `a == b` as IEEE-754 defines it: the two zeros are equal, and a NaN is
/// equal to nothing, itself included.
pub open spec fn spec_equal(a: u32, b: u32) -> bool {
    !spec_is_nan(a) && !spec_is_nan(b) && spec_order_key(a) == spec_order_key(b)
}

/// `a == b` as IEEE-754 defines it: the two zeros are equal, and a NaN is
/// equal to nothing, itself included.
#[verifier::when_used_as_spec(spec_equal)]
pub fn equal(a: u32, b: u32) -> (r: bool)
    ensures
        r == spec_equal(a, b),
{
    !is_nan(a) && !is_nan(b) && order_key(a) == order_key(b)
}

/// The position of an encoding on the number line of all encodings: the
/// negative numbers in descending magnitude, then the positive ones in
/// ascending magnitude. Next to each other stand `-0.0` and `0.0`.
pub open spec fn spec_ordered_bits(bits: u32) -> u32 {
    if bits >= SIGN_BIT {
        (u32::MAX - bits) as u32
    } else {
        (bits + SIGN_BIT) as u32
    }
}

/// The position of an encoding on the number line of all encodings.
#[verifier::when_used_as_spec(spec_ordered_bits)]
pub fn ordered_bits(bits: u32) -> (r: u32)
    ensures
        r == spec_ordered_bits(bits),
{
    if bits >= SIGN_BIT {
        u32::MAX - bits
    } else {
        bits + SIGN_BIT
    }
}

/// The number of representable steps from `b` up to `a`, negative where `a`
/// lies below `b`: the difference of the two positions, wrapped around into
/// the range of a signed 32-bit integer.
pub open spec fn spec_ulps_between(a: u32, b: u32) -> int {
    let d = spec_ordered_bits(a) - spec_ordered_bits(b);
    if d > i32::MAX {
        d - 0x1_0000_0000
    } else if d < i32::MIN {
        d + 0x1_0000_0000
    } else {
        d
    }
}

/// The number of representable steps from `b` up to `a`, negative where `a`
/// lies below `b`.
pub fn ulps_between(a: u32, b: u32) -> (r: i64)
    ensures
        r == spec_ulps_between(a, b),
        i32::MIN <= r <= i32::MAX,
{
    let d: i64 = ordered_bits(a) as i64 - ordered_bits(b) as i64;
    if d > 0x7fff_ffff {
        d - 0x1_0000_0000
    } else if d < -0x8000_0000 {
        d + 0x1_0000_0000
    } else {
        d
    }
}

/// Whether two numbers are equal or at most [`ULPS`] representable steps
/// apart. No tolerance is given in absolute terms.
pub open spec fn spec_approx_eq(a: u32, b: u32) -> bool {
    spec_equal(a, b) || -ULPS <= spec_ulps_between(a, b) <= ULPS
}

/// Whether two numbers are equal or at most [`ULPS`] representable steps
/// apart. No tolerance is given in absolute terms.
#[verifier::when_used_as_spec(spec_approx_eq)]
pub fn approx_eq(a: u32, b: u32) -> (r: bool)
    ensures
        r == spec_approx_eq(a, b),
{
    if equal(a, b) {
        true
    } else {
        let steps = ulps_between(a, b);
        -ULPS <= steps && steps <= ULPS
    }
}

/// The exponent field of an encoding, from 0 to 255.
pub open spec fn spec_exponent(bits: u32) -> u32 {
    spec_magnitude(bits) / EXPONENT_STEP
}

/// The exponent field of an encoding, from 0 to 255.
#[verifier::when_used_as_spec(spec_exponent)]
pub fn exponent(bits: u32) -> (r: u32)
    ensures
        r == spec_exponent(bits),
        r <= 255,
{
    magnitude(bits) / EXPONENT_STEP
}

/// The significand of a finite number as an integer: the fraction field,
/// with the hidden bit on top of it unless the exponent field is 0.
pub open spec fn spec_significand(bits: u32) -> u32 {
    if spec_exponent(bits) == 0 {
        spec_magnitude(bits) % EXPONENT_STEP
    } else {
        (spec_magnitude(bits) % EXPONENT_STEP + EXPONENT_STEP) as u32
    }
}

/// The significand of a finite number as an integer: the fraction field,
/// with the hidden bit on top of it unless the exponent field is 0.
#[verifier::when_used_as_spec(spec_significand)]
pub fn significand(bits: u32) -> (r: u32)
    ensures
        r == spec_significand(bits),
        r < 2 * EXPONENT_STEP,
{
    if exponent(bits) == 0 {
        magnitude(bits) % EXPONENT_STEP
    } else {
        magnitude(bits) % EXPONENT_STEP + EXPONENT_STEP
    }
}

/// The integer part of a number, as a 32-bit integer: the number rounded
/// towards zero, 0 for a negative number and for a NaN, and the largest
/// 32-bit integer for whatever lies above it.
///
/// A number with the exponent field `e` and the significand `m` is
/// `m * 2 ^ (e - 150)`. Below an exponent field of 127 it is less than 1,
/// and from an exponent field of 159 on it is 2 to the power of 32 at least.
pub open spec fn spec_truncate(bits: u32) -> u32 {
    let e = spec_exponent(bits);
    let m = spec_significand(bits);
    if spec_is_nan(bits) || spec_is_sign_negative(bits) || e < EXPONENT_BIAS {
        0
    } else if e >= EXPONENT_BIAS + 32 {
        u32::MAX
    } else if e >= EXPONENT_BIAS + 23 {
        (m as int * pow2((e - EXPONENT_BIAS - 23) as nat) as int) as u32
    } else {
        (m as int / pow2((EXPONENT_BIAS + 23 - e) as nat) as int) as u32
    }
}

/// 2 to the power of `k`.
fn two_to_the(k: u32) -> (r: u32)
    requires
        k <= 31,
    ensures
        r == pow2(k as nat),
{
    let mut r: u32 = 1;
    let mut i: u32 = 0;
    proof {
        lemma2_to64();
    }
    while i < k
        invariant
            i <= k,
            k <= 31,
            r == pow2(i as nat),
        decreases k - i,
    {
        proof {
            lemma_pow2_strictly_increases(i as nat, 32);
            lemma2_to64();
            vstd::arithmetic::power2::lemma_pow2_unfold((i + 1) as nat);
        }
        r = r * 2;
        i = i + 1;
    }
    r
}

/// The integer part of a number, as a 32-bit integer: the number rounded
/// towards zero, 0 for a negative number and for a NaN, and the largest
/// 32-bit integer for whatever lies above it.
#[verifier::when_used_as_spec(spec_truncate)]
pub fn truncate(bits: u32) -> (r: u32)
    ensures
        r == spec_truncate(bits),
{
    let e = exponent(bits);
    let m = significand(bits);
    if is_nan(bits) || is_sign_negative(bits) || e < EXPONENT_BIAS {
        0
    } else if e >= EXPONENT_BIAS + 32 {
        u32::MAX
    } else if e >= EXPONENT_BIAS + 23 {
        let factor = two_to_the(e - EXPONENT_BIAS - 23);
        proof {
            lemma2_to64();
            if e - EXPONENT_BIAS - 23 < 8 {
                lemma_pow2_strictly_increases((e - EXPONENT_BIAS - 23) as nat, 8);
            }
            assert(factor <= 256);
            assert(m * factor <= 0xff_ffff * 256) by (nonlinear_arith)
                requires
                    m <= 0xff_ffff,
                    factor <= 256,
            ;
        }
        m * factor
    } else {
        let divisor = two_to_the(EXPONENT_BIAS + 23 - e);
        proof {
            vstd::arithmetic::power2::lemma_pow2_pos((EXPONENT_BIAS + 23 - e) as nat);
        }
        m / divisor
    }
}

/// Of two numbers that are not NaN, exactly one of "smaller", "equal" and
/// "greater" holds.
pub proof fn lemma_trichotomy(a: u32, b: u32)
    requires
        !spec_is_nan(a),
        !spec_is_nan(b),
    ensures
        spec_less_than(a, b) || spec_equal(a, b) || spec_greater_than(a, b),
        !(spec_less_than(a, b) && spec_equal(a, b)),
        !(spec_less_than(a, b) && spec_greater_than(a, b)),
        !(spec_equal(a, b) && spec_greater_than(a, b)),
        spec_less_or_equal(a, b) <==> spec_less_than(a, b) || spec_equal(a, b),
{
}

/// "Smaller or equal" is transitive.
pub proof fn lemma_transitive(a: u32, b: u32, c: u32)
    requires
        spec_less_or_equal(a, b),
        spec_less_or_equal(b, c),
    ensures
        spec_less_or_equal(a, c),
{
}

} // verus!
