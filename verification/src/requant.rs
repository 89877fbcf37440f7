//! Fixed-point parameters derived from tensor scales and zero points.
//!
//! Scales are binary32 patterns. A ratio of scales is formed in binary64,
//! where products of two scales are exact, and turned into a multiplier and a
//! shift.

use crate::ieee::{decode32, decode64, divide64, integer_of, larger_of, multiply};
use crate::ieee::{round_away, round_integer, Number};
use crate::int8::quantize_multiplier;
use vstd::prelude::*;

verus! {

/// The binary32 pattern of one.
pub const UNIT_SCALE: u32 = 0x3f80_0000;

/// The left shift of the inputs of an addition.
pub const ADD_LEFT_SHIFT: i32 = 20;

/// The number `2^exponent`.
pub open spec fn power(exponent: i32) -> Number {
    Number::Finite { negative: false, mantissa: 1, exponent }
}

/// The pair of `input / output`.
pub open spec fn ratio(input: u32, output: u32) -> (i32, i32) {
    crate::int8::fixed_pair(
        crate::ieee::quotient64(crate::ieee::denoted32(input), crate::ieee::denoted32(output)),
    )
}

/// The pair of `first * second / output`.
pub open spec fn product_ratio(first: u32, second: u32, output: u32) -> (i32, i32) {
    crate::int8::fixed_pair(
        crate::ieee::quotient64(
            crate::ieee::product(crate::ieee::denoted32(first), crate::ieee::denoted32(second)),
            crate::ieee::denoted32(output),
        ),
    )
}

/// Twice the larger of two scales.
pub open spec fn twice_larger(first: u32, second: u32) -> Number {
    crate::ieee::product(power(1), crate::ieee::denoted32(crate::ieee::larger(first, second)))
}

/// The pair by which an addition scales an input: its scale over twice the
/// larger input scale.
pub open spec fn add_input(scale: u32, first: u32, second: u32) -> (i32, i32) {
    crate::int8::fixed_pair(
        crate::ieee::quotient64(crate::ieee::denoted32(scale), twice_larger(first, second)),
    )
}

/// The pair by which an addition scales its sum: twice the larger input scale
/// over the output scale, with the left shift of the inputs taken back.
pub open spec fn add_output(first: u32, second: u32, output: u32) -> (i32, i32) {
    crate::int8::fixed_pair(
        crate::ieee::quotient64(
            twice_larger(first, second),
            crate::ieee::product(power(ADD_LEFT_SHIFT), crate::ieee::denoted32(output)),
        ),
    )
}

/// The pair of `input / output`.
pub fn ratio_pair(input: u32, output: u32) -> (r: (i32, i32))
    ensures
        r == ratio(input, output),
        -31 <= r.1 <= 1026,
{
    quantize_multiplier(divide64(decode32(input), decode32(output)))
}

/// The pair of `first * second / output`.
pub fn product_ratio_pair(first: u32, second: u32, output: u32) -> (r: (i32, i32))
    ensures
        r == product_ratio(first, second, output),
{
    quantize_multiplier(divide64(multiply(decode32(first), decode32(second)), decode32(output)))
}

fn twice_the_larger(first: u32, second: u32) -> (r: Number)
    ensures
        r == twice_larger(first, second),
        crate::ieee::within(r, 0x4_0000_0000_0000, 600),
{
    multiply(
        Number::Finite { negative: false, mantissa: 1, exponent: 1 },
        decode32(larger_of(first, second)),
    )
}

/// The pair by which an addition scales an input.
pub fn add_input_pair(scale: u32, first: u32, second: u32) -> (r: (i32, i32))
    ensures
        r == add_input(scale, first, second),
{
    quantize_multiplier(divide64(decode32(scale), twice_the_larger(first, second)))
}

/// The pair by which an addition scales its sum.
pub fn add_output_pair(first: u32, second: u32, output: u32) -> (r: (i32, i32))
    ensures
        r == add_output(first, second, output),
{
    let steps: Number = multiply(
        Number::Finite { negative: false, mantissa: 1, exponent: ADD_LEFT_SHIFT },
        decode32(output),
    );
    quantize_multiplier(divide64(twice_the_larger(first, second), steps))
}

/// A zero point as a 32-bit word.
pub open spec fn low_word(zero_point: i64) -> i32 {
    zero_point as i32
}

/// The negative of a word; the smallest word is its own.
pub open spec fn negated(x: i32) -> i32 {
    if x == i32::MIN {
        x
    } else {
        (-x) as i32
    }
}

/// A zero point as a 32-bit word.
pub fn to_word(zero_point: i64) -> (r: i32)
    ensures
        r == low_word(zero_point),
{
    #[verifier::truncate]
    (zero_point as i32)
}

/// The negative of a word; the smallest word is its own.
pub fn negate(x: i32) -> (r: i32)
    ensures
        r == negated(x),
{
    if x == i32::MIN {
        x
    } else {
        -x
    }
}

/// How many steps of a scale the real number six is, rounded.
pub open spec fn six(scale: u32) -> int {
    crate::ieee::rounded_away(
        crate::ieee::denoted64(
            crate::ieee::quotient64(
                Number::Finite { negative: false, mantissa: 6, exponent: 0 },
                crate::ieee::denoted32(scale),
            ),
        ),
    )
}

/// How many steps of a scale the real number six is, rounded, and no more than
/// [`crate::ieee::FAR`].
pub fn six_in_steps(scale: u32) -> (r: i128)
    ensures
        r == crate::int8::clamp_int(six(scale), -crate::ieee::FAR, crate::ieee::FAR as int),
{
    let six = Number::Finite { negative: false, mantissa: 6, exponent: 0 };
    round_away(decode64(divide64(six, decode32(scale))))
}

/// A zero point rounded to binary64.
pub open spec fn wide_zero_point(zero_point: i64) -> int {
    crate::ieee::integer_value(crate::ieee::rounded_integer(zero_point as int, 53))
}

/// A zero point rounded to binary64.
pub fn to_wide(zero_point: i64) -> (r: i128)
    ensures
        r == wide_zero_point(zero_point),
        -0x1_0000_0000_0000_0000 <= r <= 0x1_0000_0000_0000_0000,
{
    proof {
        vstd::arithmetic::power2::lemma2_to64_rest();
    }
    integer_of(round_integer(zero_point as i128, 53))
}

/// The number six in steps of a scale, as a saturated word.
pub open spec fn six_word(scale: u32) -> i32 {
    crate::int8::clamp_int(six(scale), i32::MIN as int, i32::MAX as int) as i32
}

/// The sum of two words, wrapped.
pub open spec fn wrapped_sum(a: i32, b: i32) -> i32 {
    if a + b > i32::MAX {
        (a + b - 0x1_0000_0000) as i32
    } else if a + b < i32::MIN {
        (a + b + 0x1_0000_0000) as i32
    } else {
        (a + b) as i32
    }
}

/// The range that the activation with code `act` clamps to: 1 is ReLU, 3 is
/// ReLU6, all others clamp to nothing narrower than a byte. So does every
/// activation where the scale is zero or negative.
pub open spec fn bounds(act: i8, scale: u32, zero_point: i32) -> (i32, i32) {
    let low: i32 = if zero_point > -128 {
        zero_point
    } else {
        -128i32
    };
    if (act != 1 && act != 3) || (!crate::ieee::is_nan(scale) && crate::ieee::rank(scale) <= 0) {
        (-128i32, 127i32)
    } else if act == 1 {
        (low, 127i32)
    } else {
        let high = wrapped_sum(zero_point, six_word(scale));
        (
            low,
            if high < 127 {
                high
            } else {
                127i32
            },
        )
    }
}

/// The range that the activation with code `act` clamps to.
pub fn act_range(act: i8, scale: u32, zero_point: i32) -> (r: (i32, i32))
    ensures
        r == bounds(act, scale, zero_point),
{
    let undefined: bool = scale % 0x8000_0000 > 0x7f80_0000;
    let above_zero: bool = scale < 0x8000_0000 && scale > 0;
    if (act != 1 && act != 3) || (!undefined && !above_zero) {
        return (-128, 127);
    }
    let low: i32 = if zero_point > -128 { zero_point } else { -128 };
    if act == 1 {
        return (low, 127);
    }
    let steps: i128 = six_in_steps(scale);
    let word: i32 = if steps > i32::MAX as i128 {
        i32::MAX
    } else if steps < i32::MIN as i128 {
        i32::MIN
    } else {
        steps as i32
    };
    let high: i32 = zero_point.wrapping_add(word);
    (low, if high < 127 { high } else { 127 })
}

/// Where input and output have the same scale, the pair is the identity: by
/// [`crate::int8::law_identity_pair`] it changes no value. The same holds of a
/// product with a factor of scale one.
pub proof fn law_equal_scales_give_the_identity(scale: u32)
    requires
        crate::ieee::is_valid_scale(scale),
    ensures
        ratio(scale, scale) == (0x4000_0000i32, 1i32),
        product_ratio(scale, UNIT_SCALE, scale) == (0x4000_0000i32, 1i32),
{
    crate::ieee::law_equal_scales_cancel(scale);
}

/// Every pair of scales without a minus sign is normalized: `(0, 0)`, or a
/// multiplier of at least a half in Q0.31 and a shift of at least -31.
pub proof fn law_pairs_are_normalized(first: u32, second: u32, output: u32)
    requires
        first < 0x8000_0000,
        second < 0x8000_0000,
        output < 0x8000_0000,
    ensures
        ratio(first, output) == (0i32, 0i32) || (0x4000_0000 <= ratio(first, output).0 && ratio(
            first,
            output,
        ).1 >= -31),
        product_ratio(first, second, output) == (0i32, 0i32) || (0x4000_0000 <= product_ratio(
            first,
            second,
            output,
        ).0 && product_ratio(first, second, output).1 >= -31),
{
    let a = crate::ieee::denoted32(first);
    let b = crate::ieee::denoted32(output);
    let ab = crate::ieee::product(a, crate::ieee::denoted32(second));
    crate::ieee::law_quotient_keeps_sign(a, b);
    crate::ieee::law_quotient_keeps_sign(ab, b);
    crate::int8::law_multiplier_is_normalized(crate::ieee::quotient64(a, b));
    crate::int8::law_multiplier_is_normalized(crate::ieee::quotient64(ab, b));
}

} // verus!
