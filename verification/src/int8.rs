//! Fixed-point arithmetic of quantized inference.
//!
//! A real factor is held as a Q0.31 multiplier and a shift. Scaling rounds
//! once, at the end, with halves going up. Division by a power of two rounds
//! halves away from zero.

use crate::op_params::PerChannelQuantParam;
use vstd::arithmetic::div_mod::*;
use vstd::arithmetic::power2::*;
use vstd::prelude::*;

verus! {

/// `v` brought into the range `lo..=hi`.
pub open spec fn clamp_int(v: int, lo: int, hi: int) -> int {
    if v > hi {
        hi
    } else if v < lo {
        lo
    } else {
        v
    }
}

/// `value * multiplier / 2^(31 - shift)`, rounded to the nearest integer with
/// halves going up.
pub open spec fn scaled(value: int, multiplier: int, shift: int) -> int {
    (value * multiplier + pow2((30 - shift) as nat)) / (pow2((31 - shift) as nat) as int)
}

/// An arithmetic right shift is a division that rounds down.
proof fn lemma_shr_is_floor(x: i64, n: u32)
    requires
        n < 64,
    ensures
        (x >> n) == x as int / (pow2(n as nat) as int),
    decreases n,
{
    if n == 0 {
        lemma2_to64();
        assert(x >> 0u32 == x) by (bit_vector);
        assert(x as int / 1 == x);
    } else {
        let m = (n - 1) as u32;
        lemma_shr_is_floor(x, m);
        let y = x >> m;
        assert(x >> n == (x >> m) >> 1u32) by (bit_vector)
            requires
                1 <= n < 64,
                m == n - 1,
        ;
        assert(y >> 1u32 == y / 2) by (bit_vector);
        lemma_pow2_pos(m as nat);
        lemma_pow2_unfold(n as nat);
        crate::arith::lemma_floor_of_floor(x as int, pow2(m as nat) as int, 2);
        assert(x >> n == (x as int / (pow2(m as nat) as int)) / 2);
        assert(pow2(n as nat) == (pow2(m as nat) as int) * 2);
    }
}

/// A single bit, as a power of two.
proof fn lemma_bit_is_pow2(n: u32)
    requires
        n < 63,
    ensures
        (1i64 << n) == pow2(n as nat),
        (1i64 << n) > 0,
    decreases n,
{
    if n == 0 {
        lemma2_to64();
        assert(1i64 << 0u32 == 1) by (bit_vector);
    } else {
        let m = (n - 1) as u32;
        lemma_bit_is_pow2(m);
        lemma_pow2_unfold(n as nat);
        assert(1i64 << n == 2 * (1i64 << m) && (1i64 << n) > 0) by (bit_vector)
            requires
                1 <= n < 63,
                m == n - 1,
        ;
    }
}

/// The two halves of the unsigned 64-bit product of two 32-bit words, from
/// products of 16-bit limbs.
fn wide_product(a: u32, b: u32) -> (r: (u32, u32))
    ensures
        r.0 * 0x1_0000_0000 + r.1 == a * b,
{
    let a0: u32 = a & 0xffff;
    let a1: u32 = a >> 16;
    let b0: u32 = b & 0xffff;
    let b1: u32 = b >> 16;
    assert(a == a1 * 65536 + a0 && a0 < 65536 && a1 < 65536) by (bit_vector)
        requires
            a0 == a & 0xffff,
            a1 == a >> 16,
    ;
    assert(b == b1 * 65536 + b0 && b0 < 65536 && b1 < 65536) by (bit_vector)
        requires
            b0 == b & 0xffff,
            b1 == b >> 16,
    ;
    assert(0 <= a0 * b0 <= 0xfffe_0001) by (nonlinear_arith)
        requires
            0 <= a0 < 65536,
            0 <= b0 < 65536,
    ;
    assert(0 <= a0 * b1 <= 0xfffe_0001) by (nonlinear_arith)
        requires
            0 <= a0 < 65536,
            0 <= b1 < 65536,
    ;
    assert(0 <= a1 * b0 <= 0xfffe_0001) by (nonlinear_arith)
        requires
            0 <= a1 < 65536,
            0 <= b0 < 65536,
    ;
    assert(0 <= a1 * b1 <= 0xfffe_0001) by (nonlinear_arith)
        requires
            0 <= a1 < 65536,
            0 <= b1 < 65536,
    ;
    let p00: u32 = a0 * b0;
    let p01: u32 = a0 * b1;
    let p10: u32 = a1 * b0;
    let p11: u32 = a1 * b1;
    assert forall|x: u32| #![auto] (x & 0xffff) == x % 65536 && (x >> 16) == x / 65536 by {
        assert((x & 0xffff) == x % 65536 && (x >> 16) == x / 65536) by (bit_vector);
    }
    let q: u32 = (p00 >> 16) + (p01 & 0xffff) + (p10 & 0xffff);
    let c1: u32 = q & 0xffff;
    let r: u32 = (q >> 16) + (p01 >> 16) + (p10 >> 16) + (p11 & 0xffff);
    let c2: u32 = r & 0xffff;
    let c3: u32 = (r >> 16) + (p11 >> 16);
    assert(a * b == p11 * 0x1_0000_0000 + (p01 + p10) * 65536 + p00) by (nonlinear_arith)
        requires
            a == a1 * 65536 + a0,
            b == b1 * 65536 + b0,
            p00 == a0 * b0,
            p01 == a0 * b1,
            p10 == a1 * b0,
            p11 == a1 * b1,
    ;
    assert(c3 * 0x1_0000_0000_0000 + c2 * 0x1_0000_0000 + c1 * 65536 + p00 % 65536 == a * b);
    assert(a * b <= 0xffff_fffe_0000_0001) by (nonlinear_arith)
        requires
            0 <= a <= 0xffff_ffff,
            0 <= b <= 0xffff_ffff,
    ;
    assert(c3 < 65536);
    let low: u32 = p00 & 0xffff;
    let pl: u32 = (c1 << 16) | low;
    let ph: u32 = (c3 << 16) | c2;
    assert(pl == c1 * 65536 + low) by (bit_vector)
        requires
            c1 < 65536,
            low < 65536,
            pl == (c1 << 16) | low,
    ;
    assert(ph == c3 * 65536 + c2) by (bit_vector)
        requires
            c3 < 65536,
            c2 < 65536,
            ph == (c3 << 16) | c2,
    ;
    (ph, pl)
}

/// The signed product, from the unsigned product of the two bit patterns.
proof fn lemma_signed_product(value: int, multiplier: int, a: int, b: int)
    requires
        -0x8000_0000 <= value < 0x8000_0000,
        -0x8000_0000 <= multiplier < 0x8000_0000,
        a == if value < 0 { value + 0x1_0000_0000 } else { value },
        b == if multiplier < 0 { multiplier + 0x1_0000_0000 } else { multiplier },
    ensures
        -0x4000_0000_0000_0000 <= value * multiplier <= 0x4000_0000_0000_0000,
        value * multiplier == a * b - (if value < 0 { b } else { 0int }) * 0x1_0000_0000 - (if multiplier
            < 0 { a } else { 0int }) * 0x1_0000_0000 + (if value < 0 && multiplier < 0 {
            0x1_0000_0000_0000_0000int
        } else {
            0
        }),
{
    assert(-0x4000_0000_0000_0000 <= value * multiplier <= 0x4000_0000_0000_0000)
        by (nonlinear_arith)
        requires
            -0x8000_0000 <= value < 0x8000_0000,
            -0x8000_0000 <= multiplier < 0x8000_0000,
    ;
    let x: int = if value < 0 { 0x1_0000_0000 } else { 0 };
    let y: int = if multiplier < 0 { 0x1_0000_0000 } else { 0 };
    assert(value * multiplier == a * b - x * b - y * a + x * y) by (nonlinear_arith)
        requires
            value == a - x,
            multiplier == b - y,
    ;
}

/// Scales `value` by the real factor `multiplier / 2^31 * 2^shift`, rounds once
/// with halves going up, and saturates to `i32`.
///
/// All arithmetic is on 32-bit words: the 64-bit product is built from 16-bit
/// limbs, and rounding, shift and saturation work on its two halves.
pub fn multiply_by_quantized_multiplier(value: i32, multiplier: i32, shift: i32) -> (r: i32)
    requires
        -31 <= shift <= 30,
    ensures
        r == clamp_int(
            scaled(value as int, multiplier as int, shift as int),
            i32::MIN as int,
            i32::MAX as int,
        ),
{
    let total_shift: u32 = (31 - shift) as u32;
    let a: u32 = value as u32;
    let b: u32 = multiplier as u32;
    let (mut ph, mut pl): (u32, u32) = wide_product(a, b);
    if value < 0 {
        ph = ph.wrapping_sub(b);
    }
    if multiplier < 0 {
        ph = ph.wrapping_sub(a);
    }
    let ghost p: int = value * multiplier;
    proof {
        assert(a == if value < 0 { value + 0x1_0000_0000 } else { value as int }) by (bit_vector)
            requires
                a == value as u32,
        ;
        assert(b == if multiplier < 0 { multiplier + 0x1_0000_0000 } else { multiplier as int })
            by (bit_vector)
            requires
                b == multiplier as u32,
        ;
        lemma_signed_product(value as int, multiplier as int, a as int, b as int);
        assert(ph * 0x1_0000_0000 + pl == if p < 0 { p + 0x1_0000_0000_0000_0000 } else { p });
    }
    let t: u32 = total_shift - 1;
    if t < 32 {
        let low: u32 = pl.wrapping_add(1u32 << t);
        let carry: u32 = if low < pl { 1 } else { 0 };
        pl = low;
        ph = ph.wrapping_add(carry);
        assert((1u32 << t) == (1i64 << t) && (1u32 << t) >= 1) by (bit_vector)
            requires
                t < 32,
        ;
    } else {
        let k: u32 = t - 32;
        ph = ph.wrapping_add(1u32 << k);
        assert((1u32 << k) * 0x1_0000_0000 == (1i64 << t)) by (bit_vector)
            requires
                32 <= t < 62,
                k == t - 32,
        ;
    }
    let ghost s: i64 = (p + (1i64 << t)) as i64;
    proof {
        assert(0 < (1i64 << t) <= 0x2000_0000_0000_0000) by (bit_vector)
            requires
                t < 62,
        ;
        assert(s == p + (1i64 << t));
        assert(ph * 0x1_0000_0000 + pl == if s < 0 { s + 0x1_0000_0000_0000_0000 } else { s as int });
        lemma_bit_is_pow2(t);
        lemma_shr_is_floor(s, total_shift);
        assert((s >> total_shift) == scaled(value as int, multiplier as int, shift as int));
    }
    if total_shift >= 32 {
        let k: u32 = total_shift - 32;
        assert(((ph as i32) >> k) == (s >> total_shift)) by (bit_vector)
            requires
                32 <= total_shift <= 62,
                k == total_shift - 32,
                ph * 0x1_0000_0000 + pl == if s < 0 { s + 0x1_0000_0000_0000_0000 } else { s as int },
        ;
        return (ph as i32) >> k;
    }
    let k: u32 = 32 - total_shift;
    let word: u32 = (ph << k) | (pl >> total_shift);
    if ph >> 31 == 0 {
        if ph >= (1u32 << t) {
            assert((s >> total_shift) > 0x7fff_ffff) by (bit_vector)
                requires
                    1 <= total_shift <= 31,
                    t == total_shift - 1,
                    ph >> 31 == 0,
                    ph >= (1u32 << t),
                    ph * 0x1_0000_0000 + pl == if s < 0 { s + 0x1_0000_0000_0000_0000 } else { s as int },
            ;
            i32::MAX
        } else {
            assert((word as i32) == (s >> total_shift)) by (bit_vector)
                requires
                    1 <= total_shift <= 31,
                    t == total_shift - 1,
                    ph >> 31 == 0,
                    ph < (1u32 << t),
                    k == 32 - total_shift,
                    word == (ph << k) | (pl >> total_shift),
                    ph * 0x1_0000_0000 + pl == if s < 0 { s + 0x1_0000_0000_0000_0000 } else { s as int },
            ;
            word as i32
        }
    } else {
        assert(0 < (1i32 << t)) by (bit_vector)
            requires
                t <= 30,
        ;
        if (ph as i32) < -(1i32 << t) {
            assert((s >> total_shift) < -0x8000_0000) by (bit_vector)
                requires
                    1 <= total_shift <= 31,
                    t == total_shift - 1,
                    ph >> 31 != 0,
                    (ph as i32) < -(1i32 << t),
                    ph * 0x1_0000_0000 + pl == if s < 0 { s + 0x1_0000_0000_0000_0000 } else { s as int },
            ;
            i32::MIN
        } else {
            assert((word as i32) == (s >> total_shift)) by (bit_vector)
                requires
                    1 <= total_shift <= 31,
                    t == total_shift - 1,
                    ph >> 31 != 0,
                    (ph as i32) >= -(1i32 << t),
                    k == 32 - total_shift,
                    word == (ph << k) | (pl >> total_shift),
                    ph * 0x1_0000_0000 + pl == if s < 0 { s + 0x1_0000_0000_0000_0000 } else { s as int },
            ;
            word as i32
        }
    }
}

/// The integer nearest to `x / d`, with halves rounded away from zero.
pub open spec fn nearest_quotient(x: int, d: int) -> int {
    if x >= 0 {
        (2 * x + d) / (2 * d)
    } else {
        -((d - 2 * x) / (2 * d))
    }
}

/// The low bits of a word are its remainder.
proof fn lemma_low_bits_are_remainder(x: i32, mask: i32, e: u32)
    requires
        1 <= e <= 31,
        mask == pow2(e as nat) - 1,
    ensures
        (x & mask) == x as int % (pow2(e as nat) as int),
{
    let d = pow2(e as nat) as int;
    let c = pow2((32 - e) as nat) as int;
    let u = x as u32;
    lemma2_to64();
    lemma_pow2_pos(e as nat);
    assert(u == if x < 0 { x + 0x1_0000_0000 } else { x as int }) by (bit_vector)
        requires
            u == x as u32,
    ;
    assert(mask >= 0 ==> (x & mask) == (u & (mask as u32))) by (bit_vector)
        requires
            u == x as u32,
    ;
    vstd::bits::lemma_u32_low_bits_mask_is_mod(u, e as nat);
    lemma_pow2_adds(e as nat, (32 - e) as nat);
    lemma_mod_multiples_vanish(c, x as int, d);
}

/// Rounding the quotient by its remainder gives the nearest quotient.
proof fn lemma_round_by_remainder(x: int, d: int)
    requires
        d > 0,
        d % 2 == 0,
    ensures
        nearest_quotient(x, d) == x / d + (if x % d > d / 2 - 1 + (if x < 0 { 1int } else { 0 }) {
            1int
        } else {
            0
        }),
{
    let q = x / d;
    let r = x % d;
    lemma_fundamental_div_mod(x, d);
    let up: int = if r > d / 2 - 1 + (if x < 0 { 1int } else { 0 }) {
        1
    } else {
        0
    };
    if x >= 0 {
        assert(2 * x + d == (2 * d) * (q + up) + (2 * r + d - 2 * d * up)) by (nonlinear_arith)
            requires
                x == d * q + r,
        ;
        lemma_fundamental_div_mod_converse(2 * x + d, 2 * d, q + up, 2 * r + d - 2 * d * up);
    } else {
        assert(d - 2 * x == (2 * d) * (-q - up) + (d - 2 * r + 2 * d * up)) by (nonlinear_arith)
            requires
                x == d * q + r,
        ;
        lemma_fundamental_div_mod_converse(d - 2 * x, 2 * d, -q - up, d - 2 * r + 2 * d * up);
    }
}

/// The integer nearest to `x / 2^exponent`, with halves rounded away from zero.
pub fn rounding_divide_by_pot(x: i32, exponent: i32) -> (r: i32)
    requires
        0 <= exponent <= 31,
    ensures
        r == nearest_quotient(x as int, pow2(exponent as nat) as int),
{
    if exponent == 0 {
        proof {
            lemma2_to64();
            assert(pow2(exponent as nat) == 1);
            assert((2 * x + 1) / 2 == x && (1 - 2 * x) / 2 == -x);
        }
        return x;
    }
    let e: u32 = exponent as u32;
    let mask: i32 = (1i32 << e).wrapping_sub(1);
    let remainder: i32 = x & mask;
    proof {
        let d = pow2(e as nat) as int;
        assert((1i32 << e) == if e == 31 { -0x8000_0000 } else { (1i64 << e) as int }) by (bit_vector)
            requires
                1 <= e <= 31,
        ;
        assert((x >> e) == ((x as i64) >> e)) by (bit_vector)
            requires
                1 <= e <= 31,
        ;
        assert((mask >> 1) == mask / 2) by (bit_vector);
        lemma_bit_is_pow2(e);
        lemma2_to64();
        lemma_pow2_unfold(e as nat);
        lemma_shr_is_floor(x as i64, e);
        lemma_low_bits_are_remainder(x, mask, e);
        lemma_round_by_remainder(x as int, d);
        lemma_pow2_strictly_increases(0, e as nat);
        assert(-0x4000_0000 <= x as int / d <= 0x3fff_ffff) by (nonlinear_arith)
            requires
                d >= 2,
                -0x8000_0000 <= x <= 0x7fff_ffff,
        ;
    }
    let threshold: i32 = (mask >> 1) + (if x < 0 { 1 } else { 0 });
    (x >> e) + (if remainder > threshold { 1 } else { 0 })
}

/// Brings `value` into the range of `i8`.
pub fn saturating_cast(value: i32) -> (r: i8)
    ensures
        r == clamp_int(value as int, -128, 127),
{
    if value > 127 {
        127
    } else if value < -128 {
        -128
    } else {
        value as i8
    }
}

/// What [`requantize`] computes: the accumulator scaled by its channel's pair
/// and saturated, or only saturated where there is no such channel.
pub open spec fn requantized(
    acc: int,
    multipliers: Seq<i32>,
    shifts: Seq<i32>,
    channel: int,
) -> int {
    if channel < multipliers.len() && channel < shifts.len() {
        clamp_int(
            clamp_int(
                scaled(acc, multipliers[channel] as int, shifts[channel] as int),
                i32::MIN as int,
                i32::MAX as int,
            ),
            -128,
            127,
        )
    } else {
        clamp_int(acc, -128, 127)
    }
}

/// Scales an accumulator by the pair of its output channel and saturates it to
/// `i8`. Zero point and activation range are the caller's.
pub fn requantize(acc: i32, params: &PerChannelQuantParam, output_channel: usize) -> (r: i8)
    requires
        output_channel < params.output_multiplier_per_channel@.len() && output_channel
            < params.output_shift_per_channel@.len() ==> -31
            <= params.output_shift_per_channel@[output_channel as int] <= 30,
    ensures
        r == requantized(
            acc as int,
            params.output_multiplier_per_channel@,
            params.output_shift_per_channel@,
            output_channel as int,
        ),
{
    if output_channel >= params.output_multiplier_per_channel.len() || output_channel
        >= params.output_shift_per_channel.len() {
        return saturating_cast(acc);
    }
    let multiplier: i32 = params.output_multiplier_per_channel[output_channel];
    let shift: i32 = params.output_shift_per_channel[output_channel];
    saturating_cast(multiply_by_quantized_multiplier(acc, multiplier, shift))
}

/// The pair of a scale that is given by its binary64 pattern.
///
/// The significand, in `[0.5, 1)`, is rounded to a Q0.31 multiplier; one that
/// rounds up to 1 becomes a half with the next exponent. A scale of zero, and
/// one below the range of the shift, has the pair `(0, 0)`.
pub open spec fn multiplier_pair(scale: u64) -> (int, int) {
    let negative = scale >= 0x8000_0000_0000_0000;
    let field = (scale / 0x10_0000_0000_0000) % 2048;
    let significand = 0x10_0000_0000_0000 + scale % 0x10_0000_0000_0000;
    let fixed = if negative {
        -((significand - 0x20_0000) / 0x40_0000)
    } else {
        (significand + 0x20_0000) / 0x40_0000
    };
    let carry = fixed == 0x8000_0000;
    let shift = field - 1022 + (if carry {
        1int
    } else {
        0
    });
    if scale % 0x8000_0000_0000_0000 == 0 || shift < -31 {
        (0, 0)
    } else if carry {
        (0x4000_0000, shift)
    } else {
        (fixed, shift)
    }
}

/// [`multiplier_pair`] in machine words.
pub open spec fn fixed_pair(scale: u64) -> (i32, i32) {
    (multiplier_pair(scale).0 as i32, multiplier_pair(scale).1 as i32)
}

/// Converts a scale, given by its binary64 pattern, to a multiplier and a
/// shift: the scale is `multiplier / 2^31 * 2^shift`.
pub fn quantize_multiplier(scale: u64) -> (r: (i32, i32))
    ensures
        (r.0 as int, r.1 as int) == multiplier_pair(scale),
        r == fixed_pair(scale),
{
    if scale % 0x8000_0000_0000_0000 == 0 {
        return (0, 0);
    }
    let negative: bool = scale >= 0x8000_0000_0000_0000;
    let field: u64 = (scale / 0x10_0000_0000_0000) % 2048;
    let significand: u64 = 0x10_0000_0000_0000 + scale % 0x10_0000_0000_0000;
    let mut shift: i32 = field as i32 - 1022;
    let mut fixed: i64 = if negative {
        -(((significand - 0x20_0000) / 0x40_0000) as i64)
    } else {
        ((significand + 0x20_0000) / 0x40_0000) as i64
    };
    if fixed == 0x8000_0000 {
        fixed = 0x4000_0000;
        shift = shift + 1;
    }
    if shift < -31 {
        return (0, 0);
    }
    (fixed as i32, shift)
}

/// Scaling is exact to half a unit of the result, and a value half-way between
/// two integers goes to the upper one.
pub proof fn law_scaled_is_nearest(value: int, multiplier: int, shift: int)
    requires
        shift <= 30,
    ensures
        ({
            let unit = pow2((31 - shift) as nat);
            let error = scaled(value, multiplier, shift) * unit - value * multiplier;
            -(unit as int) < 2 * error <= unit
        }),
{
    let unit = pow2((31 - shift) as nat) as int;
    let half = pow2((30 - shift) as nat) as int;
    lemma_pow2_unfold((31 - shift) as nat);
    lemma_pow2_pos((31 - shift) as nat);
    let n = value * multiplier + half;
    lemma_fundamental_div_mod(n, unit);
    assert(unit * (n / unit) == (n / unit) * unit) by (nonlinear_arith);
}

/// The pair of the factor one leaves every value as it is.
pub proof fn law_identity_pair(value: i32)
    ensures
        clamp_int(scaled(value as int, 0x4000_0000, 1), i32::MIN as int, i32::MAX as int) == value,
{
    lemma2_to64();
    assert((value * 0x4000_0000 + 0x2000_0000) / 0x4000_0000int == value);
}

/// The pair of the factor one half halves, with a half going up.
pub proof fn law_half_pair(value: i32)
    ensures
        scaled(value as int, 0x4000_0000, 0) == (value + 1) / 2,
{
    lemma2_to64();
    assert((value * 0x4000_0000 + 0x4000_0000) / 0x8000_0000int == (value + 1) / 2);
}

/// A larger value never gets a smaller result from a factor that is not
/// negative.
pub proof fn law_scaled_is_monotonic(low: int, high: int, multiplier: int, shift: int)
    requires
        low <= high,
        multiplier >= 0,
        shift <= 30,
    ensures
        scaled(low, multiplier, shift) <= scaled(high, multiplier, shift),
{
    let unit = pow2((31 - shift) as nat) as int;
    lemma_pow2_pos((31 - shift) as nat);
    assert(low * multiplier <= high * multiplier) by (nonlinear_arith)
        requires
            low <= high,
            multiplier >= 0,
    ;
    lemma_div_is_ordered(
        low * multiplier + pow2((30 - shift) as nat),
        high * multiplier + pow2((30 - shift) as nat),
        unit,
    );
}

/// Division by a power of two is exact to half a unit, and a value half-way
/// between two integers goes to the one farther from zero.
pub proof fn law_nearest_quotient_is_nearest(x: int, d: int)
    requires
        d > 0,
    ensures
        ({
            let error = nearest_quotient(x, d) * d - x;
            &&& -d <= 2 * error <= d
            &&& x > 0 ==> 2 * error != -d
            &&& x < 0 ==> 2 * error != d
        }),
{
    let n = if x >= 0 {
        2 * x + d
    } else {
        d - 2 * x
    };
    lemma_fundamental_div_mod(n, 2 * d);
    let q = n / (2 * d);
    assert((2 * d) * q == 2 * (q * d) && (-q) * d == -(q * d)) by (nonlinear_arith);
}

/// Rounding treats both signs alike.
pub proof fn law_nearest_quotient_is_odd(x: int, d: int)
    requires
        d > 0,
    ensures
        nearest_quotient(-x, d) == -nearest_quotient(x, d),
{
    assert(d / (2 * d) == 0) by (nonlinear_arith)
        requires
            d > 0,
    ;
}

/// The multiplier of a scale without a minus sign uses the whole of its range:
/// the pair is `(0, 0)`, or the multiplier is at least a half in Q0.31.
pub proof fn law_multiplier_is_normalized(scale: u64)
    requires
        scale < 0x8000_0000_0000_0000,
    ensures
        ({
            let (multiplier, shift) = multiplier_pair(scale);
            (multiplier == 0 && shift == 0) || (0x4000_0000 <= multiplier < 0x8000_0000 && shift
                >= -31)
        }),
{
}

/// A multiplier is within half a unit of the significand that it stands for.
pub proof fn law_multiplier_is_nearest(scale: u64)
    requires
        0 < scale < 0x7ff0_0000_0000_0000,
        multiplier_pair(scale).0 != 0,
    ensures
        ({
            let (multiplier, shift) = multiplier_pair(scale);
            let significand = 0x10_0000_0000_0000 + scale % 0x10_0000_0000_0000;
            let exponent = (scale / 0x10_0000_0000_0000) % 2048 - 1022;
            let units = if shift == exponent {
                multiplier
            } else {
                2 * multiplier
            };
            &&& shift == exponent || shift == exponent + 1
            &&& -0x20_0000 <= units * 0x40_0000 - significand <= 0x20_0000
        }),
{
}

/// A requantized accumulator is the byte nearest to the accumulator times the
/// factor of its channel. Without such a channel it is the accumulator itself;
/// what does not fit a byte saturates.
pub proof fn law_requantized_is_the_nearest_byte(
    acc: i32,
    multipliers: Seq<i32>,
    shifts: Seq<i32>,
    channel: int,
)
    requires
        0 <= channel,
        channel < shifts.len() ==> -31 <= shifts[channel] <= 30,
    ensures
        ({
            let r = requantized(acc as int, multipliers, shifts, channel);
            let unit = pow2((31 - shifts[channel]) as nat) as int;
            let meant = acc * multipliers[channel];
            let found = channel < multipliers.len() && channel < shifts.len();
            &&& -128 <= r <= 127
            &&& found && r > -128 ==> 2 * meant >= (2 * r - 1) * unit
            &&& found && r < 127 ==> 2 * meant < (2 * r + 1) * unit
            &&& !found && -128 <= acc <= 127 ==> r == acc
            &&& !found && acc > 127 ==> r == 127
            &&& !found && acc < -128 ==> r == -128
        }),
{
    if channel < multipliers.len() && channel < shifts.len() {
        let m = multipliers[channel] as int;
        let s = shifts[channel] as int;
        let r = requantized(acc as int, multipliers, shifts, channel);
        let x = scaled(acc as int, m, s);
        let unit = pow2((31 - s) as nat) as int;
        let meant = acc * m;
        law_scaled_is_nearest(acc as int, m, s);
        lemma_pow2_pos((31 - s) as nat);
        assert(-unit < 2 * (x * unit - meant) <= unit);
        assert((2 * x - 1) * unit <= 2 * meant < (2 * x + 1) * unit) by (nonlinear_arith)
            requires
                -unit < 2 * (x * unit - meant) <= unit,
        ;
        if r > -128 {
            assert(r <= x);
            assert((2 * r - 1) * unit <= (2 * x - 1) * unit) by (nonlinear_arith)
                requires
                    r <= x,
                    unit > 0,
            ;
        }
        if r < 127 {
            assert(x <= r);
            assert((2 * x + 1) * unit <= (2 * r + 1) * unit) by (nonlinear_arith)
                requires
                    x <= r,
                    unit > 0,
            ;
        }
    }
}

/// A scale with a minus sign has a negative multiplier, by half a unit to one and
/// a half closer to zero than the scale, and a scale that is zero has none.
pub proof fn law_negative_scales_have_negative_multipliers(scale: u64)
    requires
        0x8000_0000_0000_0000 <= scale < 0xfff0_0000_0000_0000,
    ensures
        ({
            let (multiplier, shift) = multiplier_pair(scale);
            let significand = 0x10_0000_0000_0000 + scale % 0x10_0000_0000_0000;
            let exponent = (scale / 0x10_0000_0000_0000) % 2048 - 1022;
            &&& multiplier <= 0
            &&& scale == 0x8000_0000_0000_0000 ==> multiplier == 0 && shift == 0
            &&& scale > 0x8000_0000_0000_0000 && exponent >= -31 ==> multiplier < 0
            &&& multiplier != 0 ==> shift == exponent && -0x60_0000 < -multiplier * 0x40_0000
                - significand <= -0x20_0000
        }),
        multiplier_pair(0) == (0int, 0int),
{
}

} // verus!
