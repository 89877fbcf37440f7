//! What a multiplier and a shift stand for, in real numbers.
//!
//! A scale is `mantissa * 2^exponent`. A pair `(m, s)` stands for the real
//! factor `m * 2^(s - 31)`. Both sides of a comparison are multiplied by
//! `2^2000`, so that every exponent is positive and the comparison is one of
//! integers.

use vstd::arithmetic::power2::*;
use vstd::prelude::*;

verus! {

/// The mantissa of a finite positive binary32 number.
pub open spec fn mantissa(scale: u32) -> nat {
    if scale < 0x80_0000 {
        scale as nat
    } else {
        (0x80_0000 + scale % 0x80_0000) as nat
    }
}

/// The exponent of a finite positive binary32 number.
pub open spec fn exponent(scale: u32) -> int {
    if scale < 0x80_0000 {
        -149
    } else {
        scale as int / 0x80_0000 - 150
    }
}

/// `n * 2^e`, times `2^2000`.
pub open spec fn magnified(n: int, e: int) -> int {
    n * pow2((2000 + e) as nat)
}

/// Whether a pair is the real factor `n / d * 2^e` up to a relative error of
/// `2^-30`.
pub open spec fn stands_for(pair: (i32, i32), n: nat, d: nat, e: int) -> bool {
    let held = magnified(pair.0 * d, pair.1 - 31);
    let meant = magnified(n as int, e);
    -meant <= 0x4000_0000 * (held - meant) <= meant
}

/// Whether the real number `n / d * 2^e` is at least `2^-32`, so that a shift
/// can reach it.
pub open spec fn within_reach(n: nat, d: nat, e: int) -> bool {
    magnified(n as int, e + 32) >= magnified(d as int, 0)
}

/// A factor that cancels on both sides of an inequality.
proof fn lemma_cancel(x: int, y: int, c: int)
    requires
        c > 0,
        x * c <= y * c,
    ensures
        x <= y,
{
    assert(x <= y) by (nonlinear_arith)
        requires
            c > 0,
            x * c <= y * c,
    ;
}

/// A quotient in units of its last bit but `width` has that many bits behind its
/// leading one.
proof fn lemma_quotient_has_bits(n: nat, d: nat, e: int, width: nat)
    requires
        n > 0,
        d > 0,
    ensures
        ({
            let u = crate::ieee::leading_exponent(n, d, e) - width;
            let top = crate::ieee::lifted(n, e - u);
            let bottom = crate::ieee::lifted(d, u - e);
            &&& bottom > 0
            &&& bottom * pow2(width) <= top
            &&& top < bottom * (2 * pow2(width))
        }),
{
    let a = crate::ieee::floor_log2(n);
    let b = crate::ieee::floor_log2(d);
    crate::ieee::lemma_floor_log2(n);
    crate::ieee::lemma_floor_log2(d);
    lemma2_to64();
    lemma2_to64_rest();
    let high = n * pow2(b) >= d * pow2(a);
    let c: nat = if high {
        b
    } else {
        b + 1
    };
    let lead = a - c;
    lemma_pow2_unfold(b + 1);
    lemma_pow2_pos(a);
    lemma_pow2_pos(b);
    lemma_pow2_pos(c);
    lemma_pow2_pos(width);
    assert(d * pow2(a) <= n * pow2(c) && n * pow2(c) < 2 * (d * pow2(a))) by (nonlinear_arith)
        requires
            pow2(a) <= n < 2 * pow2(a),
            pow2(b) <= d < 2 * pow2(b),
            pow2(b + 1) == 2 * pow2(b),
            pow2(a) > 0,
            pow2(b) > 0,
            high == (n * pow2(b) >= d * pow2(a)),
            c == if high {
                b
            } else {
                b + 1
            },
    ;
    let u = crate::ieee::leading_exponent(n, d, e) - width;
    assert(e - u == width - lead);
    let top = crate::ieee::lifted(n, e - u);
    let bottom = crate::ieee::lifted(d, u - e);
    if lead <= width {
        let k = (width - lead) as nat;
        assert(top == n * pow2(k)) by {
            if k == 0 {
                assert(n * 1 == n);
            }
        }
        assert(bottom == d);
        lemma_pow2_adds(k, a);
        lemma_pow2_adds(width, c);
        assert(k + a == width + c);
        let p = pow2(width) as int;
        assert((d * p) * pow2(a) <= top * pow2(a)) by (nonlinear_arith)
            requires
                top == n * pow2(k),
                pow2(k) * pow2(a) == p * pow2(c),
                d * pow2(a) <= n * pow2(c),
                p > 0,
        ;
        lemma_cancel(d * p, top as int, pow2(a) as int);
        assert(!(top >= d * (2 * p))) by (nonlinear_arith)
            requires
                top == n * pow2(k),
                pow2(k) * pow2(a) == p * pow2(c),
                n * pow2(c) < 2 * (d * pow2(a)),
                p > 0,
                pow2(a) > 0,
        ;
    } else {
        let k = (lead - width) as nat;
        assert(top == n);
        assert(bottom == d * pow2(k));
        lemma_pow2_pos(k);
        lemma_pow2_adds(k, width);
        lemma_pow2_adds((k + width) as nat, c);
        assert(k + width + c == a);
        let p = pow2(width) as int;
        assert(bottom > 0) by (nonlinear_arith)
            requires
                bottom == d * pow2(k),
                d > 0,
                pow2(k) > 0,
        ;
        assert((bottom * p) * pow2(c) == d * pow2(a)) by (nonlinear_arith)
            requires
                bottom == d * pow2(k),
                pow2(a) == pow2((k + width) as nat) * pow2(c),
                pow2((k + width) as nat) == pow2(k) * p,
        ;
        lemma_cancel(bottom * p, n as int, pow2(c) as int);
        assert(!(n >= bottom * (2 * p))) by (nonlinear_arith)
            requires
                (bottom * p) * pow2(c) == d * pow2(a),
                n * pow2(c) < 2 * (d * pow2(a)),
                pow2(c) > 0,
        ;
    }
}

/// A quotient in units of its last bit has fifty-three bits.
proof fn lemma_quotient_has_all_bits(n: nat, d: nat, e: int)
    requires
        n > 0,
        d > 0,
    ensures
        ({
            let u = crate::ieee::leading_exponent(n, d, e) - 52;
            let top = crate::ieee::lifted(n, e - u);
            let bottom = crate::ieee::lifted(d, u - e);
            &&& bottom > 0
            &&& bottom * 0x10_0000_0000_0000 <= top
            &&& top < bottom * 0x20_0000_0000_0000
        }),
{
    lemma_quotient_has_bits(n, d, e, 52);
    lemma2_to64_rest();
}

/// A pair that holds a quotient to thirty-one bits stands for it.
proof fn lemma_held_is_meant(
    n: nat,
    d: nat,
    e: int,
    u: int,
    k: nat,
    pair: (i32, i32),
    held: int,
)
    requires
        n > 0,
        d > 0,
        -900 <= e <= 900,
        -1074 <= u <= 1000,
        ({
            let top = crate::ieee::lifted(n, e - u);
            let bottom = crate::ieee::lifted(d, u - e);
            &&& bottom > 0
            &&& bottom * 0x10_0000_0000_0000 <= top
            &&& -(bottom as int) <= 2 * (k * bottom - top) <= bottom
        }),
        -0x20_0000 <= held - k <= 0x20_0000,
        (pair.1 == u + 53 && held == pair.0 * 0x40_0000) || (pair.1 == u + 54 && held == pair.0
            * 0x80_0000),
    ensures
        stands_for(pair, n, d, e),
{
    lemma2_to64();
    let top = crate::ieee::lifted(n, e - u);
    let bottom = crate::ieee::lifted(d, u - e);
    let w = pair.1 - 31 - u;
    let low = (2000 + (if e >= u {
        u
    } else {
        e
    })) as nat;
    let base = pow2(low) as int;
    lemma_pow2_pos(low);
    lemma_pow2_adds((2000 + u) as nat, w as nat);
    assert(2000 + u + w == 2000 + pair.1 - 31);
    assert(magnified(pair.0 * d, pair.1 - 31) == held * bottom * base && magnified(
        n as int,
        e,
    ) == top * base) by {
        let p0 = pair.0 as int;
        assert(p0 * pow2(w as nat) == held);
        if e >= u {
            if e > u {
                lemma_pow2_adds((2000 + u) as nat, (e - u) as nat);
                assert(n * pow2((2000 + e) as nat) == (n * pow2((e - u) as nat)) * base)
                    by (nonlinear_arith)
                    requires
                        pow2((2000 + e) as nat) == base * pow2((e - u) as nat),
                ;
            }
            assert((p0 * d) * pow2((2000 + u + w) as nat) == held * bottom * base)
                by (nonlinear_arith)
                requires
                    pow2((2000 + u + w) as nat) == base * pow2(w as nat),
                    p0 * pow2(w as nat) == held,
                    bottom == d,
            ;
        } else {
            lemma_pow2_adds((2000 + e) as nat, (u - e) as nat);
            assert((p0 * d) * pow2((2000 + u + w) as nat) == held * bottom * base)
                by (nonlinear_arith)
                requires
                    pow2((2000 + u + w) as nat) == pow2((2000 + u) as nat) * pow2(w as nat),
                    pow2((2000 + u) as nat) == base * pow2((u - e) as nat),
                    p0 * pow2(w as nat) == held,
                    bottom == d * pow2((u - e) as nat),
            ;
        }
    }
    assert(-(top as int) <= 0x4000_0000 * (held * bottom - top) <= top) by (nonlinear_arith)
        requires
            bottom > 0,
            bottom * 0x10_0000_0000_0000 <= top,
            -(bottom as int) <= 2 * (k * bottom - top) <= bottom,
            -0x20_0000 <= held - k <= 0x20_0000,
    ;
    assert(-(top * base) <= 0x4000_0000 * (held * bottom * base - top * base) <= top * base)
        by (nonlinear_arith)
        requires
            -(top as int) <= 0x4000_0000 * (held * bottom - top) <= top,
            base > 0,
    ;
}

/// A quotient below `2^(u + 53)` is out of reach where that is below `2^-31`.
proof fn lemma_out_of_reach(n: nat, d: nat, e: int, u: int)
    requires
        n > 0,
        d > 0,
        -900 <= e <= 900,
        -1074 <= u,
        u + 53 < -31,
        crate::ieee::lifted(n, e - u) < crate::ieee::lifted(d, u - e) * 0x20_0000_0000_0000,
    ensures
        !within_reach(n, d, e),
{
    lemma2_to64();
    lemma2_to64_rest();
    let top = crate::ieee::lifted(n, e - u);
    let bottom = crate::ieee::lifted(d, u - e);
    let reach = (2000 + e + 32) as nat;
    if e > u {
        lemma_pow2_adds((2000 + u + 32) as nat, (e - u) as nat);
        lemma_pow2_adds((2000 + u + 32) as nat, 53);
        if 2000 + u + 85 < 2000 {
            lemma_pow2_strictly_increases((2000 + u + 85) as nat, 2000);
        }
        let c = pow2((2000 + u + 32) as nat) as int;
        lemma_pow2_pos((2000 + u + 32) as nat);
        assert(n * pow2(reach) == top * c) by (nonlinear_arith)
            requires
                pow2(reach) == c * pow2((e - u) as nat),
                top == n * pow2((e - u) as nat),
        ;
        assert(top * c < (bottom * 0x20_0000_0000_0000) * c) by (nonlinear_arith)
            requires
                top < bottom * 0x20_0000_0000_0000,
                c > 0,
        ;
        assert((bottom * 0x20_0000_0000_0000) * c <= d * pow2(2000)) by (nonlinear_arith)
            requires
                bottom == d,
                c * 0x20_0000_0000_0000 <= pow2(2000),
                d > 0,
        ;
    } else {
        lemma_pow2_adds(reach, (u - e) as nat);
        lemma_pow2_adds((2000 + u + 32) as nat, 53);
        if 2000 + u + 85 < 2000 {
            lemma_pow2_strictly_increases((2000 + u + 85) as nat, 2000);
        }
        let c = pow2(reach) as int;
        lemma_pow2_pos(reach);
        let r = pow2((u - e) as nat) as int;
        assert(bottom == d * r) by {
            if u == e {
                assert(d * 1 == d);
            }
        }
        assert(n * c < d * pow2(2000)) by (nonlinear_arith)
            requires
                n < bottom * 0x20_0000_0000_0000,
                bottom == d * r,
                (c * r) * 0x20_0000_0000_0000 <= pow2(2000),
                c > 0,
                d > 0,
        ;
    }
}

/// The pair of a rounded quotient is that quotient, and it is zero only where
/// the quotient is too small for a shift.
proof fn lemma_pair_of_quotient(n: nat, d: nat, e: int)
    requires
        0 < n < 0x8000_0000_0000_0000,
        0 < d < 0x8000_0000_0000_0000,
        -900 <= e <= 900,
    ensures
        ({
            let bits = crate::ieee::magnitude_bits(n, d, e, 53, -1074, 0x7ff0_0000_0000_0000);
            let pair = crate::int8::fixed_pair(bits as u64);
            &&& 0 < bits < 0x7ff0_0000_0000_0000
            &&& pair.0 != 0 ==> stands_for(pair, n, d, e)
            &&& within_reach(n, d, e) ==> pair.0 >= 0x4000_0000
        }),
{
    let a = crate::ieee::floor_log2(n);
    let b = crate::ieee::floor_log2(d);
    crate::ieee::lemma_floor_log2(n);
    crate::ieee::lemma_floor_log2(d);
    lemma2_to64();
    lemma2_to64_rest();
    if a >= 63 {
        if a > 63 {
            lemma_pow2_strictly_increases(63, a);
        }
    }
    if b >= 63 {
        if b > 63 {
            lemma_pow2_strictly_increases(63, b);
        }
    }
    let lead = crate::ieee::leading_exponent(n, d, e);
    let u = lead - 52;
    assert(crate::ieee::unit_exponent(n, d, e, 53, -1074) == u);
    let top = crate::ieee::lifted(n, e - u);
    let bottom = crate::ieee::lifted(d, u - e);
    lemma_quotient_has_all_bits(n, d, e);
    let k = crate::ieee::half_even(top, bottom);
    crate::ieee::law_half_even_is_nearest(top, bottom);
    assert(0x10_0000_0000_0000 <= k <= 0x20_0000_0000_0000) by (nonlinear_arith)
        requires
            bottom > 0,
            bottom * 0x10_0000_0000_0000 <= top,
            top < bottom * 0x20_0000_0000_0000,
            -(bottom as int) <= 2 * (k * bottom - top) <= bottom,
    ;
    let bits = crate::ieee::magnitude_bits(n, d, e, 53, -1074, 0x7ff0_0000_0000_0000);
    assert((u + 1074) * pow2(52) == (u + 1074) * 0x10_0000_0000_0000);
    assert(bits == (u + 1074) * 0x10_0000_0000_0000 + k);
    let scale = bits as u64;
    let pair = crate::int8::fixed_pair(scale);
    let field = (scale / 0x10_0000_0000_0000) % 2048;
    let significand = 0x10_0000_0000_0000 + scale % 0x10_0000_0000_0000;
    if k < 0x20_0000_0000_0000 {
        assert(field == u + 1075 && significand == k);
    } else {
        assert(field == u + 1076 && significand == 0x10_0000_0000_0000);
    }
    let fixed = (significand + 0x20_0000) / 0x40_0000;
    assert(0x4000_0000 <= fixed <= 0x8000_0000);
    let w = pair.1 - 31 - u;
    if pair.0 != 0 {
        assert(w == 22 || w == 23);
        let held = if w == 22 {
            pair.0 * 0x40_0000
        } else {
            pair.0 * 0x80_0000
        };
        assert(-0x20_0000 <= held - k <= 0x20_0000);
        lemma_held_is_meant(n, d, e, u, k, pair, held);
    }
    if u + 53 < -31 {
        lemma_out_of_reach(n, d, e, u);
    }
}

/// What a valid scale denotes.
pub proof fn lemma_valid_scale(scale: u32)
    requires
        crate::ieee::is_valid_scale(scale),
    ensures
        crate::ieee::denoted32(scale) == (crate::ieee::Number::Finite {
            negative: false,
            mantissa: mantissa(scale) as u64,
            exponent: exponent(scale) as i32,
        }),
        0 < mantissa(scale) < 0x100_0000,
        -149 <= exponent(scale) <= 104,
{
}

/// The pair of `input / output` is the real quotient of the two scales, to
/// thirty bits.
pub proof fn law_ratio_is_the_quotient(input: u32, output: u32)
    requires
        crate::ieee::is_valid_scale(input),
        crate::ieee::is_valid_scale(output),
    ensures
        ({
            let pair = crate::requant::ratio(input, output);
            let e = exponent(input) - exponent(output);
            &&& pair.0 != 0 ==> stands_for(pair, mantissa(input), mantissa(output), e)
            &&& within_reach(mantissa(input), mantissa(output), e) ==> pair.0 >= 0x4000_0000
        }),
{
    lemma_valid_scale(input);
    lemma_valid_scale(output);
    lemma_pair_of_quotient(
        mantissa(input),
        mantissa(output),
        exponent(input) - exponent(output),
    );
}

/// The pair of `first * second / output` is the real quotient of the product,
/// to thirty bits.
pub proof fn law_product_ratio_is_the_quotient(first: u32, second: u32, output: u32)
    requires
        crate::ieee::is_valid_scale(first),
        crate::ieee::is_valid_scale(second),
        crate::ieee::is_valid_scale(output),
    ensures
        ({
            let pair = crate::requant::product_ratio(first, second, output);
            let n = mantissa(first) * mantissa(second);
            let e = exponent(first) + exponent(second) - exponent(output);
            &&& pair.0 != 0 ==> stands_for(pair, n, mantissa(output), e)
            &&& within_reach(n, mantissa(output), e) ==> pair.0 >= 0x4000_0000
        }),
{
    lemma_valid_scale(first);
    lemma_valid_scale(second);
    lemma_valid_scale(output);
    let n = mantissa(first) * mantissa(second);
    assert(0 < n < 0x1_0000_0000_0000) by (nonlinear_arith)
        requires
            n == mantissa(first) * mantissa(second),
            0 < mantissa(first) < 0x100_0000,
            0 < mantissa(second) < 0x100_0000,
    ;
    lemma_pair_of_quotient(
        n,
        mantissa(output),
        exponent(first) + exponent(second) - exponent(output),
    );
}

/// The larger of two scales.
pub open spec fn maximum(first: u32, second: u32) -> u32 {
    if first >= second {
        first
    } else {
        second
    }
}

/// An addition scales each input by its scale over twice the larger one, and
/// its sum by twice the larger one over `2^20` times the output scale; all to
/// thirty bits.
pub proof fn law_addition_pairs_are_the_quotients(first: u32, second: u32, output: u32)
    requires
        crate::ieee::is_valid_scale(first),
        crate::ieee::is_valid_scale(second),
        crate::ieee::is_valid_scale(output),
    ensures
        ({
            let m = maximum(first, second);
            let a = crate::requant::add_input(first, first, second);
            let b = crate::requant::add_input(second, first, second);
            let c = crate::requant::add_output(first, second, output);
            let e = exponent(m) + 1 - 20 - exponent(output);
            &&& a.0 != 0 ==> stands_for(
                a,
                mantissa(first),
                mantissa(m),
                exponent(first) - exponent(m) - 1,
            )
            &&& b.0 != 0 ==> stands_for(
                b,
                mantissa(second),
                mantissa(m),
                exponent(second) - exponent(m) - 1,
            )
            &&& c.0 != 0 ==> stands_for(c, mantissa(m), mantissa(output), e)
            &&& within_reach(
                mantissa(first),
                mantissa(m),
                exponent(first) - exponent(m) - 1,
            ) ==> a.0 >= 0x4000_0000
            &&& within_reach(
                mantissa(second),
                mantissa(m),
                exponent(second) - exponent(m) - 1,
            ) ==> b.0 >= 0x4000_0000
            &&& within_reach(mantissa(m), mantissa(output), e) ==> c.0 >= 0x4000_0000
        }),
{
    let m = maximum(first, second);
    lemma_valid_scale(first);
    lemma_valid_scale(second);
    lemma_valid_scale(output);
    lemma_valid_scale(m);
    assert(crate::ieee::larger(first, second) == m);
    assert(1 * mantissa(m) == mantissa(m));
    assert(1 * mantissa(output) == mantissa(output));
    lemma_pair_of_quotient(
        mantissa(first),
        mantissa(m),
        exponent(first) - exponent(m) - 1,
    );
    lemma_pair_of_quotient(
        mantissa(second),
        mantissa(m),
        exponent(second) - exponent(m) - 1,
    );
    lemma_pair_of_quotient(
        mantissa(m),
        mantissa(output),
        exponent(m) + 1 - 20 - exponent(output),
    );
}

/// A pair and its meaning determine each other: a real factor that is larger by
/// a fifth or more has another pair.
pub proof fn law_pairs_tell_factors_apart(pair: (i32, i32), n: nat, d: nat, e: int, m: nat, f: int)
    requires
        d > 0,
        stands_for(pair, n, d, e),
        5 * magnified(m as int, f) >= 6 * magnified(n as int, e) > 0,
    ensures
        !stands_for(pair, m, d, f),
{
}

/// Whether a count of steps of a scale is the real number six: it is off by at
/// most half a step, up to one part in `2^29`.
pub open spec fn is_six(steps: int, scale: u32) -> bool {
    let step = magnified(mantissa(scale) as int, exponent(scale));
    let six = magnified(6, 0);
    -0x2000_0001 * step <= 0x2000_0000 * (2 * (steps * step - six)) <= 0x2000_0001 * step
}

/// Whether a scale is not so small that the number six is more than `2^21` of
/// its steps.
pub open spec fn counts_to_six(scale: u32) -> bool {
    magnified(6, 0) <= magnified(mantissa(scale) as int, exponent(scale) + 21)
}

/// A quotient of at most `2^21` has a last bit of at most `2^-31`.
proof fn lemma_small_quotient(d: nat, e: int, u: int)
    requires
        0 < d,
        -900 <= e <= 900,
        -1074 <= u <= 1000,
        crate::ieee::lifted(d, u - e) * 0x10_0000_0000_0000 <= crate::ieee::lifted(6, e - u),
        magnified(6, 0) <= magnified(d as int, 21 - e),
    ensures
        u <= -31,
{
    lemma2_to64();
    lemma2_to64_rest();
    if u > -31 {
        if e > u {
            // 6 * 2^(e - u) >= d * 2^52, and d * 2^21 >= 6 * 2^e.
            lemma_pow2_adds((2000 + 21 - e) as nat, (e - u) as nat);
            lemma_pow2_adds((2000 + 21 - u) as nat, (u + 31) as nat);
            lemma_pow2_adds(2000, 52);
            lemma_pow2_pos((2000 + 21 - e) as nat);
            lemma_pow2_pos((2000 + 21 - u) as nat);
            lemma_pow2_pos((e - u) as nat);
            let a = pow2((2000 + 21 - e) as nat) as int;
            let b = pow2((e - u) as nat) as int;
            let z = pow2(2000) as int;
            lemma_pow2_strictly_increases(0, (u + 31) as nat);
            assert(d * a >= 6 * z);
            assert(6 * b >= d * 0x10_0000_0000_0000);
            assert(a * b * pow2((u + 31) as nat) == z * 0x10_0000_0000_0000);
            assert(false) by (nonlinear_arith)
                requires
                    d * a >= 6 * z,
                    6 * b >= d * 0x10_0000_0000_0000,
                    a * b * pow2((u + 31) as nat) == z * 0x10_0000_0000_0000,
                    pow2((u + 31) as nat) >= 2,
                    a > 0,
                    b > 0,
                    d > 0,
            ;
        } else {
            // 6 >= d * 2^(u - e) * 2^52.
            let c = pow2((u - e) as nat) as int;
            lemma_pow2_pos((u - e) as nat);
            assert(crate::ieee::lifted(d, u - e) >= 1) by {
                if u > e {
                    assert(d * c >= 1) by (nonlinear_arith)
                        requires
                            d >= 1,
                            c >= 1,
                    ;
                }
            }
        }
    }
}

/// The number six, counted in steps of a scale, is the nearest integer.
#[verifier::spinoff_prover]
pub proof fn law_six_is_nearest(scale: u32)
    requires
        crate::ieee::is_valid_scale(scale),
        counts_to_six(scale),
    ensures
        is_six(crate::requant::six(scale), scale),
        0 <= crate::requant::six(scale) <= 0x40_0000,
{
    let d = mantissa(scale);
    let e = -exponent(scale);
    lemma_valid_scale(scale);
    lemma2_to64();
    lemma2_to64_rest();
    crate::ieee::lemma_floor_log2(6);
    crate::ieee::lemma_floor_log2(d);
    let a = crate::ieee::floor_log2(6);
    let b = crate::ieee::floor_log2(d);
    if a > 2 {
        lemma_pow2_strictly_increases(2, a);
        lemma_pow2_unfold(3);
        if a > 3 {
            lemma_pow2_strictly_increases(3, a);
        }
    }
    if b >= 24 {
        if b > 24 {
            lemma_pow2_strictly_increases(24, b);
        }
    }
    let u = crate::ieee::leading_exponent(6, d, e) - 52;
    assert(crate::ieee::unit_exponent(6, d, e, 53, -1074) == u);
    let top = crate::ieee::lifted(6, e - u);
    let bottom = crate::ieee::lifted(d, u - e);
    lemma_quotient_has_all_bits(6, d, e);
    lemma_small_quotient(d, e, u);
    let k = crate::ieee::half_even(top, bottom);
    crate::ieee::law_half_even_is_nearest(top, bottom);
    assert(0x10_0000_0000_0000 <= k <= 0x20_0000_0000_0000) by (nonlinear_arith)
        requires
            bottom > 0,
            bottom * 0x10_0000_0000_0000 <= top,
            top < bottom * 0x20_0000_0000_0000,
            -(bottom as int) <= 2 * (k * bottom - top) <= bottom,
    ;
    let bits = crate::ieee::magnitude_bits(6, d, e, 53, -1074, 0x7ff0_0000_0000_0000);
    assert((u + 1074) * pow2(52) == (u + 1074) * 0x10_0000_0000_0000);
    assert(bits == (u + 1074) * 0x10_0000_0000_0000 + k);
    let x = crate::ieee::denoted64(bits as u64);
    let r = crate::requant::six(scale);
    let p = pow2(-u as nat) as int;
    lemma_pow2_pos(-u as nat);
    assert(r == crate::ieee::rounded_away(x));
    assert(-p <= 2 * (r * p - k) <= p && r >= 0) by {
        if k < 0x20_0000_0000_0000 {
            assert(x == (crate::ieee::Number::Finite {
                negative: false,
                mantissa: k as u64,
                exponent: u as i32,
            }));
            crate::int8::law_nearest_quotient_is_nearest(k as int, p);
            lemma_not_negative(k as int, p);
        } else {
            assert(x == (crate::ieee::Number::Finite {
                negative: false,
                mantissa: 0x10_0000_0000_0000u64,
                exponent: (u + 1) as i32,
            }));
            let q = pow2((-u - 1) as nat) as int;
            lemma_pow2_unfold(-u as nat);
            lemma_pow2_pos((-u - 1) as nat);
            crate::int8::law_nearest_quotient_is_nearest(0x10_0000_0000_0000, q);
            lemma_not_negative(0x10_0000_0000_0000, q);
            assert(r * p == 2 * (r * q)) by (nonlinear_arith)
                requires
                    p == 2 * q,
            ;
        }
    }
    if -u > 31 {
        lemma_pow2_strictly_increases(31, -u as nat);
    }
    assert(p >= 0x8000_0000);
    lemma_six_steps(d, e, u, k, r, p);
    assert(r <= 0x40_0000) by (nonlinear_arith)
        requires
            2 * (r * p - k) <= p,
            k <= 0x20_0000_0000_0000,
            p >= 0x8000_0000,
    ;
}

/// A nearest integer quotient of positive numbers is not negative.
proof fn lemma_not_negative(x: int, d: int)
    requires
        x > 0,
        d > 0,
    ensures
        crate::int8::nearest_quotient(x, d) >= 0,
{
    crate::int8::law_nearest_quotient_is_nearest(x, d);
    let r = crate::int8::nearest_quotient(x, d);
    assert(r >= 0) by (nonlinear_arith)
        requires
            -d <= 2 * (r * d - x),
            x > 0,
            d > 0,
    ;
}

/// Two roundings, one of them to far more bits, are nearly one.
proof fn lemma_six_steps(d: nat, e: int, u: int, k: nat, r: int, p: int)
    requires
        0 < d,
        -900 <= e <= 900,
        -1074 <= u <= -31,
        p == pow2(-u as nat),
        p >= 0x8000_0000,
        -p <= 2 * (r * p - k) <= p,
        ({
            let top = crate::ieee::lifted(6, e - u);
            let bottom = crate::ieee::lifted(d, u - e);
            &&& bottom > 0
            &&& -(bottom as int) <= 2 * (k * bottom - top) <= bottom
        }),
    ensures
        ({
            let step = magnified(d as int, -e);
            let six = magnified(6, 0);
            -0x2000_0001 * step <= 0x2000_0000 * (2 * (r * step - six)) <= 0x2000_0001 * step
        }),
{
    let top = crate::ieee::lifted(6, e - u) as int;
    let bottom = crate::ieee::lifted(d, u - e) as int;
    let whole = p * bottom;
    assert(-(whole + bottom) <= 2 * (r * whole - top) <= whole + bottom && 0x8000_0000 * bottom
        <= whole) by (nonlinear_arith)
        requires
            whole == p * bottom,
            p >= 0x8000_0000,
            bottom > 0,
            -p <= 2 * (r * p - k) <= p,
            -bottom <= 2 * (k * bottom - top) <= bottom,
    ;
    assert(-0x2000_0001 * whole <= 0x2000_0000 * (2 * (r * whole - top)) <= 0x2000_0001 * whole);
    let f: nat = if e > u {
        (2000 - e + u) as nat
    } else {
        2000
    };
    let base = pow2(f) as int;
    lemma_pow2_pos(f);
    lemma2_to64();
    assert(magnified(d as int, -e) == whole * base && magnified(6, 0) == top * base) by {
        if e > u {
            lemma_pow2_adds(f, -u as nat);
            lemma_pow2_adds(f, (e - u) as nat);
            assert(d * pow2((2000 - e) as nat) == (p * bottom) * base) by (nonlinear_arith)
                requires
                    pow2((2000 - e) as nat) == base * p,
                    bottom == d,
            ;
            assert(6 * pow2(2000) == top * base) by (nonlinear_arith)
                requires
                    pow2(2000) == base * pow2((e - u) as nat),
                    top == 6 * pow2((e - u) as nat),
            ;
        } else {
            lemma_pow2_adds(2000, -e as nat);
            lemma_pow2_adds(-u as nat, (u - e) as nat);
            let c = pow2((u - e) as nat) as int;
            assert(bottom == d * c) by {
                if u == e {
                    assert(d * 1 == d);
                }
            }
            assert(d * pow2((2000 - e) as nat) == (p * bottom) * base) by (nonlinear_arith)
                requires
                    pow2((2000 - e) as nat) == base * pow2(-e as nat),
                    pow2(-e as nat) == p * c,
                    bottom == d * c,
            ;
        }
    }
    assert(-0x2000_0001 * (whole * base) <= 0x2000_0000 * (2 * (r * (whole * base) - top * base))
        <= 0x2000_0001 * (whole * base)) by (nonlinear_arith)
        requires
            -0x2000_0001 * whole <= 0x2000_0000 * (2 * (r * whole - top)) <= 0x2000_0001 * whole,
            base > 0,
    ;
}

/// Whether a range is that of an activation on values with the given scale and
/// zero point: ReLU (code 1) and ReLU6 (code 3) let nothing below zero pass,
/// ReLU6 nothing above six, and all others everything.
pub open spec fn clamps(act: i8, scale: u32, zero_point: int, low: int, high: int) -> bool {
    &&& act == 1 || act == 3 ==> low == if zero_point > -128 {
        zero_point
    } else {
        -128
    }
    &&& act == 1 ==> high == 127
    &&& act == 3 ==> high <= 127 && exists|steps: int| #[trigger]
        is_six(steps, scale) && high == if zero_point + steps < 127 {
            zero_point + steps
        } else {
            127
        }
    &&& act != 1 && act != 3 ==> low == -128 && high == 127
}

/// Whether the range of an activation can be told in real numbers: that of ReLU6
/// where zero is a byte and six is not millions of steps away.
pub open spec fn measurable(act: i8, scale: u32, zero_point: int) -> bool {
    act == 3 ==> counts_to_six(scale) && -128 <= zero_point <= 127
}

/// The range of a fused activation is the range of the real function, in the
/// quantized values of the output.
pub proof fn law_bounds_are_those_of_the_activation(act: i8, scale: u32, zero_point: i32)
    requires
        crate::ieee::is_valid_scale(scale),
        measurable(act, scale, zero_point as int),
    ensures
        ({
            let (low, high) = crate::requant::bounds(act, scale, zero_point);
            clamps(act, scale, zero_point as int, low as int, high as int)
        }),
{
    if act == 3 {
        law_six_is_nearest(scale);
        let steps = crate::requant::six(scale);
        assert(is_six(steps, scale));
    }
}

/// The same of an activation that is absorbed into a group.
pub proof fn law_clamp_range_is_that_of_the_activation(
    kind: crate::fusion::FusedActivationKind,
    scale: u32,
    zero_point: i64,
)
    requires
        crate::ieee::is_valid_scale(scale),
        counts_to_six(scale),
        -128 <= zero_point <= 127,
    ensures
        ({
            let (low, high) = crate::fusion::clamp_range(kind, Some(scale), Some(zero_point));
            let act: i8 = match kind {
                crate::fusion::FusedActivationKind::Relu => 1,
                crate::fusion::FusedActivationKind::Relu6 => 3,
                crate::fusion::FusedActivationKind::HardSwish => 0,
            };
            clamps(act, scale, zero_point as int, low, high)
        }),
{
    law_six_is_nearest(scale);
    let steps = crate::requant::six(scale);
    assert(is_six(steps, scale));
    let size = if zero_point < 0 {
        -zero_point as nat
    } else {
        zero_point as nat
    };
    lemma_small_logarithm(size);
    assert(crate::requant::wide_zero_point(zero_point) == zero_point) by {
        lemma2_to64();
        assert(size * 1 == size);
        assert(crate::ieee::rounded_integer(zero_point as int, 53) == (
        crate::ieee::Number::Finite {
            negative: zero_point < 0,
            mantissa: size as u64,
            exponent: 0,
        }));
    }
}

/// The logarithm of a small number is small.
proof fn lemma_small_logarithm(n: nat)
    requires
        n < 256,
    ensures
        crate::ieee::floor_log2(n) < 8,
{
    lemma2_to64();
    if n > 0 {
        crate::ieee::lemma_floor_log2(n);
        let a = crate::ieee::floor_log2(n);
        if a > 8 {
            lemma_pow2_strictly_increases(8, a);
        }
    }
}

/// Whether a binary32 pattern is a positive number that differs from one by less
/// than a millionth.
pub open spec fn is_one_to_a_millionth(bits: u32) -> bool {
    let value = magnified(mantissa(bits) as int, exponent(bits));
    let one = magnified(1, 0);
    0 < bits < 0x7f80_0000 && -one < 1000000 * (value - one) < one
}

/// The patterns next to that of one are the numbers next to one.
pub proof fn law_unit_patterns(bits: u32)
    ensures
        is_one_to_a_millionth(bits) <==> 0x3f7f_fff0 <= bits <= 0x3f80_0008,
        crate::generate::near_one(bits) <==> is_one_to_a_millionth(bits),
        crate::fusion::nearly_one(bits) <==> is_one_to_a_millionth(bits),
{
    if 0 < bits < 0x7f80_0000 {
        let m = mantissa(bits) as int;
        let e = exponent(bits);
        lemma_valid_scale(bits);
        lemma2_to64();
        let one = magnified(1, 0);
        lemma_pow2_pos(2000);
        lemma_pow2_adds(1976, 24);
        lemma_pow2_adds(1977, 23);
        lemma_pow2_pos(1976);
        lemma_pow2_pos(1977);
        if e < -24 {
            if e < -25 {
                lemma_pow2_strictly_increases((2000 + e) as nat, 1975);
            }
            lemma_pow2_adds(1975, 25);
            lemma_pow2_pos((2000 + e) as nat);
            let p = pow2((2000 + e) as nat) as int;
            assert(2 * (m * p) <= one) by (nonlinear_arith)
                requires
                    m <= 0x100_0000,
                    0 < p <= pow2(1975),
                    one == pow2(1975) * 0x200_0000,
            ;
        } else if e > -23 {
            if e > -22 {
                lemma_pow2_strictly_increases(1978, (2000 + e) as nat);
            }
            lemma_pow2_adds(1978, 22);
            let p = pow2((2000 + e) as nat) as int;
            lemma_pow2_pos(1978);
            assert(m >= 0x80_0000);
            assert(m * p >= 2 * one) by (nonlinear_arith)
                requires
                    m >= 0x80_0000,
                    p >= pow2(1978),
                    pow2(1978) > 0,
                    one == pow2(1978) * 0x40_0000,
            ;
        } else if e == -24 {
            let p = pow2(1976) as int;
            assert(bits == 0x3e80_0000 + m);
            assert((-one < 1000000 * (m * p - one)) <==> (-0x100_0000 < 1000000 * (m
                - 0x100_0000))) by (nonlinear_arith)
                requires
                    one == p * 0x100_0000,
                    p > 0,
            ;
            assert(m * p < one) by (nonlinear_arith)
                requires
                    m < 0x100_0000,
                    one == p * 0x100_0000,
                    p > 0,
            ;
        } else {
            let p = pow2(1977) as int;
            assert(bits == 0x3f00_0000 + m);
            assert((1000000 * (m * p - one) < one) <==> (1000000 * (m - 0x80_0000) < 0x80_0000))
                by (nonlinear_arith)
                requires
                    one == p * 0x80_0000,
                    p > 0,
            ;
            assert(m * p >= one) by (nonlinear_arith)
                requires
                    m >= 0x80_0000,
                    one == p * 0x80_0000,
                    p > 0,
            ;
        }
    }
}

/// Whether a binary32 pattern is the positive real number `n / d * 2^e` up to a
/// relative error of `2^-24`.
pub open spec fn is_near(bits: u32, n: nat, d: nat, e: int) -> bool {
    let held = magnified((mantissa(bits) * d) as int, exponent(bits));
    let meant = magnified(n as int, e);
    0 < bits < 0x7f80_0000 && -meant <= 0x100_0000 * (held - meant) <= meant
}

/// Whether the real number `n / d * 2^e` is between `2^-126` and `2^127`, where
/// binary32 has all its bits.
pub open spec fn is_normal(n: nat, d: nat, e: int) -> bool {
    magnified(d as int, -126) <= magnified(n as int, e) < magnified(d as int, 127)
}

/// A quotient that binary32 holds with all its bits is held to the last.
pub proof fn law_short_quotients_are_near(n: nat, d: nat, e: int)
    requires
        0 < n < 0x8000_0000_0000_0000,
        0 < d < 0x8000_0000_0000_0000,
        -900 <= e <= 900,
        is_normal(n, d, e),
    ensures
        is_near(
            crate::ieee::magnitude_bits(n, d, e, 24, -149, 0x7f80_0000) as u32,
            n,
            d,
            e,
        ),
        0 < crate::ieee::magnitude_bits(n, d, e, 24, -149, 0x7f80_0000) < 0x7f80_0000,
{
    lemma_quotient_has_bits(n, d, e, 23);
    lemma2_to64();
    let lead = crate::ieee::leading_exponent(n, d, e);
    let u = lead - 23;
    let top = crate::ieee::lifted(n, e - u);
    let bottom = crate::ieee::lifted(d, u - e);
    lemma_lead_bounds(n, d, e, u, top, bottom);
    assert(crate::ieee::unit_exponent(n, d, e, 24, -149) == u);
    let k = crate::ieee::half_even(top, bottom);
    crate::ieee::law_half_even_is_nearest(top, bottom);
    assert(0x80_0000 <= k <= 0x100_0000) by (nonlinear_arith)
        requires
            bottom > 0,
            bottom * 0x80_0000 <= top,
            top < bottom * 0x100_0000,
            -(bottom as int) <= 2 * (k * bottom - top) <= bottom,
    ;
    let bits = crate::ieee::magnitude_bits(n, d, e, 24, -149, 0x7f80_0000);
    assert((u + 149) * pow2(23) == (u + 149) * 0x80_0000);
    assert(bits == (u + 149) * 0x80_0000 + k);
    let b = bits as u32;
    if k < 0x100_0000 {
        assert(mantissa(b) == k && exponent(b) == u);
    } else {
        assert(mantissa(b) == 0x80_0000 && exponent(b) == u + 1);
        lemma_pow2_unfold((2000 + u + 1) as nat);
    }
    let base = pow2((2000 + u) as nat) as int;
    lemma_pow2_pos((2000 + u) as nat);
    assert(magnified((mantissa(b) * d) as int, exponent(b)) == (k * d) * base) by {
        if k == 0x100_0000 {
            assert((0x80_0000 * d) * (2 * base) == (0x100_0000 * d) * base) by (nonlinear_arith);
        }
    }
    assert(-(top as int) <= 0x100_0000 * (k * bottom - top) <= top) by (nonlinear_arith)
        requires
            bottom > 0,
            bottom * 0x80_0000 <= top,
            -(bottom as int) <= 2 * (k * bottom - top) <= bottom,
    ;
    if e >= u {
        if e > u {
            lemma_pow2_adds((2000 + u) as nat, (e - u) as nat);
        }
        assert(n * pow2((2000 + e) as nat) == top * base) by {
            if e > u {
                assert(n * pow2((2000 + e) as nat) == (n * pow2((e - u) as nat)) * base)
                    by (nonlinear_arith)
                    requires
                        pow2((2000 + e) as nat) == base * pow2((e - u) as nat),
                ;
            }
        }
        assert(-(top * base) <= 0x100_0000 * ((k * d) * base - top * base) <= top * base)
            by (nonlinear_arith)
            requires
                -(top as int) <= 0x100_0000 * (k * bottom - top) <= top,
                bottom == d,
                base > 0,
        ;
    } else {
        lemma_pow2_adds((2000 + e) as nat, (u - e) as nat);
        let low = pow2((2000 + e) as nat) as int;
        lemma_pow2_pos((2000 + e) as nat);
        let c = pow2((u - e) as nat) as int;
        assert((k * d) * base == (k * bottom) * low) by (nonlinear_arith)
            requires
                base == low * c,
                bottom == d * c,
        ;
        assert(-(top * low) <= 0x100_0000 * ((k * bottom) * low - top * low) <= top * low)
            by (nonlinear_arith)
            requires
                -(top as int) <= 0x100_0000 * (k * bottom - top) <= top,
                low > 0,
        ;
    }
}

/// The leading exponent of a normal number.
proof fn lemma_lead_bounds(n: nat, d: nat, e: int, u: int, top: nat, bottom: nat)
    requires
        0 < n < 0x8000_0000_0000_0000,
        0 < d < 0x8000_0000_0000_0000,
        -900 <= e <= 900,
        is_normal(n, d, e),
        u == crate::ieee::leading_exponent(n, d, e) - 23,
        top == crate::ieee::lifted(n, e - u),
        bottom == crate::ieee::lifted(d, u - e),
        bottom > 0,
        bottom * 0x80_0000 <= top,
        top < bottom * 0x100_0000,
    ensures
        -149 <= u <= 103,
{
    crate::ieee::lemma_floor_log2(n);
    crate::ieee::lemma_floor_log2(d);
    lemma2_to64();
    lemma2_to64_rest();
    let a = crate::ieee::floor_log2(n);
    let b = crate::ieee::floor_log2(d);
    if a > 63 {
        lemma_pow2_strictly_increases(63, a);
    }
    if b > 63 {
        lemma_pow2_strictly_increases(63, b);
    }
    let base = pow2((2000 + u) as nat) as int;
    lemma_pow2_pos((2000 + u) as nat);
    // The quotient lies between 2^(u + 23) and 2^(u + 24).
    lemma_pow2_adds((2000 + u) as nat, 23);
    lemma_pow2_adds((2000 + u) as nat, 24);
    assert(magnified(d as int, u + 23) <= magnified(n as int, e) && magnified(n as int, e)
        < magnified(d as int, u + 24)) by {
        if e >= u {
            if e > u {
                lemma_pow2_adds((2000 + u) as nat, (e - u) as nat);
                assert(n * pow2((2000 + e) as nat) == (n * pow2((e - u) as nat)) * base)
                    by (nonlinear_arith)
                    requires
                        pow2((2000 + e) as nat) == base * pow2((e - u) as nat),
                ;
            }
            assert(d * (base * 0x80_0000) <= top * base && top * base < d * (base * 0x100_0000))
                by (nonlinear_arith)
                requires
                    bottom == d,
                    bottom * 0x80_0000 <= top,
                    top < bottom * 0x100_0000,
                    base > 0,
            ;
        } else {
            lemma_pow2_adds((2000 + e) as nat, (u - e) as nat);
            let low = pow2((2000 + e) as nat) as int;
            lemma_pow2_pos((2000 + e) as nat);
            let c = pow2((u - e) as nat) as int;
            assert(d * (base * 0x80_0000) <= n * low && n * low < d * (base * 0x100_0000))
                by (nonlinear_arith)
                requires
                    base == low * c,
                    bottom == d * c,
                    bottom * 0x80_0000 <= n,
                    n < bottom * 0x100_0000,
                    low > 0,
            ;
        }
    }
    if u < -149 {
        if u + 24 < -126 {
            lemma_pow2_strictly_increases((2000 + u + 24) as nat, 1874);
        }
        assert(d * pow2((2000 + u + 24) as nat) <= d * pow2(1874)) by (nonlinear_arith)
            requires
                pow2((2000 + u + 24) as nat) <= pow2(1874),
                d > 0,
        ;
    }
    if u > 103 {
        if u + 23 > 127 {
            lemma_pow2_strictly_increases(2127, (2000 + u + 23) as nat);
        }
        assert(d * pow2((2000 + u + 23) as nat) >= d * pow2(2127)) by (nonlinear_arith)
            requires
                pow2((2000 + u + 23) as nat) >= pow2(2127),
                d > 0,
        ;
    }
}

/// An integer of up to twenty-three bits is a binary32 number.
pub proof fn lemma_small_integer(k: int)
    requires
        -0x80_0000 < k < 0x80_0000,
    ensures
        ({
            let size = if k < 0 {
                -k
            } else {
                k
            };
            &&& crate::ieee::rounded_integer(k, 24) == (crate::ieee::Number::Finite {
                negative: k < 0,
                mantissa: size as u64,
                exponent: 0,
            })
            &&& crate::ieee::integer_value(crate::ieee::rounded_integer(k, 24)) == k
        }),
{
    let size = if k < 0 {
        -k as nat
    } else {
        k as nat
    };
    lemma2_to64();
    if size > 0 {
        crate::ieee::lemma_floor_log2(size);
        let a = crate::ieee::floor_log2(size);
        if a > 23 {
            lemma_pow2_strictly_increases(23, a);
        }
    }
    assert(size * 1 == size);
}

/// Whether a pair is the real factor `n / d * 2^e` up to a relative error of
/// `2^-22`.
pub open spec fn stands_roughly_for(pair: (i32, i32), n: nat, d: nat, e: int) -> bool {
    let held = magnified(pair.0 * d, pair.1 - 31);
    let meant = magnified(n as int, e);
    -meant <= 0x40_0000 * (held - meant) <= meant
}

/// Whether the real number `n / d * 2^e` is between `2^-30` and `2^30`.
pub open spec fn is_moderate(n: nat, d: nat, e: int) -> bool {
    magnified(d as int, -30) <= magnified(n as int, e) <= magnified(d as int, 30)
}

/// Two numbers that are near each other stay so when both are divided by the
/// same power of two.
proof fn lemma_near_when_shifted(a: int, x: int, b: int, y: int, f: int)
    requires
        -200 <= x <= 400,
        -400 <= y <= 400,
        -200 <= f <= 200,
        -magnified(b, y) <= 0x100_0000 * (magnified(a, x) - magnified(b, y)) <= magnified(b, y),
    ensures
        -magnified(b, y - f) <= 0x100_0000 * (magnified(a, x - f) - magnified(b, y - f))
            <= magnified(b, y - f),
{
    let c = pow2(200) as int;
    let s = pow2((200 - f) as nat) as int;
    lemma_pow2_pos(200);
    lemma_pow2_pos((200 - f) as nat);
    lemma_pow2_adds((2000 + x - f) as nat, 200);
    lemma_pow2_adds((2000 + y - f) as nat, 200);
    lemma_pow2_adds((2000 + x) as nat, (200 - f) as nat);
    lemma_pow2_adds((2000 + y) as nat, (200 - f) as nat);
    let ma = magnified(a, x);
    let mb = magnified(b, y);
    let na = magnified(a, x - f);
    let nb = magnified(b, y - f);
    assert(na * c == ma * s) by (nonlinear_arith)
        requires
            na == a * pow2((2000 + x - f) as nat),
            ma == a * pow2((2000 + x) as nat),
            pow2((2000 + x - f) as nat) * c == pow2((2000 + x) as nat) * s,
    ;
    assert(nb * c == mb * s) by (nonlinear_arith)
        requires
            nb == b * pow2((2000 + y - f) as nat),
            mb == b * pow2((2000 + y) as nat),
            pow2((2000 + y - f) as nat) * c == pow2((2000 + y) as nat) * s,
    ;
    assert((-nb) * c <= (0x100_0000 * (na - nb)) * c && (0x100_0000 * (na - nb)) * c <= nb * c)
        by (nonlinear_arith)
        requires
            na * c == ma * s,
            nb * c == mb * s,
            s > 0,
            -mb <= 0x100_0000 * (ma - mb) <= mb,
    ;
    lemma_cancel(-nb, 0x100_0000 * (na - nb), c);
    lemma_cancel(0x100_0000 * (na - nb), nb, c);
}

/// `first * second / output`, each step in binary32, is the real quotient to
/// twenty-two bits, for a product that binary32 holds with all its bits and a
/// moderate quotient.
pub proof fn law_short_product_is_the_quotient(first: u32, second: u32, output: u32)
    requires
        crate::ieee::is_valid_scale(first),
        crate::ieee::is_valid_scale(second),
        crate::ieee::is_valid_scale(output),
        is_normal(mantissa(first) * mantissa(second), 1, exponent(first) + exponent(second)),
        is_moderate(
            mantissa(first) * mantissa(second),
            mantissa(output),
            exponent(first) + exponent(second) - exponent(output),
        ),
    ensures
        stands_roughly_for(
            crate::fusion::short_product_ratio(first, second, output),
            mantissa(first) * mantissa(second),
            mantissa(output),
            exponent(first) + exponent(second) - exponent(output),
        ),
        crate::fusion::short_product_ratio(first, second, output).0 >= 0x4000_0000,
{
    lemma_valid_scale(first);
    lemma_valid_scale(second);
    lemma_valid_scale(output);
    let n = mantissa(first) * mantissa(second);
    let d = mantissa(output);
    let e = exponent(first) + exponent(second);
    let f = exponent(output);
    assert(0 < n < 0x1_0000_0000_0000) by (nonlinear_arith)
        requires
            n == mantissa(first) * mantissa(second),
            0 < mantissa(first) < 0x100_0000,
            0 < mantissa(second) < 0x100_0000,
    ;
    let p = crate::ieee::quotient32(
        crate::ieee::product(crate::ieee::denoted32(first), crate::ieee::denoted32(second)),
        crate::ieee::one(),
    );
    law_short_quotients_are_near(n, 1, e);
    assert(is_near(p, n, 1, e));
    lemma_valid_scale(p);
    let m = mantissa(p);
    let g = exponent(p);
    assert(m * 1 == m);
    lemma_near_when_shifted(m as int, g, n as int, e, f);
    let t = magnified(n as int, e - f);
    let pm = magnified(m as int, g - f);
    lemma_moderate_is_normal(d, t, pm);
    let q = crate::ieee::quotient32(crate::ieee::denoted32(p), crate::ieee::denoted32(output));
    law_short_quotients_are_near(m, d, g - f);
    assert(is_near(q, m, d, g - f));
    lemma_valid_scale(q);
    let k = mantissa(q);
    let h = exponent(q);
    let qm = magnified(k as int, h);
    let qd = magnified((k * d) as int, h);
    assert(qd == qm * d) by (nonlinear_arith)
        requires
            qd == (k * d) * pow2((2000 + h) as nat),
            qm == k * pow2((2000 + h) as nat),
    ;
    let pair = crate::int8::fixed_pair(
        crate::ieee::quotient64(crate::ieee::denoted32(q), crate::ieee::one()),
    );
    lemma_pair_of_quotient(k, 1, h);
    lemma_moderate_is_reached(d, t, qm, k, h);
    let held = magnified(pair.0 * 1, pair.1 - 31);
    let heldd = magnified(pair.0 * d, pair.1 - 31);
    assert(heldd == held * d) by (nonlinear_arith)
        requires
            heldd == (pair.0 * d) * pow2((2000 + pair.1 - 31) as nat),
            held == (pair.0 * 1) * pow2((2000 + pair.1 - 31) as nat),
    ;
    assert(-qd <= 0x4000_0000 * (heldd - qd) <= qd) by (nonlinear_arith)
        requires
            heldd == held * d,
            qd == qm * d,
            d > 0,
            -qm <= 0x4000_0000 * (held - qm) <= qm,
    ;
}

/// A number near a moderate one is one that binary32 holds with all its bits.
proof fn lemma_moderate_is_normal(d: nat, t: int, pm: int)
    requires
        0 < d,
        magnified(d as int, -30) <= t <= magnified(d as int, 30),
        -t <= 0x100_0000 * (pm - t) <= t,
    ensures
        magnified(d as int, -126) <= pm < magnified(d as int, 127),
{
    let a = pow2(1874) as int;
    lemma_pow2_pos(1874);
    lemma_pow2_adds(1874, 96);
    lemma_pow2_adds(1874, 156);
    lemma_pow2_adds(1874, 253);
    lemma_pow2_adds(156, 97);
    lemma_pow2_pos(96);
    lemma_pow2_pos(156);
    lemma_pow2_strictly_increases(1, 96);
    lemma_pow2_strictly_increases(1, 97);
    lemma2_to64();
    let x = d * a;
    assert(x > 0) by (nonlinear_arith)
        requires
            x == d * a,
            d > 0,
            a > 0,
    ;
    let y = pow2(96) as int;
    let z = pow2(156) as int;
    let w = pow2(97) as int;
    assert(d * (a * y) >= 2 * x) by (nonlinear_arith)
        requires
            x == d * a,
            y >= 2,
            x > 0,
    ;
    let u = d * (a * z);
    assert(d * (a * (z * w)) > 2 * u && u > 0) by (nonlinear_arith)
        requires
            u == d * (a * z),
            x == d * a,
            z > 0,
            w > 2,
            x > 0,
    ;
}

/// A shift reaches what is near a moderate number.
proof fn lemma_moderate_is_reached(d: nat, t: int, qm: int, k: nat, h: int)
    requires
        0 < d,
        -200 <= h <= 200,
        qm == magnified(k as int, h),
        magnified(d as int, -30) <= t,
        t <= 4 * (qm * d),
    ensures
        within_reach(k, 1, h),
{
    let a = pow2(1968) as int;
    lemma_pow2_pos(1968);
    lemma_pow2_adds(1968, 2);
    lemma_pow2_adds(1968, 32);
    lemma_pow2_adds((2000 + h) as nat, 32);
    lemma2_to64();
    assert(magnified(d as int, -30) == d * (a * 4));
    assert(a * d <= qm * d) by (nonlinear_arith)
        requires
            d * (a * 4) <= 4 * (qm * d),
    ;
    lemma_cancel(a, qm, d as int);
    let c = pow2(32) as int;
    lemma_pow2_pos(32);
    assert(k * (pow2((2000 + h) as nat) * c) == qm * c) by (nonlinear_arith)
        requires
            qm == k * pow2((2000 + h) as nat),
    ;
    assert(a * c <= qm * c) by (nonlinear_arith)
        requires
            a <= qm,
            c > 0,
    ;
}

/// Without a positive scale nothing is clamped.
pub proof fn law_without_a_scale_nothing_is_clamped(
    act: i8,
    scale: u32,
    zero_point: i32,
    kind: crate::fusion::FusedActivationKind,
    z: Option<i64>,
)
    requires
        scale == 0 || 0x8000_0000 <= scale <= 0xff80_0000,
    ensures
        crate::requant::bounds(act, scale, zero_point) == (-128i32, 127i32),
        crate::fusion::clamp_range(kind, Some(scale), z) == (-128int, 127int),
        crate::fusion::clamp_range(kind, None, z) == (-128int, 127int),
{
}

} // verus!
