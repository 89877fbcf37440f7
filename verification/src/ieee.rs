//! Scales as IEEE 754 bit patterns, in integer arithmetic.
//!
//! Model files store a scale as a binary32 number. Everything the compiler
//! derives from scales is a product or quotient of such numbers, rounded to
//! binary64 or binary32. This module takes the bit patterns apart and rounds
//! an exact ratio of integers to the nearest representable number.

use vstd::arithmetic::div_mod::*;
use vstd::arithmetic::power2::*;
use vstd::prelude::*;

verus! {

/// Precision of binary32, in bits.
pub const PRECISION_32: u32 = 24;

/// Exponent of the smallest positive binary32 number.
pub const LEAST_EXPONENT_32: i32 = -149;

/// Bit pattern of positive infinity in binary32.
pub const INFINITY_32: u64 = 0x7f80_0000;

/// Precision of binary64, in bits.
pub const PRECISION_64: u32 = 53;

/// Exponent of the smallest positive binary64 number.
pub const LEAST_EXPONENT_64: i32 = -1074;

/// Bit pattern of positive infinity in binary64.
pub const INFINITY_64: u64 = 0x7ff0_0000_0000_0000;

/// Bit pattern that stands for an undefined binary64 result.
pub const NAN_64: u64 = 0x7ff8_0000_0000_0000;

/// Bit pattern that stands for an undefined binary32 result.
pub const NAN_32: u32 = 0x7fc0_0000;

/// What a bit pattern denotes. A finite number is `mantissa * 2^exponent`,
/// with its sign.
#[derive(Clone, Copy, Debug, PartialEq, Eq, Structural)]
pub enum Number {
    Undefined,
    Infinite { negative: bool },
    Finite { negative: bool, mantissa: u64, exponent: i32 },
}

/// The number of times `n` can be halved before it is below two.
pub open spec fn floor_log2(n: nat) -> nat
    decreases n,
{
    if n < 2 {
        0
    } else {
        1 + floor_log2(n / 2)
    }
}

/// The integer nearest to `n / d`, a tie going to the even one.
pub open spec fn half_even(n: nat, d: nat) -> nat {
    let q = n / d;
    let r = n % d;
    if 2 * r > d || (2 * r == d && q % 2 == 1) {
        q + 1
    } else {
        q
    }
}

/// `n` times a power of two whose exponent is not negative.
pub open spec fn lifted(n: nat, exponent: int) -> nat {
    if exponent > 0 {
        n * pow2(exponent as nat)
    } else {
        n
    }
}

/// The exponent of the leading bit of `n / d * 2^e`.
pub open spec fn leading_exponent(n: nat, d: nat, e: int) -> int {
    let a = floor_log2(n);
    let b = floor_log2(d);
    if n * pow2(b) >= d * pow2(a) {
        a - b + e
    } else {
        a - b - 1 + e
    }
}

/// The exponent of the last bit of `n / d * 2^e`, in a format of the given
/// precision whose smallest number has the exponent `least`.
pub open spec fn unit_exponent(n: nat, d: nat, e: int, precision: int, least: int) -> int {
    let u = leading_exponent(n, d, e) - (precision - 1);
    if u < least {
        least
    } else {
        u
    }
}

/// `n / d * 2^e` in units of the last bit, rounded to the nearest integer, a
/// tie going to the even one.
pub open spec fn rounded_units(n: nat, d: nat, e: int, precision: int, least: int) -> nat {
    let u = unit_exponent(n, d, e, precision, least);
    half_even(lifted(n, e - u), lifted(d, u - e))
}

/// The pattern, without its sign, of the number nearest to `n / d * 2^e`.
pub open spec fn magnitude_bits(
    n: nat,
    d: nat,
    e: int,
    precision: int,
    least: int,
    infinity: int,
) -> int {
    if n == 0 {
        0
    } else {
        let u = unit_exponent(n, d, e, precision, least);
        let bits = (u - least) * pow2((precision - 1) as nat) + rounded_units(n, d, e, precision, least);
        if bits > infinity {
            infinity
        } else {
            bits
        }
    }
}

/// The floor of a logarithm brackets its argument.
pub proof fn lemma_floor_log2(n: nat)
    requires
        n > 0,
    ensures
        pow2(floor_log2(n)) <= n < 2 * pow2(floor_log2(n)),
    decreases n,
{
    lemma2_to64();
    if n >= 2 {
        lemma_floor_log2(n / 2);
        lemma_pow2_unfold(floor_log2(n));
    }
}

/// The largest power of two in `n`, as its exponent.
fn log2_floor(n: u64) -> (a: u32)
    requires
        n > 0,
    ensures
        a == floor_log2(n as nat),
        a < 64,
{
    let mut a: u32 = 0;
    let mut rest: u64 = n;
    proof {
        lemma_floor_log2(n as nat);
        lemma2_to64_rest();
        if floor_log2(n as nat) >= 64 {
            if floor_log2(n as nat) > 64 {
                lemma_pow2_strictly_increases(64, floor_log2(n as nat));
            }
        }
    }
    while rest >= 2
        invariant
            floor_log2(n as nat) < 64,
            rest > 0,
            a + floor_log2(rest as nat) == floor_log2(n as nat),
        decreases rest,
    {
        rest = rest / 2;
        a = a + 1;
    }
    a
}

/// Powers of two grow with their exponent.
proof fn lemma_pow2_le(a: nat, b: nat)
    requires
        a <= b,
    ensures
        pow2(a) <= pow2(b),
{
    if a < b {
        lemma_pow2_strictly_increases(a, b);
    }
}

/// `x * 2^k`.
fn shifted(x: u64, k: u32) -> (r: u128)
    requires
        floor_log2(x as nat) + k < 127,
    ensures
        r == x * pow2(k as nat),
{
    let mut r: u128 = x as u128;
    let mut i: u32 = 0;
    proof {
        lemma2_to64();
        assert(x * pow2(0) == x);
    }
    while i < k
        invariant
            i <= k,
            floor_log2(x as nat) + k < 127,
            r == x * pow2(i as nat),
        decreases k - i,
    {
        proof {
            lemma_pow2_unfold((i + 1) as nat);
            assert(x * (2 * pow2(i as nat)) == 2 * (x * pow2(i as nat))) by (nonlinear_arith);
            lemma_shifted_bound(x as nat, (i + 1) as nat);
        }
        r = r * 2;
        i = i + 1;
    }
    r
}

/// A shifted word fits where its leading bit does.
proof fn lemma_shifted_bound(x: nat, k: nat)
    requires
        floor_log2(x) + k < 127,
    ensures
        0 <= x * pow2(k) < 0x8000_0000_0000_0000_0000_0000_0000_0000,
{
    let a = floor_log2(x);
    if x > 0 {
        lemma_floor_log2(x);
    }
    lemma_pow2_pos(a);
    lemma_pow2_pos(k);
    lemma_pow2_adds(a, k);
    lemma_pow2_unfold((a + k + 1) as nat);
    lemma_pow2_le((a + k + 1) as nat, 127);
    lemma_pow2_adds(64, 63);
    lemma2_to64_rest();
    lemma2_to64();
    assert(pow2(63) == 0x8000_0000_0000_0000) by {
        lemma_pow2_unfold(64);
    }
    assert(x * pow2(k) < 2 * (pow2(a) * pow2(k)) && x * pow2(k) >= 0) by (nonlinear_arith)
        requires
            0 <= x < 2 * pow2(a),
            pow2(k) > 0,
    ;
}

/// The integer nearest to `n / d`, a tie going to the even one.
fn round_half_even(n: u128, d: u128) -> (q: u128)
    requires
        d > 0,
        d < 0x8000_0000_0000_0000_0000_0000_0000_0000,
        n < 0x8000_0000_0000_0000_0000_0000_0000_0000,
    ensures
        q == half_even(n as nat, d as nat),
        q <= n + 1,
{
    let q: u128 = n / d;
    let r: u128 = n % d;
    proof {
        lemma_div_nonincreasing(n as int, d as int);
    }
    if 2 * r > d || (2 * r == d && q % 2 == 1) {
        q + 1
    } else {
        q
    }
}

/// The pattern, without its sign, of the number nearest to `n / d * 2^e` in a
/// format of the given precision.
fn nearest_magnitude(n: u64, d: u64, e: i32, precision: u32, least: i32, infinity: u64) -> (bits: u64)
    requires
        n < 0x8000_0000_0000_0000,
        0 < d < 0x1000_0000_0000_0000,
        -4000 <= e <= 4000,
        1 <= precision <= 53,
        -2000 <= least <= 0,
    ensures
        bits == magnitude_bits(
            n as nat,
            d as nat,
            e as int,
            precision as int,
            least as int,
            infinity as int,
        ),
{
    if n == 0 {
        return 0;
    }
    let a: u32 = log2_floor(n);
    let b: u32 = log2_floor(d);
    proof {
        lemma_floor_log2(n as nat);
        lemma_floor_log2(d as nat);
        lemma2_to64();
        lemma2_to64_rest();
        if a >= 63 {
            lemma_pow2_le(63, a as nat);
            lemma_pow2_unfold(64);
        }
        if b >= 60 {
            lemma_pow2_le(60, b as nat);
            lemma_pow2_adds(60, 4);
        }
    }
    let high: bool = shifted(n, b) >= shifted(d, a);
    let lead: i32 = a as i32 - b as i32 + e - (if high { 0 } else { 1 });
    let free: i32 = lead - (precision as i32 - 1);
    let u: i32 = if free < least { least } else { free };
    let m: u128 = if u - e > 66 {
        proof {
            let t = (u - e) as nat;
            lemma_pow2_le(66, t);
            lemma_pow2_adds(64, 2);
            lemma2_to64_rest();
            assert(d * pow2(t) >= pow2(t)) by (nonlinear_arith)
                requires
                    d >= 1,
            ;
            lemma_small_div_and_mod(n as nat, (d * pow2(t)) as nat);
        }
        0
    } else {
        let top: u128 = if e > u { shifted(n, (e - u) as u32) } else { n as u128 };
        let bottom: u128 = if u > e { shifted(d, (u - e) as u32) } else { d as u128 };
        proof {
            if e > u {
                lemma_shifted_bound(n as nat, (e - u) as nat);
            }
            if u > e {
                lemma_shifted_bound(d as nat, (u - e) as nat);
                lemma_pow2_pos((u - e) as nat);
                assert(d * pow2((u - e) as nat) > 0) by (nonlinear_arith)
                    requires
                        d > 0,
                        pow2((u - e) as nat) > 0,
                ;
            }
        }
        round_half_even(top, bottom)
    };
    let step: u128 = shifted(1, precision - 1);
    proof {
        lemma_pow2_le((precision - 1) as nat, 52);
        lemma2_to64_rest();
        assert(0 <= (u - least) * step <= 0x2000 * 0x10_0000_0000_0000) by (nonlinear_arith)
            requires
                0 <= u - least <= 0x2000,
                0 <= step <= 0x10_0000_0000_0000,
        ;
    }
    let bits: u128 = ((u - least) as u128) * step + m;
    if bits > infinity as u128 {
        infinity
    } else {
        bits as u64
    }
}

/// A dividend below half the divisor rounds to zero.
proof fn lemma_small_div_and_mod(n: nat, d: nat)
    requires
        2 * n < d,
    ensures
        half_even(n, d) == 0,
{
    lemma_basic_div(n as int, d as int);
    lemma_small_mod(n, d);
}

/// What a binary32 pattern denotes.
pub open spec fn denoted32(bits: u32) -> Number {
    let negative = bits >= 0x8000_0000;
    let field = (bits / 0x80_0000) % 256;
    let fraction = bits % 0x80_0000;
    if field == 255 && fraction != 0 {
        Number::Undefined
    } else if field == 255 {
        Number::Infinite { negative }
    } else if field == 0 {
        Number::Finite { negative, mantissa: fraction as u64, exponent: LEAST_EXPONENT_32 }
    } else {
        Number::Finite {
            negative,
            mantissa: (fraction + 0x80_0000) as u64,
            exponent: (field - 150) as i32,
        }
    }
}

/// What a binary64 pattern denotes.
pub open spec fn denoted64(bits: u64) -> Number {
    let negative = bits >= 0x8000_0000_0000_0000;
    let field = (bits / 0x10_0000_0000_0000) % 2048;
    let fraction = bits % 0x10_0000_0000_0000;
    if field == 2047 && fraction != 0 {
        Number::Undefined
    } else if field == 2047 {
        Number::Infinite { negative }
    } else if field == 0 {
        Number::Finite { negative, mantissa: fraction, exponent: LEAST_EXPONENT_64 }
    } else {
        Number::Finite {
            negative,
            mantissa: (fraction + 0x10_0000_0000_0000) as u64,
            exponent: (field - 1075) as i32,
        }
    }
}

/// Whether a number, where it is finite, has a mantissa below `limit` and an
/// exponent of at most `reach` in size.
pub open spec fn within(x: Number, limit: int, reach: int) -> bool {
    match x {
        Number::Finite { negative, mantissa, exponent } => mantissa < limit && -reach <= exponent
            <= reach,
        _ => true,
    }
}

/// What a binary32 pattern denotes.
pub fn decode32(bits: u32) -> (x: Number)
    ensures
        x == denoted32(bits),
        within(x, 0x100_0000, 149),
{
    let negative: bool = bits >= 0x8000_0000;
    let field: u32 = (bits / 0x80_0000) % 256;
    let fraction: u32 = bits % 0x80_0000;
    if field == 255 {
        if fraction != 0 {
            Number::Undefined
        } else {
            Number::Infinite { negative }
        }
    } else if field == 0 {
        Number::Finite { negative, mantissa: fraction as u64, exponent: LEAST_EXPONENT_32 }
    } else {
        Number::Finite {
            negative,
            mantissa: (fraction + 0x80_0000) as u64,
            exponent: field as i32 - 150,
        }
    }
}

/// What a binary64 pattern denotes.
pub fn decode64(bits: u64) -> (x: Number)
    ensures
        x == denoted64(bits),
        within(x, 0x20_0000_0000_0000, 1074),
{
    let negative: bool = bits >= 0x8000_0000_0000_0000;
    let field: u64 = (bits / 0x10_0000_0000_0000) % 2048;
    let fraction: u64 = bits % 0x10_0000_0000_0000;
    if field == 2047 {
        if fraction != 0 {
            Number::Undefined
        } else {
            Number::Infinite { negative }
        }
    } else if field == 0 {
        Number::Finite { negative, mantissa: fraction, exponent: LEAST_EXPONENT_64 }
    } else {
        Number::Finite {
            negative,
            mantissa: fraction + 0x10_0000_0000_0000,
            exponent: field as i32 - 1075,
        }
    }
}

/// Whether a binary32 pattern denotes no number at all.
pub open spec fn is_nan(bits: u32) -> bool {
    bits % 0x8000_0000 > 0x7f80_0000
}

/// The position of a binary32 pattern in the order of the numbers; both zeros
/// have the same.
pub open spec fn rank(bits: u32) -> int {
    if bits >= 0x8000_0000 {
        0x8000_0000 - bits
    } else {
        bits as int
    }
}

/// Whether two binary32 patterns denote equal numbers. An undefined result
/// equals nothing.
pub open spec fn equal_numbers(a: u32, b: u32) -> bool {
    !is_nan(a) && !is_nan(b) && rank(a) == rank(b)
}

/// Whether a binary32 pattern denotes a number above zero, infinity included.
pub open spec fn is_positive(bits: u32) -> bool {
    0 < bits <= 0x7f80_0000
}

/// Whether a binary32 pattern denotes a finite number above zero.
pub open spec fn is_valid_scale(bits: u32) -> bool {
    0 < bits < 0x7f80_0000
}

/// The larger of two binary32 numbers; the other one where one is undefined.
pub open spec fn larger(a: u32, b: u32) -> u32 {
    if is_nan(a) {
        b
    } else if is_nan(b) || rank(a) >= rank(b) {
        a
    } else {
        b
    }
}

fn rank_of(bits: u32) -> (r: i64)
    ensures
        r == rank(bits),
{
    if bits >= 0x8000_0000 {
        0x8000_0000 - bits as i64
    } else {
        bits as i64
    }
}

/// Whether two binary32 patterns denote equal numbers.
pub fn numbers_equal(a: u32, b: u32) -> (r: bool)
    ensures
        r == equal_numbers(a, b),
{
    a % 0x8000_0000 <= 0x7f80_0000 && b % 0x8000_0000 <= 0x7f80_0000 && rank_of(a) == rank_of(b)
}

/// The larger of two binary32 numbers; the other one where one is undefined.
pub fn larger_of(a: u32, b: u32) -> (r: u32)
    ensures
        r == larger(a, b),
{
    if a % 0x8000_0000 > 0x7f80_0000 {
        b
    } else if b % 0x8000_0000 > 0x7f80_0000 || rank_of(a) >= rank_of(b) {
        a
    } else {
        b
    }
}

/// The exact product of two numbers.
pub open spec fn product(a: Number, b: Number) -> Number {
    match (a, b) {
        (Number::Undefined, _) | (_, Number::Undefined) => Number::Undefined,
        (Number::Infinite { negative: s }, Number::Infinite { negative: t }) => Number::Infinite {
            negative: s != t,
        },
        (
            Number::Infinite { negative: s },
            Number::Finite { negative: t, mantissa, exponent },
        ) => if mantissa == 0 {
            Number::Undefined
        } else {
            Number::Infinite { negative: s != t }
        },
        (
            Number::Finite { negative: s, mantissa, exponent },
            Number::Infinite { negative: t },
        ) => if mantissa == 0 {
            Number::Undefined
        } else {
            Number::Infinite { negative: s != t }
        },
        (
            Number::Finite { negative: s, mantissa: m, exponent: e },
            Number::Finite { negative: t, mantissa: n, exponent: f },
        ) => Number::Finite {
            negative: s != t,
            mantissa: (m * n) as u64,
            exponent: (e + f) as i32,
        },
    }
}

/// The exact product of two numbers. A product of two binary32 numbers is a
/// binary64 number, so nothing is rounded.
pub fn multiply(a: Number, b: Number) -> (r: Number)
    requires
        within(a, 0x200_0000, 300),
        within(b, 0x200_0000, 300),
    ensures
        r == product(a, b),
        within(r, 0x4_0000_0000_0000, 600),
{
    match (a, b) {
        (Number::Undefined, _) => Number::Undefined,
        (_, Number::Undefined) => Number::Undefined,
        (
            Number::Infinite { negative: s },
            Number::Infinite { negative: t },
        ) => Number::Infinite { negative: s != t },
        (
            Number::Infinite { negative: s },
            Number::Finite { negative: t, mantissa, exponent: _ },
        ) => if mantissa == 0 {
            Number::Undefined
        } else {
            Number::Infinite { negative: s != t }
        },
        (
            Number::Finite { negative: s, mantissa, exponent: _ },
            Number::Infinite { negative: t },
        ) => if mantissa == 0 {
            Number::Undefined
        } else {
            Number::Infinite { negative: s != t }
        },
        (
            Number::Finite { negative: s, mantissa: m, exponent: e },
            Number::Finite { negative: t, mantissa: n, exponent: f },
        ) => {
            assert(0 <= m * n < 0x4_0000_0000_0000) by (nonlinear_arith)
                requires
                    0 <= m < 0x200_0000,
                    0 <= n < 0x200_0000,
            ;
            Number::Finite { negative: s != t, mantissa: m * n, exponent: e + f }
        },
    }
}

/// The magnitude of the quotient of two numbers in a format, or `nan` where the
/// quotient is undefined.
pub open spec fn quotient_magnitude(
    a: Number,
    b: Number,
    precision: int,
    least: int,
    infinity: int,
    nan: int,
) -> int {
    match (a, b) {
        (Number::Undefined, _) | (_, Number::Undefined) => nan,
        (Number::Infinite { .. }, Number::Infinite { .. }) => nan,
        (Number::Infinite { .. }, Number::Finite { .. }) => infinity,
        (Number::Finite { .. }, Number::Infinite { .. }) => 0,
        (
            Number::Finite { negative: s, mantissa: m, exponent: e },
            Number::Finite { negative: t, mantissa: n, exponent: f },
        ) => if n != 0 {
            magnitude_bits(m as nat, n as nat, e - f, precision, least, infinity)
        } else if m == 0 {
            nan
        } else {
            infinity
        },
    }
}

/// Whether a number carries a minus sign.
pub open spec fn sign_of(x: Number) -> bool {
    match x {
        Number::Undefined => false,
        Number::Infinite { negative } => negative,
        Number::Finite { negative, mantissa, exponent } => negative,
    }
}

/// A magnitude with its sign; an undefined result has none.
pub open spec fn with_sign(magnitude: int, negative: bool, infinity: int, top: int) -> int {
    if negative && magnitude <= infinity {
        magnitude + top
    } else {
        magnitude
    }
}

/// The binary64 pattern nearest to `a / b`.
pub open spec fn quotient64(a: Number, b: Number) -> u64 {
    with_sign(
        quotient_magnitude(
            a,
            b,
            PRECISION_64 as int,
            LEAST_EXPONENT_64 as int,
            INFINITY_64 as int,
            NAN_64 as int,
        ),
        sign_of(a) != sign_of(b),
        INFINITY_64 as int,
        0x8000_0000_0000_0000,
    ) as u64
}

/// The binary32 pattern nearest to `a / b`.
pub open spec fn quotient32(a: Number, b: Number) -> u32 {
    with_sign(
        quotient_magnitude(
            a,
            b,
            PRECISION_32 as int,
            LEAST_EXPONENT_32 as int,
            INFINITY_32 as int,
            NAN_32 as int,
        ),
        sign_of(a) != sign_of(b),
        INFINITY_32 as int,
        0x8000_0000,
    ) as u32
}

/// The number one.
pub open spec fn one() -> Number {
    Number::Finite { negative: false, mantissa: 1, exponent: 0 }
}

fn is_negative(x: Number) -> (r: bool)
    ensures
        r == sign_of(x),
{
    match x {
        Number::Undefined => false,
        Number::Infinite { negative } => negative,
        Number::Finite { negative, mantissa: _, exponent: _ } => negative,
    }
}

fn divide_magnitude(
    a: Number,
    b: Number,
    precision: u32,
    least: i32,
    infinity: u64,
    nan: u64,
) -> (r: u64)
    requires
        within(a, 0x8000_0000_0000_0000, 2000),
        within(b, 0x1000_0000_0000_0000, 2000),
        1 <= precision <= 53,
        -2000 <= least <= 0,
        infinity < nan,
    ensures
        r == quotient_magnitude(
            a,
            b,
            precision as int,
            least as int,
            infinity as int,
            nan as int,
        ),
        r <= nan,
{
    match (a, b) {
        (Number::Undefined, _) => nan,
        (_, Number::Undefined) => nan,
        (Number::Infinite { .. }, Number::Infinite { .. }) => nan,
        (Number::Infinite { .. }, Number::Finite { .. }) => infinity,
        (Number::Finite { .. }, Number::Infinite { .. }) => 0,
        (
            Number::Finite { negative: _, mantissa: m, exponent: e },
            Number::Finite { negative: _, mantissa: n, exponent: f },
        ) => if n != 0 {
            nearest_magnitude(m, n, e - f, precision, least, infinity)
        } else if m == 0 {
            nan
        } else {
            infinity
        },
    }
}

/// The binary64 pattern nearest to `a / b`.
pub fn divide64(a: Number, b: Number) -> (r: u64)
    requires
        within(a, 0x8000_0000_0000_0000, 2000),
        within(b, 0x1000_0000_0000_0000, 2000),
    ensures
        r == quotient64(a, b),
{
    let magnitude: u64 = divide_magnitude(
        a,
        b,
        PRECISION_64,
        LEAST_EXPONENT_64,
        INFINITY_64,
        NAN_64,
    );
    if is_negative(a) != is_negative(b) && magnitude <= INFINITY_64 {
        magnitude + 0x8000_0000_0000_0000
    } else {
        magnitude
    }
}

/// The binary32 pattern nearest to `a / b`.
pub fn divide32(a: Number, b: Number) -> (r: u32)
    requires
        within(a, 0x8000_0000_0000_0000, 2000),
        within(b, 0x1000_0000_0000_0000, 2000),
    ensures
        r == quotient32(a, b),
{
    let magnitude: u64 = divide_magnitude(
        a,
        b,
        PRECISION_32,
        LEAST_EXPONENT_32,
        INFINITY_32,
        NAN_32 as u64,
    );
    if is_negative(a) != is_negative(b) && magnitude <= INFINITY_32 {
        (magnitude + 0x8000_0000) as u32
    } else {
        magnitude as u32
    }
}

/// An integer rounded to `precision` bits, a tie going to the even mantissa.
pub open spec fn rounded_integer(k: int, precision: int) -> Number {
    let size = if k < 0 {
        -k as nat
    } else {
        k as nat
    };
    let spare = floor_log2(size) + 1 - precision;
    if spare <= 0 {
        Number::Finite { negative: k < 0, mantissa: size as u64, exponent: 0 }
    } else {
        Number::Finite {
            negative: k < 0,
            mantissa: half_even(size, pow2(spare as nat)) as u64,
            exponent: spare as i32,
        }
    }
}

/// The integer that a number of that form denotes.
pub open spec fn integer_value(x: Number) -> int {
    match x {
        Number::Finite { negative, mantissa, exponent } => if negative {
            -(mantissa * pow2(exponent as nat))
        } else {
            mantissa * pow2(exponent as nat)
        },
        _ => 0,
    }
}

/// A rounded integer has a mantissa of at most `precision` bits, or the next
/// power of two.
proof fn lemma_rounded_integer(size: nat, spare: nat, precision: nat)
    requires
        floor_log2(size) + 1 == precision + spare,
    ensures
        half_even(size, pow2(spare)) <= pow2(precision),
{
    lemma_pow2_pos(spare);
    lemma_pow2_adds(precision, spare);
    lemma_pow2_unfold(precision + spare);
    if size > 0 {
        lemma_floor_log2(size);
    } else {
        lemma_pow2_pos(precision + spare);
    }
    assert((size as int) < pow2(precision) * pow2(spare));
    lemma_div_strictly_bounded(size as int, pow2(precision) as int, pow2(spare) as int);
}

proof fn lemma_div_strictly_bounded(x: int, a: int, b: int)
    requires
        b > 0,
        0 <= x < a * b,
    ensures
        x / b < a,
{
    lemma_fundamental_div_mod(x, b);
    assert(x / b < a) by (nonlinear_arith)
        requires
            b > 0,
            x < a * b,
            x == b * (x / b) + x % b,
            0 <= x % b,
    ;
}

/// An integer rounded to `precision` bits, a tie going to the even mantissa.
pub fn round_integer(k: i128, precision: u32) -> (r: Number)
    requires
        -0xffff_ffff_ffff_ffff <= k <= 0xffff_ffff_ffff_ffff,
        1 <= precision <= 53,
    ensures
        r == rounded_integer(k as int, precision as int),
        r matches Number::Finite { negative, mantissa, exponent } && mantissa <= pow2(
            precision as nat,
        ) && 0 <= exponent <= 63,
        -0x1_0000_0000_0000_0000 <= integer_value(r) <= 0x1_0000_0000_0000_0000,
        -(pow2((64 - precision) as nat) as int) <= 2 * (integer_value(r) - k) <= pow2(
            (64 - precision) as nat,
        ),
{
    let negative: bool = k < 0;
    proof {
        lemma2_to64();
        lemma2_to64_rest();
        lemma_pow2_pos((64 - precision) as nat);
    }
    let size: u64 = if k < 0 { (-k) as u64 } else { k as u64 };
    if size == 0 {
        proof {
            lemma_pow2_pos(precision as nat);
        }
        return Number::Finite { negative, mantissa: 0, exponent: 0 };
    }
    let log: u32 = log2_floor(size);
    proof {
        lemma_floor_log2(size as nat);
    }
    if log < precision {
        proof {
            lemma_pow2_unfold((log + 1) as nat);
            lemma_pow2_le((log + 1) as nat, precision as nat);
            assert(size * pow2(0) == size);
        }
        return Number::Finite { negative, mantissa: size, exponent: 0 };
    }
    let spare: u32 = log + 1 - precision;
    proof {
        lemma2_to64();
        lemma_shifted_bound(1, spare as nat);
        lemma_pow2_pos(spare as nat);
    }
    let unit: u128 = shifted(1, spare);
    let mantissa: u128 = round_half_even(size as u128, unit);
    proof {
        lemma_rounded_integer(size as nat, spare as nat, precision as nat);
        lemma_pow2_le(precision as nat, 53);
        lemma2_to64_rest();
        lemma_pow2_adds(precision as nat, spare as nat);
        lemma_pow2_le((precision + spare) as nat, 64);
        assert(0 <= mantissa * pow2(spare as nat) <= pow2(precision as nat) * pow2(spare as nat))
            by (nonlinear_arith)
            requires
                0 <= mantissa <= pow2(precision as nat),
        ;
        law_half_even_is_nearest(size as nat, unit as nat);
        lemma_pow2_le(spare as nat, (64 - precision) as nat);
    }
    Number::Finite { negative, mantissa: mantissa as u64, exponent: spare as i32 }
}

/// The integer that a rounded integer denotes.
pub fn integer_of(x: Number) -> (r: i128)
    requires
        x matches Number::Finite { negative, mantissa, exponent } && mantissa
            <= 0x20_0000_0000_0000 && 0 <= exponent <= 63,
    ensures
        r == integer_value(x),
{
    match x {
        Number::Finite { negative, mantissa, exponent } => {
            proof {
                lemma2_to64_rest();
                lemma_pow2_le(exponent as nat, 63);
                lemma_pow2_pos(exponent as nat);
                lemma_pow2_unfold(64);
                if mantissa > 0 {
                    lemma_floor_log2(mantissa as nat);
                    if floor_log2(mantissa as nat) > 53 {
                        lemma_pow2_le(54, floor_log2(mantissa as nat));
                        lemma_pow2_unfold(54);
                    }
                }
                assert(0 <= mantissa * pow2(exponent as nat) <= 0x20_0000_0000_0000
                    * 0x8000_0000_0000_0000) by (nonlinear_arith)
                    requires
                        0 <= mantissa <= 0x20_0000_0000_0000,
                        0 < pow2(exponent as nat) <= 0x8000_0000_0000_0000,
                ;
            }
            let size: u128 = shifted(mantissa, exponent as u32);
            if negative {
                -(size as i128)
            } else {
                size as i128
            }
        },
        _ => 0,
    }
}

/// A finite number rounded to the nearest integer, a half going away from zero.
pub open spec fn rounded_away(x: Number) -> int {
    match x {
        Number::Finite { negative, mantissa, exponent } => {
            let size = if exponent >= 0 {
                mantissa * pow2(exponent as nat)
            } else {
                crate::int8::nearest_quotient(mantissa as int, pow2(-exponent as nat) as int)
            };
            if negative {
                -size
            } else {
                size as int
            }
        },
        _ => 0,
    }
}

/// No integer of interest is larger than this.
pub const FAR: i128 = 0x10_0000_0000_0000_0000_0000_0000;

/// `mantissa * 2^k`, or `FAR` where that is less.
fn grow(mantissa: u64, k: u32) -> (r: i128)
    ensures
        r == crate::int8::clamp_int(mantissa * pow2(k as nat), -FAR, FAR as int),
        0 <= r <= FAR,
{
    proof {
        lemma_pow2_pos(k as nat);
    }
    if mantissa == 0 {
        return 0;
    }
    let log: u32 = log2_floor(mantissa);
    proof {
        lemma_floor_log2(mantissa as nat);
        lemma_pow2_adds(64, 36);
        lemma2_to64();
        lemma2_to64_rest();
        assert(pow2(100) == FAR);
    }
    if k >= 100 || log + k >= 100 {
        proof {
            lemma_pow2_adds(log as nat, k as nat);
            lemma_pow2_le(100, (log + k) as nat);
            assert(mantissa * pow2(k as nat) >= pow2(log as nat) * pow2(k as nat))
                by (nonlinear_arith)
                requires
                    mantissa >= pow2(log as nat),
                    pow2(k as nat) > 0,
            ;
        }
        return FAR;
    }
    proof {
        lemma_shifted_bound(mantissa as nat, k as nat);
    }
    let size: u128 = shifted(mantissa, k);
    if size >= FAR as u128 {
        FAR
    } else {
        size as i128
    }
}

/// `mantissa / 2^k` rounded to the nearest integer, a half going up.
fn shrink(mantissa: u64, k: u32) -> (r: i128)
    requires
        mantissa < 0x20_0000_0000_0000,
        k > 0,
    ensures
        r == crate::int8::nearest_quotient(mantissa as int, pow2(k as nat) as int),
        0 <= r <= FAR,
{
    proof {
        lemma2_to64();
        lemma2_to64_rest();
        lemma_pow2_pos(k as nat);
    }
    if k > 60 {
        proof {
            lemma_pow2_le(60, k as nat);
            let d = pow2(k as nat) as int;
            lemma_basic_div(2 * mantissa + d, 2 * d);
        }
        return 0;
    }
    let d: u128 = shifted(1, k);
    proof {
        lemma_pow2_le(k as nat, 60);
        assert((2 * mantissa + d) / (2 * d) <= 2 * mantissa + d) by {
            lemma_div_nonincreasing(2 * mantissa + d, 2 * d);
        }
        lemma_div_pos_is_pos(2 * mantissa + d, 2 * d);
    }
    ((2 * (mantissa as u128) + d) / (2 * d)) as i128
}

/// A finite number rounded to the nearest integer, a half going away from
/// zero, and brought into the range `-FAR..=FAR`.
pub fn round_away(x: Number) -> (r: i128)
    requires
        within(x, 0x20_0000_0000_0000, 1100),
    ensures
        r == crate::int8::clamp_int(rounded_away(x), -FAR, FAR as int),
{
    match x {
        Number::Finite { negative, mantissa, exponent } => {
            let size: i128 = if exponent >= 0 {
                grow(mantissa, exponent as u32)
            } else {
                shrink(mantissa, (-exponent) as u32)
            };
            if negative {
                -size
            } else {
                size
            }
        },
        _ => 0,
    }
}

/// Rounding to the nearest integer is exact to one half.
pub proof fn law_half_even_is_nearest(n: nat, d: nat)
    requires
        d > 0,
    ensures
        -(d as int) <= 2 * (half_even(n, d) * d - n) <= d,
{
    let q = n / d;
    lemma_fundamental_div_mod(n as int, d as int);
    assert((q + 1) * d == q * d + d && d * q == q * d) by (nonlinear_arith);
}

/// A number whose mantissa fits in a format is not changed by rounding to that
/// format. So the product of two binary32 numbers is a binary64 number.
pub proof fn law_short_mantissa_is_exact(mantissa: nat, exponent: int, precision: int, least: int)
    requires
        0 < mantissa < pow2(precision as nat),
        precision >= 1,
        exponent >= least,
    ensures
        ({
            let u = unit_exponent(mantissa, 1, exponent, precision, least);
            u <= exponent && rounded_units(mantissa, 1, exponent, precision, least) == mantissa
                * pow2((exponent - u) as nat)
        }),
{
    let a = floor_log2(mantissa);
    lemma_floor_log2(mantissa);
    lemma2_to64();
    assert(floor_log2(1) == 0);
    if a >= precision {
        lemma_pow2_le(precision as nat, a);
    }
    assert(mantissa * pow2(0) == mantissa);
    let u = unit_exponent(mantissa, 1, exponent, precision, least);
    let n = lifted(mantissa, exponent - u);
    assert(u <= exponent);
    assert(n / 1 == n && n % 1 == 0);
    if exponent == u {
        assert(mantissa * pow2(0) == mantissa);
    }
}

/// Doubling adds one to the logarithm, so lifting adds the exponent.
proof fn lemma_floor_log2_lifted(m: nat, k: nat)
    requires
        m > 0,
    ensures
        floor_log2(m * pow2(k)) == floor_log2(m) + k,
    decreases k,
{
    lemma2_to64();
    if k == 0 {
        assert(m * 1 == m);
    } else {
        let half = m * pow2((k - 1) as nat);
        lemma_pow2_unfold(k);
        lemma_pow2_pos((k - 1) as nat);
        lemma_floor_log2_lifted(m, (k - 1) as nat);
        assert(m * pow2(k) == 2 * half) by (nonlinear_arith)
            requires
                pow2(k) == 2 * pow2((k - 1) as nat),
                half == m * pow2((k - 1) as nat),
        ;
        assert(half >= 1) by (nonlinear_arith)
            requires
                m >= 1,
                pow2((k - 1) as nat) >= 1,
                half == m * pow2((k - 1) as nat),
        ;
        assert((2 * half) / 2 == half);
    }
}

/// The quotient `m * 2^k / (m * 2^k)`, with the power of two on either side, is
/// one in binary64.
proof fn lemma_quotient_is_one(m: nat, k: nat)
    requires
        m > 0,
        k <= 52,
    ensures
        magnitude_bits(
            m * pow2(k),
            m,
            -(k as int),
            PRECISION_64 as int,
            LEAST_EXPONENT_64 as int,
            INFINITY_64 as int,
        ) == 0x3ff0_0000_0000_0000,
{
    let n = m * pow2(k);
    let a = floor_log2(n);
    let b = floor_log2(m);
    lemma_floor_log2_lifted(m, k);
    lemma_pow2_adds(b, k);
    lemma_pow2_pos(k);
    assert(n > 0) by (nonlinear_arith)
        requires
            m > 0,
            pow2(k) > 0,
            n == m * pow2(k),
    ;
    assert(n * pow2(b) == m * pow2(a)) by (nonlinear_arith)
        requires
            n == m * pow2(k),
            pow2(a) == pow2(b) * pow2(k),
    ;
    assert(leading_exponent(n, m, -(k as int)) == 0);
    let u = unit_exponent(n, m, -(k as int), PRECISION_64 as int, LEAST_EXPONENT_64 as int);
    assert(u == -52);
    let up = lifted(n, -(k as int) - u);
    lemma_pow2_adds(k, (52 - k) as nat);
    lemma2_to64();
    lemma2_to64_rest();
    assert(up == m * pow2(52)) by {
        if k < 52 {
            assert(n * pow2((52 - k) as nat) == m * pow2(52)) by (nonlinear_arith)
                requires
                    n == m * pow2(k),
                    pow2(52) == pow2(k) * pow2((52 - k) as nat),
            ;
        }
    }
    assert(lifted(m, u + k) == m);
    lemma_div_multiples_vanish(pow2(52) as int, m as int);
    assert(m * pow2(52) == pow2(52) * m) by (nonlinear_arith);
    assert((m * pow2(52)) % m == 0) by {
        lemma_mod_multiples_basic(pow2(52) as int, m as int);
    }
    assert((m * pow2(52)) / m == pow2(52));
    assert(half_even(up, m) == pow2(52));
    assert(pow2(52) == 0x10_0000_0000_0000);
    assert((u + 1074) * pow2(52) == 1022 * 0x10_0000_0000_0000) by (nonlinear_arith)
        requires
            u == -52,
            pow2(52) == 0x10_0000_0000_0000,
    ;
}

/// A scale over itself is one, and so is a scale times one over itself: nothing
/// is lost to rounding.
pub proof fn law_equal_scales_cancel(scale: u32)
    requires
        is_valid_scale(scale),
    ensures
        quotient64(denoted32(scale), denoted32(scale)) == 0x3ff0_0000_0000_0000,
        quotient64(product(denoted32(scale), denoted32(0x3f80_0000)), denoted32(scale))
            == 0x3ff0_0000_0000_0000,
{
    let x = denoted32(scale);
    let m = x->Finite_mantissa as nat;
    lemma2_to64();
    assert(m * 1 == m);
    lemma_quotient_is_one(m, 0);
    lemma_quotient_is_one(m, 23);
    assert(m * 0x80_0000 <= u64::MAX);
}

/// A quotient of two numbers without a minus sign has none.
pub proof fn law_quotient_keeps_sign(a: Number, b: Number)
    requires
        !sign_of(a),
        !sign_of(b),
    ensures
        quotient64(a, b) < 0x8000_0000_0000_0000,
{
    match (a, b) {
        (
            Number::Finite { negative: s, mantissa: m, exponent: e },
            Number::Finite { negative: t, mantissa: n, exponent: f },
        ) => {
            let u = unit_exponent(
                m as nat,
                n as nat,
                e - f,
                PRECISION_64 as int,
                LEAST_EXPONENT_64 as int,
            );
            lemma_pow2_pos(52);
            assert((u + 1074) * pow2(52) >= 0) by (nonlinear_arith)
                requires
                    u >= -1074,
                    pow2(52) >= 0,
            ;
        },
        _ => {},
    }
}

/// A quotient half-way between two integers goes to the even one.
pub proof fn law_halves_go_to_even(q: nat, d: nat, n: nat)
    requires
        d > 0,
        2 * n == 2 * (q * d) + d,
    ensures
        half_even(n, d) % 2 == 0,
        half_even(n, d) == q || half_even(n, d) == q + 1,
{
    assert(n / d == q && n % d == n - q * d) by {
        lemma_fundamental_div_mod_converse(n as int, d as int, q as int, n - q * d);
    }
}

/// The larger of two numbers is one of them and not below the other, and where
/// one is undefined it is the other one. Equal numbers are neither undefined nor
/// one below the other.
pub proof fn law_larger_is_not_below(a: u32, b: u32)
    ensures
        larger(a, b) == a || larger(a, b) == b,
        a < 0x8000_0000 && b < 0x8000_0000 && a <= 0x7f80_0000 && b <= 0x7f80_0000 ==> larger(a, b)
            >= a && larger(a, b) >= b,
        0x7f80_0000 < a < 0x8000_0000 ==> larger(a, b) == b && !equal_numbers(a, b),
        0x7f80_0000 < b < 0x8000_0000 && a <= 0x7f80_0000 ==> larger(a, b) == a && !equal_numbers(
            a,
            b,
        ),
        a <= 0x7f80_0000 && b <= 0x7f80_0000 ==> (equal_numbers(a, b) <==> a == b),
        equal_numbers(0, 0x8000_0000),
{
}

} // verus!
