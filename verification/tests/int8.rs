//! Fixed-point arithmetic against plain formulas.

use hematite::int8::{
    multiply_by_quantized_multiplier, quantize_multiplier, requantize, rounding_divide_by_pot,
    saturating_cast,
};
use hematite::op_params::PerChannelQuantParam;

#[test]
fn test_quantize_multiplier_exact_half() {
    // scale = 0.5 → frexp(0.5) = (0.5, 0). sig * 2^31 = 2^30 = 1073741824. shift = 0.
    let (m, s) = quantize_multiplier(0.5f64.to_bits());
    assert_eq!(m, 1i32 << 30, "quantize_multiplier(0.5) multiplier");
    assert_eq!(s, 0, "quantize_multiplier(0.5) shift");
}

#[test]
fn test_quantize_multiplier_one() {
    // scale = 1.0 → frexp(1.0) = (0.5, 1) → sig*2^31 = 2^30, shift = 1
    let (m, s) = quantize_multiplier(1.0f64.to_bits());
    assert_eq!(m, 1i32 << 30, "quantize_multiplier(1.0) multiplier");
    assert_eq!(s, 1, "quantize_multiplier(1.0) shift");
}

#[test]
fn test_quantize_multiplier_zero() {
    let (m, s) = quantize_multiplier(0.0f64.to_bits());
    assert_eq!(m, 0);
    assert_eq!(s, 0);
}

#[test]
fn test_quantize_multiplier_carry_fix() {
    // scale = 0.75 → frexp(0.75) = (0.75, 0). sig*2^31 = 1610612736. shift=0.
    let (m, s) = quantize_multiplier(0.75f64.to_bits());
    // 0.75 * 2^31 = 1610612736 → fits in i32, no carry fix needed
    assert_eq!(m, 1610612736);
    assert_eq!(s, 0);
}

#[test]
fn test_quantize_multiplier_identity_roundtrip() {
    // scale 1.0 → (1<<30, 1) → multiply_by_quantized_multiplier with those
    // params should be identity for small integers.
    let (m, s) = quantize_multiplier(1.0f64.to_bits());
    for &x in &[-127, -64, -8, -1, 0, 1, 8, 64, 127] {
        assert_eq!(
            multiply_by_quantized_multiplier(x, m, s),
            x,
            "multiply_by_quantized_multiplier({x}, 1<<30, 1) must be identity"
        );
    }
}

#[test]
fn test_quantize_multiplier_tiny_scale_flushed_to_zero() {
    // scale < 2^-32 → flushed to (0, 0)
    let (m, s) = quantize_multiplier(1e-10f64.to_bits());
    assert_eq!(m, 0);
    assert_eq!(s, 0);
}

#[test]
fn test_quantize_multiplier_large_scale() {
    // scale = 100.0 → should produce valid multiplier/shift
    let (m, s) = quantize_multiplier(100.0f64.to_bits());
    // multiplier must be non-negative and fit in Q0.31 (carry fix
    // prevents overflow; result is always in [0, i32::MAX]).
    assert!(m >= 0, "multiplier must be non-negative, got {m}");
    // spot-check: 100.0 * 2^31 * 2^-7 ≈ 1677721600
    assert!((1i64 << 30) <= i64::from(m) && i64::from(m) <= i64::from(i32::MAX),
        "multiplier {m} not in Q0.31 range");
    // Verify effective scale ≈ 100.0
    let recovered = f64::from(m) / ((1u64 << 31) as f64) * (2.0f64.powi(s));
    assert!((recovered - 100.0).abs() < 1.0,
        "recovered scale {recovered} too far from 100.0, m={m} s={s}");
}

/// The product in 64 bits, rounded once.
fn ref_i64(value: i32, multiplier: i32, shift: i32) -> i32 {
    let total_shift = 31i64 - i64::from(shift);
    let round = 1i64 << (total_shift - 1);
    let result = i64::from(value) * i64::from(multiplier) + round;
    let result = result >> total_shift;
    if result > i64::from(i32::MAX) {
        i32::MAX
    } else if result < i64::from(i32::MIN) {
        i32::MIN
    } else {
        result as i32
    }
}

/// Deterministic PRNG (xorshift64) for reproducible exhaustive sampling.
struct Rng(u64);
impl Rng {
    fn next(&mut self) -> u64 {
        let mut x = self.0;
        x ^= x << 13;
        x ^= x >> 7;
        x ^= x << 17;
        self.0 = x;
        x
    }
    fn next_i32(&mut self) -> i32 {
        self.next() as u32 as i32
    }
}

#[test]
fn multiply_matches_i64_reference_random() {
    let mut rng = Rng(0x1234_5678_9abc_def0);
    for shift in -31..=30 {
        for _ in 0..20_000 {
            let value = rng.next_i32();
            let multiplier = rng.next_i32();
            let got = multiply_by_quantized_multiplier(value, multiplier, shift);
            let want = ref_i64(value, multiplier, shift);
            assert_eq!(got, want, "mismatch value={value} mult={multiplier} shift={shift}");
        }
    }
}

#[test]
fn multiply_matches_i64_reference_boundaries() {
    // Exhaustive value boundaries around sign/overflow edges × sample
    // multipliers representative of Q0.31 scales.
    let values = [
        i32::MIN,
        i32::MIN + 1,
        -1 << 30,
        -(1 << 30) - 1,
        -1 << 29,
        -(1 << 29) - 1,
        -16_384,
        -1,
        0,
        1,
        16_383,
        16_384,
        (1 << 29) - 1,
        1 << 29,
        (1 << 30) - 1,
        1 << 30,
        i32::MAX - 1,
        i32::MAX,
    ];
    let multipliers = [
        i32::MIN,
        -(1 << 30),
        -16_384,
        -1,
        0,
        1,
        2,
        16_383,
        16_384,
        (1 << 29) - 1,
        1 << 29,
        (1 << 30) - 1,
        1 << 30,
        i32::MAX - 1,
        i32::MAX,
    ];
    for &shift in &[-31, -30, -16, -1, 0, 1, 2, 15, 29, 30] {
        for &value in &values {
            for &multiplier in &multipliers {
                let got = multiply_by_quantized_multiplier(value, multiplier, shift);
                let want = ref_i64(value, multiplier, shift);
                assert_eq!(got, want, "boundary mismatch value={value} mult={multiplier} shift={shift}");
            }
        }
    }
}

#[test]
fn uniform_identity_and_half_round() {
    // identity pair (1<<30, shift=1) and half-round (1<<30, shift=0)
    for v in [-128, -1, 0, 1, 127] {
        assert_eq!(
            multiply_by_quantized_multiplier(v, 1 << 30, 1),
            v,
            "identity pair must be identity"
        );
        let want = ref_i64(v, 1 << 30, 0);
        assert_eq!(multiply_by_quantized_multiplier(v, 1 << 30, 0), want);
    }
}

/// Division by a power of two with shifts and masks.
fn ref_rounding_divide_by_pot(x: i32, exponent: i32) -> i32 {
    if exponent == 0 {
        return x;
    }
    let mask = (1i32 << exponent) - 1;
    let remainder = x & mask;
    let threshold = (mask >> 1) + i32::from(x < 0);
    (x >> exponent) + i32::from(remainder > threshold)
}

/// A clamp to activation bounds.
fn ref_clamp_to_i8(value: i32, activation_min: i32, activation_max: i32) -> i8 {
    value.max(activation_min).min(activation_max) as i8
}

/// A product and a clamp.
fn ref_requantize_i8(
    acc: i32,
    output_multiplier: i32,
    output_shift: i32,
    activation_min: i32,
    activation_max: i32,
) -> i8 {
    let scaled = ref_i64(acc, output_multiplier, output_shift);
    ref_clamp_to_i8(scaled, activation_min, activation_max)
}

// ── Differential sweep: multiply_by_quantized_multiplier ──

#[test]
fn test_multiply_differential_sweep() {
    // Values spanning most of the i32 range with step ~2^15, plus adversarial edges.
    let mut values: Vec<i32> = (-(1i32 << 24)..=(1i32 << 24))
        .step_by((1usize << 15) as usize)
        .collect();
    // Adversarial set: extremes, zero, ±1, powers of two near the edges
    let adversarial = [
        i32::MIN,
        i32::MAX,
        0,
        1,
        -1,
        1i32 << 30,
        -(1i32 << 30),
        i32::MAX - 1,
        i32::MIN + 1,
    ];
    values.extend_from_slice(&adversarial);

    let multipliers: [i32; 6] = [
        0,
        1,
        2,
        3,
        1i32 << 30, // Q0.31 half-scale
        i32::MAX,   // Q0.31 one-point-zero
    ];

    // all shifts in [-31, 30]
    let shifts: Vec<i32> = (-31..=30).collect();

    let mut tested = 0usize;
    for &v in &values {
        for &m in &multipliers {
            for &s in &shifts {
                let actual = multiply_by_quantized_multiplier(v, m, s);
                let expected = ref_i64(v, m, s);
                assert_eq!(
                    actual, expected,
                    "multiply_by_quantized_multiplier diverge: \
                     value={v}, multiplier={m}, shift={s}, \
                     actual={actual}, expected={expected}"
                );
                tested += 1;
            }
        }
    }
    // sanity: we tested a non-trivial number of combinations
    assert!(tested > 100_000, "only tested {tested} combinations — sweep too small");
}

// ── Boundary tests: multiply_by_quantized_multiplier ──

#[test]
fn test_multiply_no_shift() {
    let m = 1i32 << 30; // effective scale = 0.5
    assert_eq!(multiply_by_quantized_multiplier(100, m, 0), 50);
}

#[test]
fn test_multiply_rounding_boundary_half_up_positive() {
    // 1 * 0.5 = 0.5 → round half up → 1
    let m = 1i32 << 30;
    assert_eq!(multiply_by_quantized_multiplier(1, m, 0), 1);
}

#[test]
fn test_multiply_rounding_boundary_half_up_negative() {
    // -1 * 0.5 = -0.5 → round-half-up biases toward +∞ → 0
    // (rounded once: (-1*2^30 + 2^30) >> 31 = 0 >> 31 = 0)
    let m = 1i32 << 30;
    assert_eq!(multiply_by_quantized_multiplier(-1, m, 0), 0);
}

#[test]
fn test_multiply_rounding_positive_three_half() {
    // 3 * 0.5 = 1.5 → round-half-up → 2
    let m = 1i32 << 30;
    assert_eq!(multiply_by_quantized_multiplier(3, m, 0), 2);
}

#[test]
fn test_multiply_rounding_exact() {
    // 2 * 0.5 = 1.0 → exact
    let m = 1i32 << 30;
    assert_eq!(multiply_by_quantized_multiplier(2, m, 0), 1);
}

#[test]
fn test_multiply_rounding_negative_exact() {
    let m = 1i32 << 30;
    assert_eq!(multiply_by_quantized_multiplier(-50, m, 0), -25);
}

#[test]
fn test_multiply_with_positive_shift() {
    // multiplier=2^30, shift=1 → effective scale = 2^30/2^31 * 2^1 = 1.0
    let m = 1i32 << 30;
    assert_eq!(multiply_by_quantized_multiplier(42, m, 1), 42);
}

#[test]
fn test_multiply_with_negative_shift() {
    // multiplier=2^30, shift=-1 → effective scale = 2^30/2^31 * 2^-1 = 0.25
    let m = 1i32 << 30;
    assert_eq!(multiply_by_quantized_multiplier(100, m, -1), 25);
}

#[test]
fn test_multiply_scale_gt_1() {
    let m = 1i32 << 30;
    let shift = 2;
    assert_eq!(multiply_by_quantized_multiplier(5, m, shift), 10);
    assert_eq!(multiply_by_quantized_multiplier(-3, m, shift), -6);
}

#[test]
fn test_multiply_doubled_high_mul_boundary() {
    // A product that lies exactly between two integers rounds up.
    let m = 1i32 << 30;
    assert_eq!(multiply_by_quantized_multiplier(3, m, 0), 2, "3*0.5=1.5→2 boundary");
    assert_eq!(multiply_by_quantized_multiplier(1, m, 0), 1, "1*0.5=0.5→1 boundary");
}

// ── rounding_divide_by_pot tests ──

#[test]
fn test_rounding_divide_by_pot_exact_zero_exp() {
    assert_eq!(rounding_divide_by_pot(42, 0), 42);
}

#[test]
fn test_rounding_divide_by_pot_positive_half_up() {
    // 3 / 2 = 1.5 → ties away from zero → 2
    assert_eq!(rounding_divide_by_pot(3, 1), 2);
    // 1 / 2 = 0.5 → ties away from zero → 1
    assert_eq!(rounding_divide_by_pot(1, 1), 1);
}

#[test]
fn test_rounding_divide_by_pot_positive_exact() {
    assert_eq!(rounding_divide_by_pot(4, 1), 2);
    assert_eq!(rounding_divide_by_pot(8, 2), 2);
}

#[test]
fn test_rounding_divide_by_pot_positive_tie_away_from_zero() {
    // 39 / 2 = 19.5 → ties away from zero → 20
    assert_eq!(rounding_divide_by_pot(39, 1), 20);
}

// ── Negative-tie regressions ──

#[test]
fn test_rounding_divide_by_pot_neg_39_exp_1() {
    // -39 / 2 = -19.5 → ties AWAY from zero → -20 (NOT -19)
    assert_eq!(rounding_divide_by_pot(-39, 1), -20);
}

#[test]
fn test_rounding_divide_by_pot_neg_38_exp_2() {
    // -38 / 4 = -9.5 → ties away from zero → -10
    assert_eq!(rounding_divide_by_pot(-38, 2), -10);
}

#[test]
fn test_rounding_divide_by_pot_neg_36_exp_3() {
    // -36 / 8 = -4.5 → ties away from zero → -5
    assert_eq!(rounding_divide_by_pot(-36, 3), -5);
}

#[test]
fn test_rounding_divide_by_pot_negative_not_tie() {
    // -37 / 2 = -18.5 → away from zero → -19
    assert_eq!(rounding_divide_by_pot(-37, 1), -19);
    // -39 / 4 = -9.75 → away from zero → -10
    assert_eq!(rounding_divide_by_pot(-39, 2), -10);
}

#[test]
fn test_rounding_divide_by_pot_negative_exact() {
    assert_eq!(rounding_divide_by_pot(-4, 1), -2);
    assert_eq!(rounding_divide_by_pot(-8, 2), -2);
}

#[test]
fn test_rounding_divide_by_pot_all_negative_ties() {
    // Cross-check against the local reference for all negative tie cases
    for &(x, exp, expected) in &[(-39, 1, -20), (-38, 2, -10), (-36, 3, -5), (39, 1, 20)] {
        let actual = rounding_divide_by_pot(x, exp);
        let ref_val = ref_rounding_divide_by_pot(x, exp);
        assert_eq!(actual, expected, "rounding_divide_by_pot({x}, {exp}) = {actual}, expected {expected}");
        assert_eq!(actual, ref_val, "rounding_divide_by_pot({x}, {exp}) diverged from reference: {actual} vs {ref_val}");
    }
}

// ── rounding_divide_by_pot differential sweep ──

#[test]
fn test_rounding_divide_by_pot_differential_sweep() {
    let values: Vec<i32> = (-(1i32 << 16)..=(1i32 << 16))
        .step_by(997) // ~131 values, covers both positive and negative
        .collect();
    // Add adversarial edges
    let mut all_values = values;
    all_values.extend_from_slice(&[
        i32::MIN, i32::MIN + 1, i32::MAX, i32::MAX - 1,
        0, 1, -1, 2, -2, 3, -3,
    ]);

    // Exponents used in practice (small values)
    let exponents: [i32; 5] = [0, 1, 2, 3, 4];

    let mut tested = 0usize;
    for &v in &all_values {
        for &e in &exponents {
            let actual = rounding_divide_by_pot(v, e);
            let expected = ref_rounding_divide_by_pot(v, e);
            assert_eq!(
                actual, expected,
                "rounding_divide_by_pot diverge: x={v}, exp={e}, actual={actual}, expected={expected}"
            );
            tested += 1;
        }
    }
    assert!(tested > 100, "only tested {tested} combinations — sweep too small");
}

// ── saturating_cast tests ──

#[test]
fn test_saturating_cast_in_range_values() {
    assert_eq!(saturating_cast(0), 0);
    assert_eq!(saturating_cast(42), 42);
    assert_eq!(saturating_cast(-42), -42);
    assert_eq!(saturating_cast(127), 127);
    assert_eq!(saturating_cast(-128), -128);
    assert_eq!(saturating_cast(i32::MAX), 127);
    assert_eq!(saturating_cast(i32::MIN), -128);
}

#[test]
fn test_saturating_cast_boundaries() {
    assert_eq!(saturating_cast(128), 127);
    assert_eq!(saturating_cast(-129), -128);
    assert_eq!(saturating_cast(1000), 127);
    assert_eq!(saturating_cast(-1000), -128);
}

// ── requantize tests ──

#[test]
fn test_requantize_per_channel_smoke() {
    // Two channels: ch0 has scale 0.5, ch1 has scale 1.0
    let multipliers: &[i32] = &[1i32 << 30, 1i32 << 30];
    let shifts: &[i32] = &[0, 1]; // ch0: effective 0.5, ch1: effective 1.0
    let params = PerChannelQuantParam {
        output_multiplier_per_channel: multipliers,
        output_shift_per_channel: shifts,
    };

    // acc=100: ch0 → 100*0.5=50, ch1 → 100*1.0=100
    assert_eq!(requantize(100, &params, 0), 50);
    assert_eq!(requantize(100, &params, 1), 100);
}

#[test]
fn test_requantize_saturates_to_i8() {
    let multipliers: &[i32] = &[1i32 << 30];
    let shifts: &[i32] = &[10]; // huge effective scale to force saturation
    let params = PerChannelQuantParam {
        output_multiplier_per_channel: multipliers,
        output_shift_per_channel: shifts,
    };

    assert_eq!(requantize(1000, &params, 0), 127);
    assert_eq!(requantize(-1000, &params, 0), -128);
}

#[test]
fn test_requantize_out_of_bounds_channel() {
    let multipliers: &[i32] = &[1i32 << 30];
    let shifts: &[i32] = &[0];
    let params = PerChannelQuantParam {
        output_multiplier_per_channel: multipliers,
        output_shift_per_channel: shifts,
    };

    // channel 99 is OOB → should return saturating_cast(acc)
    assert_eq!(requantize(50, &params, 99), 50);
    assert_eq!(requantize(200, &params, 99), 127);
}

#[test]
fn test_requantize_differential_against_reference() {
    // Our requantize (without offset/activation) should match the reference's
    // multiply+clamp path for the full i8 range.
    let multipliers: &[i32] = &[1i32 << 30, 1i32 << 30, 1i32 << 30];
    let shifts: &[i32] = &[0, -1, 2];
    let params = PerChannelQuantParam {
        output_multiplier_per_channel: multipliers,
        output_shift_per_channel: shifts,
    };

    let test_values: [i32; 9] = [-127, -64, -8, -1, 0, 1, 8, 64, 127];

    for ch in 0..3 {
        let m = multipliers[ch];
        let s = shifts[ch];
        for &v in &test_values {
            let actual = requantize(v, &params, ch);
            // Reference with full i8 range activation bounds (no offset)
            let expected = ref_requantize_i8(v, m, s, -128, 127);
            assert_eq!(
                actual, expected,
                "requantize({v}, ch={ch}) diverge: actual={actual}, expected={expected}"
            );
        }
    }
}

#[test]
fn test_requantize_empty_slices() {
    let params = PerChannelQuantParam {
        output_multiplier_per_channel: &[],
        output_shift_per_channel: &[],
    };
    // Any channel is out of bounds → return saturating_cast(acc)
    assert_eq!(requantize(50, &params, 0), 50);
    assert_eq!(requantize(200, &params, 0), 127);
}

#[test]
fn the_smallest_normalized_scale_is_kept() {
    // 2^-32 has the exponent -31 with the significand one half.
    assert_eq!(quantize_multiplier(2.0f64.powi(-32).to_bits()), (1 << 30, -31));
    assert_eq!(quantize_multiplier(2.0f64.powi(-33).to_bits()), (0, 0));
}

#[test]
fn a_significand_that_rounds_up_to_one_carries() {
    // Just below one: the significand rounds to 2^31, halves, and the shift grows.
    let below_one = f64::from_bits(1.0f64.to_bits() - 1);
    assert_eq!(quantize_multiplier(below_one.to_bits()), (1 << 30, 1));
}

#[test]
fn pairs_agree_with_the_floating_formula() {
    // The significand in [0.5, 1), times 2^31, plus a half, truncated.
    let mut rng = Rng(0x9e37_79b9_7f4a_7c15);
    for _ in 0..200_000 {
        let bits = rng.next() & 0x7fff_ffff_ffff_ffff;
        let x = f64::from_bits(bits);
        if !x.is_finite() || x == 0.0 {
            continue;
        }
        let field = ((bits >> 52) & 0x7ff) as i32;
        let sig = f64::from_bits(0x3fe0_0000_0000_0000 | (bits & 0x000f_ffff_ffff_ffff));
        let mut shift = field - 1022;
        let mut fixed = (sig * (1u64 << 31) as f64 + 0.5) as i64;
        if fixed == 1 << 31 {
            fixed /= 2;
            shift += 1;
        }
        let want = if shift < -31 { (0, 0) } else { (fixed as i32, shift) };
        assert_eq!(quantize_multiplier(bits), want, "{x:e}");
    }
}

#[test]
fn negative_and_undefined_scales_follow_the_floating_formula() {
    for x in [-0.75f64, -1.0, -3.5, -1e-3, f64::NAN, f64::INFINITY, f64::NEG_INFINITY, 1e-320] {
        let bits = x.to_bits();
        let field = ((bits >> 52) & 0x7ff) as i32;
        let sig = f64::from_bits(
            (bits & 0x8000_0000_0000_0000) | 0x3fe0_0000_0000_0000 | (bits & 0x000f_ffff_ffff_ffff),
        );
        let mut shift = field - 1022;
        let mut fixed = (sig * (1u64 << 31) as f64 + 0.5) as i64;
        if fixed == 1 << 31 {
            fixed /= 2;
            shift += 1;
        }
        let want = if shift < -31 { (0, 0) } else { (fixed as i32, shift) };
        assert_eq!(quantize_multiplier(bits), want, "{x:e}");
    }
}

#[test]
fn a_larger_value_never_gives_a_smaller_product() {
    let mut last = i32::MIN;
    for value in -5000..5000 {
        let next = multiply_by_quantized_multiplier(value, 1_717_986_918, -2);
        assert!(next >= last);
        last = next;
    }
}

#[test]
fn division_is_odd() {
    for x in [1, 2, 3, 7, 39, 1000, i32::MAX] {
        for exponent in 0..31 {
            assert_eq!(rounding_divide_by_pot(-x, exponent), -rounding_divide_by_pot(x, exponent));
        }
    }
}

#[test]
fn a_channel_outside_either_slice_is_only_saturated() {
    let params = PerChannelQuantParam {
        output_multiplier_per_channel: &[1 << 30, 1 << 30],
        output_shift_per_channel: &[0],
    };
    assert_eq!(requantize(200, &params, 1), 127);
    assert_eq!(requantize(100, &params, 0), 50);
    let params = PerChannelQuantParam {
        output_multiplier_per_channel: &[1 << 30],
        output_shift_per_channel: &[0, 0],
    };
    assert_eq!(requantize(-200, &params, 1), -128);
}
