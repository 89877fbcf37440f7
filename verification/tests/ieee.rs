//! Bit patterns against the floating-point unit.

use hematite::ieee::{
    decode32, decode64, divide32, divide64, integer_of, larger_of, multiply, numbers_equal,
    round_away, round_integer, Number,
};
use hematite::requant::{
    act_range, add_input_pair, add_output_pair, product_ratio_pair, ratio_pair, six_in_steps,
    UNIT_SCALE,
};
use hematite::int8::quantize_multiplier;

struct Rng(u64);

impl Rng {
    fn next(&mut self) -> u64 {
        let mut x = self.0;
        x ^= x << 13;
        x ^= x >> 7;
        x ^= x << 17;
        self.0 = x;
        x
    }
}

/// Patterns of every kind: zeros, subnormal and normal numbers, infinities and
/// undefined ones.
fn patterns(rng: &mut Rng, n: usize) -> Vec<u32> {
    let mut list = vec![
        0x0000_0000,
        0x8000_0000,
        0x0000_0001,
        0x8000_0001,
        0x007f_ffff,
        0x0080_0000,
        0x3f7f_ffff,
        0x3f80_0000,
        0x3f80_0001,
        0x7f7f_ffff,
        0xff7f_ffff,
        0x7f80_0000,
        0xff80_0000,
        0x7fc0_0000,
    ];
    for _ in 0..n {
        list.push(rng.next() as u32);
    }
    list
}

fn same64(bits: u64, x: f64) -> bool {
    if x.is_nan() {
        f64::from_bits(bits).is_nan()
    } else {
        bits == x.to_bits()
    }
}

fn same32(bits: u32, x: f32) -> bool {
    if x.is_nan() {
        f32::from_bits(bits).is_nan()
    } else {
        bits == x.to_bits()
    }
}

#[test]
fn quotients_in_binary64_are_rounded_as_the_machine_does() {
    let mut rng = Rng(0x1234_5678_9abc_def1);
    let list = patterns(&mut rng, 300);
    for &a in &list {
        for &b in &list {
            let want = f64::from(f32::from_bits(a)) / f64::from(f32::from_bits(b));
            let got = divide64(decode32(a), decode32(b));
            assert!(same64(got, want), "{a:#x} / {b:#x}: {got:#x}");
        }
    }
}

#[test]
fn quotients_in_binary32_are_rounded_as_the_machine_does() {
    let mut rng = Rng(0x2234_5678_9abc_def1);
    let list = patterns(&mut rng, 300);
    for &a in &list {
        for &b in &list {
            let want = f32::from_bits(a) / f32::from_bits(b);
            let got = divide32(decode32(a), decode32(b));
            assert!(same32(got, want), "{a:#x} / {b:#x}: {got:#x}");
        }
    }
}

#[test]
fn products_of_two_scales_are_exact() {
    let mut rng = Rng(0x3234_5678_9abc_def1);
    let list = patterns(&mut rng, 60);
    for &a in &list {
        for &b in &list {
            for &c in &list {
                let want = f64::from(f32::from_bits(a)) * f64::from(f32::from_bits(b))
                    / f64::from(f32::from_bits(c));
                let got = divide64(multiply(decode32(a), decode32(b)), decode32(c));
                assert!(same64(got, want), "{a:#x} * {b:#x} / {c:#x}: {got:#x}");
            }
        }
    }
}

#[test]
fn ratios_become_the_pairs_of_the_floating_formula() {
    let mut rng = Rng(0x4234_5678_9abc_def1);
    for _ in 0..20_000 {
        let s = |r: &mut Rng| ((r.next() as u32) % 0x1000_0000) + 0x3800_0000;
        let (a, b, c) = (s(&mut rng), s(&mut rng), s(&mut rng));
        let f = |bits: u32| f64::from(f32::from_bits(bits));
        let qm = |x: f64| quantize_multiplier(x.to_bits());
        assert_eq!(ratio_pair(a, b), qm(f(a) / f(b)));
        assert_eq!(product_ratio_pair(a, b, c), qm(f(a) * f(b) / f(c)));
        assert_eq!(ratio_pair(a, UNIT_SCALE), qm(f(a)));
        let twice_max = 2.0 * f(a).max(f(b));
        assert_eq!(add_input_pair(a, a, b), qm(f(a) / twice_max));
        assert_eq!(add_input_pair(b, a, b), qm(f(b) / twice_max));
        assert_eq!(add_output_pair(a, b, c), qm(twice_max / ((1i32 << 20) as f64 * f(c))));
    }
}

#[test]
fn equality_and_maximum_are_those_of_numbers() {
    let mut rng = Rng(0x5234_5678_9abc_def1);
    let list = patterns(&mut rng, 100);
    for &a in &list {
        for &b in &list {
            let (x, y) = (f32::from_bits(a), f32::from_bits(b));
            assert_eq!(numbers_equal(a, b), x == y, "{a:#x} == {b:#x}");
            let want = f64::from(x).max(f64::from(y));
            let got = f64::from(f32::from_bits(larger_of(a, b)));
            assert!(got == want || (got.is_nan() && want.is_nan()), "max({a:#x}, {b:#x})");
        }
    }
}

#[test]
fn integers_are_rounded_as_the_machine_does() {
    let mut rng = Rng(0x6234_5678_9abc_def1);
    for _ in 0..50_000 {
        let k = rng.next() as i64 >> (rng.next() % 64);
        assert_eq!(integer_of(round_integer(k as i128, 53)), (k as f64) as i128);
        assert_eq!(integer_of(round_integer(k as i128, 24)), (k as f32) as i128);
    }
}

#[test]
fn halves_round_away_from_zero() {
    for x in [0.5f64, 1.5, 2.5, -0.5, -1.5, 0.49999999999999994, 6.0, 1e15 + 0.5, -3.2] {
        assert_eq!(round_away(decode64(x.to_bits())), x.round() as i128, "{x}");
    }
    assert_eq!(round_away(Number::Undefined), 0);
    for scale in [0.1f32, 0.0235, 1.0, 3.7, 1e-20] {
        let want = (6.0 / f64::from(scale)).round() as i128;
        assert_eq!(six_in_steps(scale.to_bits()), want.min(1 << 100), "{scale}");
    }
}

#[test]
fn activations_clamp_to_their_quantized_range() {
    let reference = |act: i8, scale: f64, zp: i32| -> (i32, i32) {
        if scale <= 0.0 {
            return (-128, 127);
        }
        match act {
            1 => (zp.max(-128), 127),
            3 => (zp.max(-128), (zp + (6.0 / scale).round() as i32).min(127)),
            _ => (-128, 127),
        }
    };
    for act in [0i8, 1, 2, 3, 4, -1] {
        for scale in [0.0f32, -1.0, 0.0235, 0.1, 1.0, 5.0] {
            for zp in [-128, -1, 0, 5, 127] {
                assert_eq!(
                    act_range(act, scale.to_bits(), zp),
                    reference(act, f64::from(scale), zp),
                    "{act} {scale} {zp}"
                );
            }
        }
    }
}

#[test]
fn equal_scales_change_nothing() {
    for scale in [1e-3f32, 0.1, 1.0 / 3.0, 1.0, 7.5, f32::MIN_POSITIVE, f32::MAX] {
        let bits = scale.to_bits();
        assert_eq!(ratio_pair(bits, bits), (1 << 30, 1));
        assert_eq!(product_ratio_pair(bits, UNIT_SCALE, bits), (1 << 30, 1));
    }
}

#[test]
fn pairs_have_a_multiplier_of_at_least_a_half() {
    let mut rng = Rng(0x7234_5678_9abc_def1);
    for &a in &patterns(&mut rng, 200) {
        for &b in &patterns(&mut rng, 200) {
            let (a, b) = (a & 0x7fff_ffff, b & 0x7fff_ffff);
            let (multiplier, shift) = ratio_pair(a, b);
            assert!((multiplier, shift) == (0, 0) || (multiplier >= 1 << 30 && shift >= -31));
        }
    }
}

#[test]
fn the_sign_of_a_quotient_is_that_of_its_operands() {
    for (a, b) in [(1.5f32, 3.0f32), (-1.5, 3.0), (1.5, -3.0), (-1.5, -3.0), (0.0, -2.0)] {
        let got = divide64(decode32(a.to_bits()), decode32(b.to_bits()));
        assert_eq!(got >> 63 == 1, (a / b).is_sign_negative());
    }
}
