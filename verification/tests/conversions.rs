use lib::f80::{f80_exact_f64_bits, f32_bits_snan, f64_bits_snan, F80};
use lib::ops::{
    f32_to_f80, f64_to_f80, fpu_arm_ok, fpu_load_i16, fpu_load_i64, i32_to_f80, i64_to_f80,
    single_arm_ok, single_to_double_bits,
};
use lib::state::{fpu_canonical, FpuState, FPU_EX_I, FPU_RELAXED_TAG};

fn f(mantissa: u64, sign_exponent: u16) -> F80 {
    F80 { mantissa, sign_exponent }
}

#[test]
fn widen_double_normals() {
    assert_eq!(F80::of_f64(1.0f64.to_bits()), f(0x8000_0000_0000_0000, 0x3FFF));
    assert_eq!(F80::of_f64((-2.0f64).to_bits()), f(0x8000_0000_0000_0000, 0xC000));
    assert_eq!(F80::of_f64(1.5f64.to_bits()), f(0xC000_0000_0000_0000, 0x3FFF));
    assert_eq!(F80::of_f64(f64::MAX.to_bits()), f(0xFFFF_FFFF_FFFF_F800, 0x43FE));
}

#[test]
fn widen_double_specials() {
    assert_eq!(F80::of_f64(0), f(0, 0));
    assert_eq!(F80::of_f64(0x8000_0000_0000_0000), f(0, 0x8000));
    assert_eq!(F80::of_f64(f64::INFINITY.to_bits()), f(0x8000_0000_0000_0000, 0x7FFF));
    assert_eq!(F80::of_f64(f64::NEG_INFINITY.to_bits()), f(0x8000_0000_0000_0000, 0xFFFF));
    // A signalling NaN comes out quiet, its payload kept.
    assert_eq!(F80::of_f64(0x7FF0_0000_0000_0001), f(0xC000_0000_0000_0800, 0x7FFF));
    assert_eq!(F80::of_f64(0xFFF8_0000_0000_0000), f(0xC000_0000_0000_0000, 0xFFFF));
    assert!(f64_bits_snan(0x7FF0_0000_0000_0001));
    assert!(!f64_bits_snan(0x7FF8_0000_0000_0000));
    assert!(!f64_bits_snan(f64::INFINITY.to_bits()));
}

#[test]
fn widen_double_denormals() {
    // The smallest denormal, 2^-1074.
    assert_eq!(F80::of_f64(1), f(0x8000_0000_0000_0000, 0x3FFF - 1074));
    // The largest denormal: 52 significant bits, exponent 2^-1023.
    assert_eq!(F80::of_f64(0x000F_FFFF_FFFF_FFFF), f(0xFFFF_FFFF_FFFF_F000, 0x3FFF - 1023));
    assert_eq!(F80::of_f64(0x8000_0000_0000_0003), f(0xC000_0000_0000_0000, 0x8000 + 0x3FFF - 1073));
}

#[test]
fn widen_single() {
    assert_eq!(F80::of_f32(1.0f32.to_bits() as i32), f(0x8000_0000_0000_0000, 0x3FFF));
    assert_eq!(F80::of_f32((-0.75f32).to_bits() as i32), f(0xC000_0000_0000_0000, 0xBFFE));
    assert_eq!(F80::of_f32(1), f(0x8000_0000_0000_0000, 0x3FFF - 149));
    assert_eq!(F80::of_f32(0x7F80_0001), f(0xC000_0100_0000_0000, 0x7FFF));
    assert_eq!(F80::of_f32(f32::INFINITY.to_bits() as i32), f(0x8000_0000_0000_0000, 0x7FFF));
    assert!(f32_bits_snan(0x7F80_0001));
    assert!(!f32_bits_snan(0x7FC0_0000));
}

#[test]
fn widen_integers() {
    assert_eq!(i32_to_f80(0), f(0, 0));
    assert_eq!(i32_to_f80(1), f(0x8000_0000_0000_0000, 0x3FFF));
    assert_eq!(i32_to_f80(-1), f(0x8000_0000_0000_0000, 0xBFFF));
    assert_eq!(i32_to_f80(3), f(0xC000_0000_0000_0000, 0x4000));
    assert_eq!(i32_to_f80(i32::MIN), f(0x8000_0000_0000_0000, 0xC01E));
    assert_eq!(i64_to_f80(i64::MIN), f(0x8000_0000_0000_0000, 0xC03E));
    assert_eq!(i64_to_f80(i64::MAX), f(0xFFFF_FFFF_FFFF_FFFE, 0x403D));
    assert_eq!(fpu_load_i16(0xFFFE), f(0x8000_0000_0000_0000, 0xC000));
    assert_eq!(fpu_load_i64((-5i64) as u64), f(0xA000_0000_0000_0000, 0xC001));
}

#[test]
fn widening_reports_signalling_nans() {
    let mut fpu = FpuState::new(false, false);
    let x = f64_to_f80(&mut fpu, 1.0f64.to_bits());
    assert_eq!(x, f(0x8000_0000_0000_0000, 0x3FFF));
    assert_eq!(fpu.status_word, 0);
    f64_to_f80(&mut fpu, 0x7FF0_0000_0000_0001);
    assert_eq!(fpu.status_word, FPU_EX_I);
    let mut fpu = FpuState::new(false, false);
    f32_to_f80(&mut fpu, 0x7F80_0001);
    assert_eq!(fpu.status_word, FPU_EX_I);
}

#[test]
fn exact_double_bits() {
    assert_eq!(f80_exact_f64_bits(&f(0x8000_0000_0000_0000, 0x3FFF)), Some(1.0f64.to_bits()));
    assert_eq!(f80_exact_f64_bits(&f(0x8000_0000_0000_0001, 0x3FFF)), None);
    assert_eq!(f80_exact_f64_bits(&f(0x8000_0000_0000_0000, 0x3FFF - 1074)), Some(1));
    assert_eq!(f80_exact_f64_bits(&f(0x8000_0000_0000_0000, 0x3FFF - 1075)), None);
    assert_eq!(f80_exact_f64_bits(&f(0x8000_0000_0000_0000, 0x43FF)), None);
    assert_eq!(f80_exact_f64_bits(&f(0, 0x8000)), Some(0x8000_0000_0000_0000));
    assert_eq!(f80_exact_f64_bits(&f(0x8000_0000_0000_0000, 0xFFFF)), Some(f64::NEG_INFINITY.to_bits()));
    assert_eq!(f80_exact_f64_bits(&f(0xC000_0000_0000_0000, 0xFFFF)), Some(0xFFF8_0000_0000_0000));
    // An unnormal: no double widens to it.
    assert_eq!(f80_exact_f64_bits(&f(0x4000_0000_0000_0000, 0x3FFF)), None);
    // A signalling-NaN pattern is never produced by widening.
    assert_eq!(f80_exact_f64_bits(&f(0x8000_0000_0000_0800, 0x7FFF)), None);
}

#[test]
fn exact_bits_widen_back() {
    let samples: [u64; 8] = [
        0,
        1,
        0x000F_FFFF_FFFF_FFFF,
        0x0010_0000_0000_0000,
        3.25f64.to_bits(),
        (-1e300f64).to_bits(),
        f64::INFINITY.to_bits(),
        0x7FF8_0000_0000_1234,
    ];
    for bits in samples {
        let v = F80::of_f64(bits);
        let b = f80_exact_f64_bits(&v).unwrap();
        assert_eq!(F80::of_f64(b), v);
    }
}

#[test]
fn canonical_form() {
    assert_eq!(fpu_canonical(f(2.0f64.to_bits(), FPU_RELAXED_TAG)), f(0x8000_0000_0000_0000, 0x4000));
    assert_eq!(fpu_canonical(f(123, 0x3FFF)), f(123, 0x3FFF));
    // A value whose own exponent word is the tag reads as the double in its
    // mantissa: here minus zero.
    assert_eq!(fpu_canonical(f(0x8000_0000_0000_0000, FPU_RELAXED_TAG)), f(0, 0x8000));
}

#[test]
fn inline_arm_operands() {
    assert!(fpu_arm_ok(1.0f64.to_bits()));
    assert!(fpu_arm_ok(0));
    assert!(fpu_arm_ok((-0.0f64).to_bits()));
    assert!(!fpu_arm_ok(1));
    assert!(!fpu_arm_ok(f64::INFINITY.to_bits()));
    assert!(!fpu_arm_ok(f64::NAN.to_bits()));
    assert!(single_arm_ok(1.5f32.to_bits()));
    assert!(!single_arm_ok(1));
    assert_eq!(single_to_double_bits(1.5f32.to_bits()), 1.5f64.to_bits());
    assert_eq!(single_to_double_bits((-0.0f32).to_bits()), (-0.0f64).to_bits());
    assert_eq!(single_to_double_bits(f32::MAX.to_bits()), (f32::MAX as f64).to_bits());
    assert_eq!(single_to_double_bits(f32::MIN_POSITIVE.to_bits()), (f32::MIN_POSITIVE as f64).to_bits());
}

#[test]
fn predicates_and_sign() {
    let one = F80::one();
    assert!(!one.is_zero() && one.is_finite() && !one.is_nan() && !one.sign() && !one.lt_zero());
    let minus_zero = f(0, 0x8000);
    assert!(minus_zero.is_zero() && !minus_zero.lt_zero());
    let nan = F80::indefinite_nan();
    assert!(nan.is_nan() && !nan.is_finite() && !nan.lt_zero());
    let inf = F80::pos_infinity();
    assert!(!inf.is_nan() && !inf.is_finite());
    assert_eq!(one.neg(), f(0x8000_0000_0000_0000, 0xBFFF));
    assert_eq!(one.neg().abs(), one);
    assert_eq!(i32_to_f80(8).exponent(), 3);
    assert!(one.neg().lt_zero());
}
