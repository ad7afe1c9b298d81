use std::cmp::Ordering;

use lib::arith::{
    fpu_cmp_f64, fpu_fcom, fpu_fcomi, fpu_fcomip, fpu_fcomp, fpu_fucom, fpu_fucomi, fpu_fucomip,
    fpu_fucomp, fpu_fucompp, FLAGS_ALL, FLAG_CARRY, FLAG_PARITY, FLAG_ZERO,
};
use lib::env::{
    fpu_fldenv16, fpu_fldenv32, fpu_fldm80, fpu_frstor32, fpu_fsave32, fpu_fst80p, fpu_fstenv16,
    fpu_fstenv32, fpu_load_m80, fpu_store_m80,
};
use lib::f80::F80;
use lib::ops::i32_to_f80;
use lib::results::{
    fpu_convert_to_i16, fpu_fbstp, fpu_fprem_by_zero, fpu_fprem_quotient, fpu_fscale_factor,
    fpu_fscale_fast, fpu_fscale_steps, fpu_store_arith, fpu_truncate_to_i16,
};
use lib::state::{
    fpu_canonical, fpu_get_st0, fpu_get_sti, fpu_load_status_word, fpu_push, fpu_sti_empty,
    set_control_word, FpuState, FPU_C0, FPU_C1, FPU_C2, FPU_C3, FPU_EX_I, FPU_EX_SF, FPU_EX_Z,
    FPU_RELAXED_TAG,
};
use lib::tags::{fpu_load_tag_word, fpu_set_tag_word};

fn f(mantissa: u64, sign_exponent: u16) -> F80 {
    F80 { mantissa, sign_exponent }
}

fn one() -> F80 {
    f(0x8000_0000_0000_0000, 0x3FFF)
}

#[test]
fn m80_round_trip() {
    let x = f(0x1234_5678_9ABC_DEF0, 0xC00F);
    let bytes = fpu_store_m80(x);
    assert_eq!(bytes, vec![0xF0, 0xDE, 0xBC, 0x9A, 0x78, 0x56, 0x34, 0x12, 0x0F, 0xC0]);
    assert_eq!(fpu_load_m80(&bytes, 0), x);
    let mut padded = vec![0u8; 3];
    padded.extend_from_slice(&bytes);
    assert_eq!(fpu_load_m80(&padded, 3), x);
}

#[test]
fn load_and_store_80_bits() {
    let mut fpu = FpuState::new(true, true);
    fpu_fldm80(&mut fpu, &fpu_store_m80(i32_to_f80(7)));
    assert_eq!(fpu_get_st0(&mut fpu), i32_to_f80(7));
    let image = fpu_fst80p(&mut fpu);
    assert_eq!(fpu_load_m80(&image, 0), i32_to_f80(7));
    assert_eq!(fpu.stack_empty, 0xFF);
}

#[test]
fn tag_word_of_registers() {
    let mut fpu = FpuState::new(false, false);
    assert_eq!(fpu_load_tag_word(&fpu), 0xFFFF);
    fpu_push(&mut fpu, one());
    assert_eq!(fpu_load_tag_word(&fpu), 0x3FFF);
    fpu_push(&mut fpu, F80::zero());
    assert_eq!(fpu_load_tag_word(&fpu), 0x1FFF);
    fpu_push(&mut fpu, F80::pos_infinity());
    assert_eq!(fpu_load_tag_word(&fpu), 0x1FFF & !(3 << 10) | (2 << 10));
}

#[test]
fn tag_word_round_trip() {
    let mut fpu = FpuState::new(true, true);
    fpu_push(&mut fpu, one());
    fpu_set_tag_word(&mut fpu, 0x3FFF);
    assert_eq!(fpu.stack_empty, 0x7F);
    fpu_set_tag_word(&mut fpu, 0xFFFF);
    assert_eq!(fpu.stack_empty, 0xFF);
    assert_eq!(fpu.st[7].sign_exponent, 0);
    fpu_set_tag_word(&mut fpu, 0x0000);
    assert_eq!(fpu.stack_empty, 0);
    fpu_set_tag_word(&mut fpu, 0x5FF3);
    assert_eq!(fpu.stack_empty, 0b0011_1101);
    let read = fpu_load_tag_word(&fpu);
    for i in 0..8 {
        assert_eq!((read >> (2 * i)) & 3 == 3, (0x5FF3 >> (2 * i)) & 3 == 3);
    }
}

#[test]
fn environment_32_round_trip() {
    let mut fpu = FpuState::new(true, true);
    set_control_word(&mut fpu, 0x0A7F);
    fpu_push(&mut fpu, one());
    fpu_push(&mut fpu, F80::zero());
    fpu.status_word = FPU_C3 | FPU_EX_Z;
    fpu.ip = 0x1234_5678;
    fpu.ip_selector = 0x1B;
    fpu.opcode = 0x5D9;
    fpu.dp = -4;
    fpu.dp_selector = 0x23;
    let image = fpu_fstenv32(&fpu);
    assert_eq!(image.len(), 28);
    assert_eq!(&image[0..4], &[0x7F, 0x0A, 0xFF, 0xFF]);
    assert_eq!(&image[4..8], &[0x04, 0x70, 0xFF, 0xFF]);
    assert_eq!(&image[8..12], &[0xFF, 0x1F, 0xFF, 0xFF]);
    assert_eq!(&image[12..16], &[0x78, 0x56, 0x34, 0x12]);
    assert_eq!(&image[16..20], &[0x1B, 0x00, 0xD9, 0x05]);
    assert_eq!(&image[20..24], &[0xFC, 0xFF, 0xFF, 0xFF]);
    assert_eq!(&image[24..28], &[0x23, 0x00, 0xFF, 0xFF]);
    let mut other = FpuState::new(false, false);
    fpu_fldenv32(&mut other, &image);
    assert_eq!(other.control_word, 0x0A7F);
    assert_eq!(fpu_load_status_word(&other), fpu_load_status_word(&fpu));
    assert_eq!(other.stack_ptr, 6);
    assert_eq!(other.stack_empty, fpu.stack_empty);
    assert_eq!(other.ip, 0x1234_5678);
    assert_eq!(other.ip_selector, 0x1B);
    assert_eq!(other.opcode, 0x5D9);
    assert_eq!(other.dp, -4);
    assert_eq!(other.dp_selector, 0x23);
}

#[test]
fn environment_16_round_trip() {
    let mut fpu = FpuState::new(false, false);
    fpu_push(&mut fpu, one());
    fpu.ip = 0x1_2345;
    fpu.ip_selector = 0x10;
    fpu.dp = 0x77;
    fpu.dp_selector = 0x18;
    let image = fpu_fstenv16(&fpu);
    assert_eq!(image, vec![0x7F, 0x03, 0x00, 0x38, 0xFF, 0x3F, 0x45, 0x23, 0x10, 0x00, 0x77, 0x00, 0x18, 0x00]);
    let mut other = FpuState::new(false, false);
    fpu_fldenv16(&mut other, &image);
    assert_eq!(other.stack_ptr, 7);
    assert_eq!(other.stack_empty, 0x7F);
    assert_eq!(other.ip, 0x2345);
    assert_eq!(other.dp, 0x77);
    assert_eq!(other.dp_selector, 0x18);
}

#[test]
fn save_and_restore() {
    let mut fpu = FpuState::new(true, true);
    fpu_push(&mut fpu, one());
    fpu_push(&mut fpu, f(0x8000_0000_0000_0001, 0x4000));
    fpu_push(&mut fpu, F80::indefinite_nan());
    fpu.ip = 99;
    fpu.opcode = 0x1D9;
    fpu.ip_selector = 0x23;
    fpu.dp_selector = 0x2B;
    lib::state::set_control_word(&mut fpu, 0x0C7F);
    let before_sw = fpu_load_status_word(&fpu);
    let image = fpu_fsave32(&mut fpu);
    assert_eq!(image.len(), 108);
    // The save resets the unit.
    assert_eq!(fpu.stack_empty, 0xFF);
    assert_eq!(fpu.stack_ptr, 0);
    assert_eq!(fpu.control_word, 0x37F);
    // st(0) is the first register image.
    assert_eq!(fpu_load_m80(&image, 28), F80::indefinite_nan());
    assert_eq!(fpu_load_m80(&image, 48), one());
    fpu_frstor32(&mut fpu, &image);
    assert_eq!(fpu_load_status_word(&fpu), before_sw);
    assert_eq!(fpu.stack_empty, 0x1F);
    assert_eq!(fpu.ip, 99);
    assert_eq!(fpu.opcode, 0x1D9);
    assert_eq!(fpu.ip_selector, 0x23);
    assert_eq!(fpu.dp_selector, 0x2B);
    assert_eq!(fpu.control_word, 0x0C7F);
    assert_eq!(fpu.rounding_mode, lib::state::RoundingMode::Trunc);
    assert_eq!(fpu.precision, lib::state::Precision::P32);
    assert_eq!(fpu.precision_single, 1);
    assert!(fpu.is_well_formed());
    assert_eq!(fpu_get_st0(&mut fpu), F80::indefinite_nan());
    assert_eq!(fpu_get_sti(&mut fpu, 1), f(0x8000_0000_0000_0001, 0x4000));
    assert_eq!(fpu_get_sti(&mut fpu, 2), one());
    assert!(fpu_sti_empty(&fpu, 3));
    // Restored exact values come back tagged; empty slots never do.
    assert_eq!(fpu.st[7].sign_exponent, FPU_RELAXED_TAG);
    for i in 0..5 {
        assert_ne!(fpu.st[i].sign_exponent, FPU_RELAXED_TAG);
    }
}

#[test]
fn compare_condition_codes() {
    let mut fpu = FpuState::new(false, false);
    fpu.status_word = FPU_C0 | FPU_C1 | FPU_C2 | FPU_C3 | FPU_EX_Z;
    fpu_fcom(&mut fpu, Some(Ordering::Greater), 0);
    assert_eq!(fpu.status_word, FPU_EX_Z);
    fpu_fcom(&mut fpu, Some(Ordering::Less), 0);
    assert_eq!(fpu.status_word, FPU_EX_Z | FPU_C0);
    fpu_fucom(&mut fpu, Some(Ordering::Equal), 0);
    assert_eq!(fpu.status_word, FPU_EX_Z | FPU_C3);
    fpu_fcom(&mut fpu, None, FPU_EX_I);
    assert_eq!(fpu.status_word, FPU_EX_Z | FPU_C0 | FPU_C2 | FPU_C3 | FPU_EX_I);
    let mut fpu = FpuState::new(false, false);
    fpu_cmp_f64(&mut fpu, None, false);
    assert_eq!(fpu.status_word, FPU_C0 | FPU_C2 | FPU_C3);
    fpu_cmp_f64(&mut fpu, None, true);
    assert_eq!(fpu.status_word, FPU_C0 | FPU_C2 | FPU_C3 | FPU_EX_I);
    fpu_cmp_f64(&mut fpu, Some(Ordering::Equal), true);
    assert_eq!(fpu.status_word, FPU_C3 | FPU_EX_I);
}

#[test]
fn compares_that_pop() {
    let mut fpu = FpuState::new(false, false);
    fpu_push(&mut fpu, one());
    fpu_push(&mut fpu, one());
    fpu_push(&mut fpu, one());
    fpu_push(&mut fpu, one());
    fpu_fcomp(&mut fpu, Some(Ordering::Equal), 0);
    assert_eq!(fpu.stack_ptr, 5);
    fpu_fucomp(&mut fpu, Some(Ordering::Equal), 0);
    assert_eq!(fpu.stack_ptr, 6);
    fpu_fucompp(&mut fpu, Some(Ordering::Less), 0);
    assert_eq!(fpu.stack_ptr, 0);
    assert_eq!(fpu.stack_empty, 0xFF);
    assert_eq!(fpu.status_word, FPU_C0);
}

#[test]
fn compare_into_eflags() {
    let mut fpu = FpuState::new(false, false);
    let all_set = -1i32;
    assert_eq!(fpu_fcomi(&mut fpu, all_set, Some(Ordering::Greater), 0), !FLAGS_ALL);
    assert_eq!(fpu_fcomi(&mut fpu, 0, Some(Ordering::Less), 0), FLAG_CARRY);
    assert_eq!(fpu_fucomi(&mut fpu, 0x200, Some(Ordering::Equal), 0), 0x200 | FLAG_ZERO);
    assert_eq!(fpu_fcomi(&mut fpu, 0, None, FPU_EX_I), FLAG_CARRY | FLAG_PARITY | FLAG_ZERO);
    assert_eq!(fpu.status_word, FPU_EX_I);
    fpu_push(&mut fpu, one());
    fpu_push(&mut fpu, one());
    assert_eq!(fpu_fcomip(&mut fpu, 0, Some(Ordering::Equal), 0), FLAG_ZERO);
    assert_eq!(fpu_fucomip(&mut fpu, 0, Some(Ordering::Equal), 0), FLAG_ZERO);
    assert_eq!(fpu.stack_empty, 0xFF);
}

#[test]
fn arithmetic_results() {
    let mut fpu = FpuState::new(true, true);
    fpu_push(&mut fpu, one());
    fpu_push(&mut fpu, one());
    fpu_store_arith(&mut fpu, 1, i32_to_f80(2), 0x20);
    assert_eq!(fpu.st[7], f(2.0f64.to_bits(), FPU_RELAXED_TAG));
    assert_eq!(fpu.status_word, 0x20);
}

#[test]
fn narrowing_to_16_bits() {
    let mut fpu = FpuState::new(false, false);
    assert_eq!(fpu_convert_to_i16(&mut fpu, -32768), -32768);
    assert_eq!(fpu_convert_to_i16(&mut fpu, 32767), 32767);
    assert_eq!(fpu.status_word, 0);
    assert_eq!(fpu_convert_to_i16(&mut fpu, 32768), -32768);
    assert_eq!(fpu.status_word, FPU_EX_I);
    let mut fpu = FpuState::new(false, false);
    assert_eq!(fpu_truncate_to_i16(&mut fpu, -40000), -32768);
    assert_eq!(fpu.status_word, FPU_EX_I);
    assert_eq!(fpu_truncate_to_i16(&mut fpu, -7), -7);
}

#[test]
fn partial_remainder_status() {
    let mut fpu = FpuState::new(false, false);
    fpu.status_word = FPU_C2 | FPU_C3 | FPU_EX_Z;
    fpu_fprem_quotient(&mut fpu, 5);
    assert_eq!(fpu.status_word, FPU_C1 | FPU_C0 | FPU_EX_Z);
    fpu_fprem_quotient(&mut fpu, 2);
    assert_eq!(fpu.status_word, FPU_C3 | FPU_EX_Z);
    let mut fpu = FpuState::new(false, false);
    fpu_push(&mut fpu, one());
    fpu_fprem_by_zero(&mut fpu, one());
    assert_eq!(fpu.status_word, FPU_EX_Z);
    assert_eq!(fpu_get_st0(&mut fpu), F80::indefinite_nan());
    let mut fpu = FpuState::new(false, false);
    fpu_fprem_by_zero(&mut fpu, F80::zero());
    assert_eq!(fpu.status_word, FPU_EX_I);
}

#[test]
fn packed_decimal_store() {
    let mut fpu = FpuState::new(false, false);
    fpu_push(&mut fpu, one());
    let image = fpu_fbstp(&mut fpu, i32_to_f80(-1234), -1234);
    assert_eq!(image, vec![0x34, 0x12, 0, 0, 0, 0, 0, 0, 0, 0x80]);
    assert_eq!(fpu.stack_empty, 0xFF);
    assert_eq!(fpu.status_word, 0);
    let image = fpu_fbstp(&mut fpu, one(), 999_999_999_999_999_999);
    assert_eq!(image, vec![0x99, 0x99, 0x99, 0x99, 0x99, 0x99, 0x99, 0x99, 0x99, 0]);
    let image = fpu_fbstp(&mut fpu, one(), 1_000_000_000_000_000_000);
    assert_eq!(image, vec![0, 0, 0, 0, 0, 0, 0, 0xC0, 0xFF, 0xFF]);
    assert_eq!(fpu.status_word & FPU_EX_I, FPU_EX_I);
    let image = fpu_fbstp(&mut fpu, one(), i64::MIN);
    assert_eq!(image, vec![0, 0, 0, 0, 0, 0, 0, 0xC0, 0xFF, 0xFF]);
}

#[test]
fn scale_on_exponent_field() {
    assert_eq!(fpu_fscale_fast(one(), 3), Some(f(0x8000_0000_0000_0000, 0x4002)));
    assert_eq!(fpu_fscale_fast(one().neg(), -2), Some(f(0x8000_0000_0000_0000, 0xBFFD)));
    assert_eq!(fpu_fscale_fast(one(), 0x3FFF), Some(f(0x8000_0000_0000_0000, 0x7FFE)));
    assert_eq!(fpu_fscale_fast(one(), 0x4000), None);
    assert_eq!(fpu_fscale_fast(one(), -0x3FFF), None);
    assert_eq!(fpu_fscale_fast(F80::zero(), 1), None);
    assert_eq!(fpu_fscale_fast(F80::pos_infinity(), 1), None);
    assert_eq!(fpu_fscale_fast(f(0x4000_0000_0000_0000, 0x3FFF), 1), None);
}

#[test]
fn scale_steps() {
    assert_eq!(fpu_fscale_steps(0), vec![0]);
    assert_eq!(fpu_fscale_steps(100), vec![100]);
    assert_eq!(fpu_fscale_steps(-20000), vec![-16382, -3618]);
    assert_eq!(fpu_fscale_steps(1_000_000), vec![16382, 16382, 16382]);
    assert_eq!(fpu_fscale_steps(i64::MIN), vec![-16382, -16382, -16382]);
    assert_eq!(fpu_fscale_factor(0), one());
    assert_eq!(fpu_fscale_factor(-16382), f(0x8000_0000_0000_0000, 1));
    assert_eq!(fpu_fscale_factor(16382), f(0x8000_0000_0000_0000, 0x7FFD));
}

#[test]
fn stack_fault_bits_are_reported() {
    let mut fpu = FpuState::new(false, false);
    let _ = fpu_get_sti(&mut fpu, 5);
    assert_eq!(fpu.status_word, FPU_EX_SF | FPU_EX_I);
    assert_eq!(fpu_canonical(fpu.st[5]), F80::zero());
}
