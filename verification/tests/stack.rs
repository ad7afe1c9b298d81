use lib::f80::F80;
use lib::ops::{
    fpu_fcmovcc, fpu_fldm32, fpu_fldm64, fpu_fst, fpu_fstp, fpu_fxch, fpu_fxtract, fpu_fxam, fpu_ftst, fpu_fchs,
    fpu_fabs, fpu_fildm16, fpu_fildm32, fpu_fildm64, i32_to_f80, fpu_arm_result, fpu_op_inline, fpu_op_operands,
    fpu_store_st0_m64_inline, fpu_store_single_inline, FpuOp,
};
use lib::results::fpu_fscale_fast;
use lib::state::{
    fpu_canonical, fpu_clear_tag, fpu_fclex, fpu_fdecstp, fpu_ffree, fpu_fincstp, fpu_finit,
    fpu_get_st0, fpu_get_sti, fpu_load_status_word, fpu_pop, fpu_push, fpu_push_at, fpu_push_f64,
    fpu_set_status_word, fpu_sti_empty, fpu_tagged, fpu_write_st, fpu_write_st_at, fpu_write_tagged,
    set_control_word, fpu_fldcw, fpu_fstcw, fpu_stack_fault, fpu_zero_fault, fpu_underflow_fault,
    fpu_invalid_arithmetic, fpu_merge_exceptions, Precision, RoundingMode, FpuState, FPU_C0, FPU_C1, FPU_C2, FPU_C3,
    FPU_EX_I, FPU_EX_SF, FPU_EX_Z, FPU_EX_U, FPU_RELAXED_TAG, fpu_register, note_x87_site, X87_SITE_ARITH,
    X87_SITE_WRITE_EXACT, X87_SITE_WRITE_WIDE, X87_SITE_FSCALE, X87_SITE_INTERP_INLINE,
    X87_SITE_PUSH_OTHER, X87_SITE_FLD_M64,
};

fn f(mantissa: u64, sign_exponent: u16) -> F80 {
    F80 { mantissa, sign_exponent }
}

fn one() -> F80 {
    f(0x8000_0000_0000_0000, 0x3FFF)
}

#[test]
fn reset_state() {
    let fpu = FpuState::new(true, true);
    assert_eq!(fpu.stack_ptr, 0);
    assert_eq!(fpu.stack_empty, 0xFF);
    assert_eq!(fpu.control_word, 0x37F);
    assert_eq!(fpu.rounding_mode, RoundingMode::NearEven);
    assert_eq!(fpu.precision, Precision::P80);
    assert_eq!(fpu.precision_single, 0);
    assert_eq!(fpu.st.len(), 8);
}

#[test]
fn write_tags_exact_values_and_reads_back() {
    let mut fpu = FpuState::new(true, true);
    fpu.stack_empty = 0;
    fpu_write_st_at(&mut fpu, 3, one(), X87_SITE_FSCALE);
    assert_eq!(fpu.st[3], f(1.0f64.to_bits(), FPU_RELAXED_TAG));
    assert_eq!(fpu_canonical(fpu.st[3]), one());
    assert_eq!(fpu_register(&fpu, 3), one());
    assert_eq!(fpu.sites, vec![X87_SITE_WRITE_EXACT]);
    // Not exact in a double: stored as it is, with the wide-write site and
    // the instruction's own noted.
    let wide = f(0x8000_0000_0000_0001, 0x3FFF);
    fpu_write_st(&mut fpu, 4, wide);
    assert_eq!(fpu.st[4], wide);
    assert_eq!(fpu.sites, vec![X87_SITE_WRITE_EXACT, X87_SITE_WRITE_WIDE, X87_SITE_ARITH]);
    // Without tagged writes nothing is tagged and nothing noted.
    let mut plain = FpuState::new(false, true);
    plain.stack_empty = 0;
    fpu_write_st_at(&mut plain, 3, one(), X87_SITE_FSCALE);
    assert_eq!(plain.st[3], one());
    assert!(plain.sites.is_empty());
}

#[test]
fn tagged_reads_need_inline_doubles() {
    let mut fpu = FpuState::new(true, true);
    // An empty register takes the double in the 80-bit format.
    fpu_write_tagged(&mut fpu, 2, 2.5f64.to_bits());
    assert_eq!(fpu.st[2], f(0xA000_0000_0000_0000, 0x4000));
    assert_eq!(fpu_tagged(&fpu, 2), None);
    fpu.stack_empty = 0;
    fpu_write_tagged(&mut fpu, 2, 2.5f64.to_bits());
    assert_eq!(fpu_tagged(&fpu, 2), Some(2.5f64.to_bits()));
    assert_eq!(fpu_tagged(&fpu, 1), None);
    fpu.inline_doubles = false;
    assert_eq!(fpu_tagged(&fpu, 2), None);
    fpu_clear_tag(&mut fpu, 2);
    assert_eq!(fpu.st[2].sign_exponent, 0);
}

#[test]
fn push_then_read_then_pop() {
    let mut fpu = FpuState::new(false, false);
    let x = f(0x8000_0000_0000_0001, 0x4001);
    fpu_push(&mut fpu, x);
    assert_eq!(fpu.stack_ptr, 7);
    assert_eq!(fpu.stack_empty, 0x7F);
    assert_eq!(fpu_get_st0(&mut fpu), x);
    assert_eq!(fpu.status_word, 0);
    assert!(!fpu_sti_empty(&fpu, 0));
    assert!(fpu_sti_empty(&fpu, 1));
    fpu_pop(&mut fpu);
    assert_eq!(fpu.stack_ptr, 0);
    assert_eq!(fpu.stack_empty, 0xFF);
    assert_eq!(fpu.st[7].sign_exponent, 0);
}

#[test]
fn push_onto_full_register_faults() {
    let mut fpu = FpuState::new(false, false);
    for i in 0..8 {
        fpu_push_at(&mut fpu, i32_to_f80(i), X87_SITE_FLD_M64);
    }
    assert_eq!(fpu.stack_empty, 0);
    assert_eq!(fpu.status_word, 0);
    fpu_push(&mut fpu, one());
    assert_eq!(fpu.status_word, FPU_C1 | FPU_EX_SF | FPU_EX_I);
    assert_eq!(fpu.st[fpu.stack_ptr as usize], F80::indefinite_nan());
}

#[test]
fn read_of_empty_register_faults() {
    let mut fpu = FpuState::new(false, false);
    fpu.status_word = FPU_C1;
    assert_eq!(fpu_get_st0(&mut fpu), F80::indefinite_nan());
    assert_eq!(fpu.status_word, FPU_EX_SF | FPU_EX_I);
    fpu_push(&mut fpu, one());
    fpu_push(&mut fpu, i32_to_f80(2));
    assert_eq!(fpu_get_sti(&mut fpu, 1), one());
}

#[test]
fn push_tagged_double() {
    let mut fpu = FpuState::new(false, true);
    fpu_push_f64(&mut fpu, 4.0f64.to_bits(), X87_SITE_FLD_M64);
    assert_eq!(fpu.st[7], f(4.0f64.to_bits(), FPU_RELAXED_TAG));
    assert_eq!(fpu_get_st0(&mut fpu), f(0x8000_0000_0000_0000, 0x4001));
}

#[test]
fn status_word_round_trip() {
    let mut fpu = FpuState::new(false, false);
    fpu_set_status_word(&mut fpu, 0x3A41);
    assert_eq!(fpu.stack_ptr, 7);
    assert_eq!(fpu.status_word, 0x0241);
    assert_eq!(fpu_load_status_word(&fpu), 0x3A41);
    fpu_fclex(&mut fpu);
    assert_eq!(fpu_load_status_word(&fpu), 0x3800);
}

#[test]
fn stack_top_moves() {
    let mut fpu = FpuState::new(false, false);
    fpu.status_word = FPU_C1;
    fpu_fdecstp(&mut fpu);
    assert_eq!(fpu.stack_ptr, 7);
    assert_eq!(fpu.status_word, 0);
    fpu_fincstp(&mut fpu);
    assert_eq!(fpu.stack_ptr, 0);
}

#[test]
fn control_word_selects_rounding_and_precision() {
    let mut fpu = FpuState::new(false, false);
    set_control_word(&mut fpu, 0x0C7F);
    assert_eq!(fpu.rounding_mode, RoundingMode::Trunc);
    assert_eq!(fpu.precision, Precision::P32);
    assert_eq!(fpu.precision_single, 1);
    fpu_fldcw(&mut fpu, 0x067F);
    assert_eq!(fpu.rounding_mode, RoundingMode::Floor);
    assert_eq!(fpu.precision, Precision::P64);
    assert_eq!(fpu.precision_single, 0);
    set_control_word(&mut fpu, 0x097F);
    assert_eq!(fpu.rounding_mode, RoundingMode::Ceil);
    assert_eq!(fpu.precision, Precision::P80);
    assert_eq!(fpu_fstcw(&fpu), 0x097F);
}

#[test]
fn reset_clears_everything() {
    let mut fpu = FpuState::new(true, true);
    fpu_push(&mut fpu, one());
    fpu.status_word = 0x1234;
    fpu.ip = 5;
    fpu.ip_selector = 9;
    fpu_finit(&mut fpu);
    assert_eq!(fpu.stack_empty, 0xFF);
    assert_eq!(fpu.stack_ptr, 0);
    assert_eq!(fpu.status_word, 0);
    assert_eq!(fpu.ip, 0);
    assert_eq!(fpu.ip_selector, 9);
    assert_eq!(fpu.control_word, 0x37F);
    for i in 0..8 {
        assert_eq!(fpu.st[i].sign_exponent, 0);
    }
}

#[test]
fn free_register() {
    let mut fpu = FpuState::new(true, true);
    fpu_push(&mut fpu, one());
    fpu_push(&mut fpu, one());
    fpu_ffree(&mut fpu, 1);
    assert_eq!(fpu.stack_empty, 0xBF);
    assert_eq!(fpu.st[7].sign_exponent, 0);
}

#[test]
fn exception_reports() {
    let mut fpu = FpuState::new(false, false);
    fpu_zero_fault(&mut fpu);
    fpu_underflow_fault(&mut fpu);
    assert_eq!(fpu.status_word, FPU_EX_Z | FPU_EX_U);
    fpu_invalid_arithmetic(&mut fpu);
    fpu_stack_fault(&mut fpu);
    fpu_merge_exceptions(&mut fpu, 0x20);
    assert_eq!(fpu.status_word, FPU_EX_Z | FPU_EX_U | FPU_EX_I | FPU_EX_SF | 0x20);
}

#[test]
fn conditional_move() {
    let mut fpu = FpuState::new(false, false);
    fpu_push(&mut fpu, one());
    fpu_push(&mut fpu, i32_to_f80(2));
    fpu_fcmovcc(&mut fpu, false, 1);
    assert_eq!(fpu_get_st0(&mut fpu), i32_to_f80(2));
    fpu_fcmovcc(&mut fpu, true, 1);
    assert_eq!(fpu_get_st0(&mut fpu), one());
    // An empty st(r) faults whatever the condition and leaves the NaN.
    fpu_fcmovcc(&mut fpu, false, 3);
    assert_eq!(fpu.status_word, FPU_EX_SF | FPU_EX_I);
    assert_eq!(fpu_get_st0(&mut fpu), F80::indefinite_nan());
}

#[test]
fn store_and_exchange() {
    let mut fpu = FpuState::new(false, false);
    fpu_push(&mut fpu, one());
    fpu_push(&mut fpu, i32_to_f80(2));
    fpu_fst(&mut fpu, 3);
    assert!(!fpu_sti_empty(&fpu, 3));
    assert_eq!(fpu_get_sti(&mut fpu, 3), i32_to_f80(2));
    fpu_fxch(&mut fpu, 1);
    assert_eq!(fpu_get_st0(&mut fpu), one());
    assert_eq!(fpu_get_sti(&mut fpu, 1), i32_to_f80(2));
    fpu_fstp(&mut fpu, 1);
    assert_eq!(fpu.stack_ptr, 7);
    assert_eq!(fpu_get_st0(&mut fpu), one());
    assert_eq!(fpu.status_word, 0);
}

#[test]
fn store_from_empty_top_leaves_target_empty() {
    let mut fpu = FpuState::new(false, false);
    fpu_fst(&mut fpu, 2);
    assert_eq!(fpu.stack_empty, 0xFF);
    assert_eq!(fpu.st[2], F80::indefinite_nan());
    assert_eq!(fpu.status_word, FPU_EX_SF | FPU_EX_I);
}

#[test]
fn extract_exponent_and_significand() {
    let mut fpu = FpuState::new(false, false);
    fpu_push(&mut fpu, i32_to_f80(-12));
    fpu_fxtract(&mut fpu);
    assert_eq!(fpu_get_st0(&mut fpu), f(0xC000_0000_0000_0000, 0x3FFF));
    assert_eq!(fpu_get_sti(&mut fpu, 1), i32_to_f80(3));
    let mut fpu = FpuState::new(false, false);
    fpu_push(&mut fpu, F80::zero());
    fpu_fxtract(&mut fpu);
    assert_eq!(fpu.status_word & FPU_EX_Z, FPU_EX_Z);
    assert_eq!(fpu_get_sti(&mut fpu, 1), F80::neg_infinity());
    assert_eq!(fpu_get_st0(&mut fpu), F80::zero());
}

#[test]
fn sign_changes() {
    let mut fpu = FpuState::new(false, false);
    fpu_push(&mut fpu, one());
    fpu_fchs(&mut fpu);
    assert_eq!(fpu_get_st0(&mut fpu), f(0x8000_0000_0000_0000, 0xBFFF));
    fpu_fabs(&mut fpu);
    assert_eq!(fpu_get_st0(&mut fpu), one());
}

#[test]
fn test_against_zero() {
    let mut fpu = FpuState::new(false, false);
    fpu_push(&mut fpu, i32_to_f80(-3));
    fpu_ftst(&mut fpu);
    assert_eq!(fpu.status_word, FPU_C0);
    fpu_push(&mut fpu, F80::zero());
    fpu_ftst(&mut fpu);
    assert_eq!(fpu.status_word, FPU_C3);
    fpu_push(&mut fpu, F80::indefinite_nan());
    fpu_ftst(&mut fpu);
    assert_eq!(fpu.status_word, FPU_C3 | FPU_C2 | FPU_C0);
    fpu_push(&mut fpu, one());
    fpu_ftst(&mut fpu);
    assert_eq!(fpu.status_word, 0);
}

#[test]
fn examine_classes() {
    let mut fpu = FpuState::new(false, false);
    fpu_fxam(&mut fpu);
    // Empty, read as the negative indefinite NaN with a stack fault.
    assert_eq!(fpu.status_word, FPU_C3 | FPU_C0 | FPU_C1 | FPU_EX_SF | FPU_EX_I);
    let mut fpu = FpuState::new(false, false);
    fpu_push(&mut fpu, F80::pos_infinity());
    fpu_fxam(&mut fpu);
    assert_eq!(fpu.status_word, FPU_C2 | FPU_C0);
    fpu_push(&mut fpu, f(0, 0x8000));
    fpu_fxam(&mut fpu);
    assert_eq!(fpu.status_word, FPU_C3 | FPU_C1);
    fpu_push(&mut fpu, one());
    fpu_fxam(&mut fpu);
    assert_eq!(fpu.status_word, FPU_C2);
    fpu_push(&mut fpu, f(0xC000_0000_0000_0000, 0x7FFF));
    fpu_fxam(&mut fpu);
    assert_eq!(fpu.status_word, FPU_C0);
}

#[test]
fn integer_loads() {
    let mut fpu = FpuState::new(false, false);
    fpu_fildm16(&mut fpu, 0xFFFF);
    assert_eq!(fpu_get_st0(&mut fpu), i32_to_f80(-1));
    fpu_fildm32(&mut fpu, 1000);
    assert_eq!(fpu_get_st0(&mut fpu), i32_to_f80(1000));
    fpu_fildm64(&mut fpu, 1 << 40);
    assert_eq!(fpu_get_st0(&mut fpu), f(0x8000_0000_0000_0000, 0x3FFF + 40));
}

#[test]
fn loads_from_memory_inline_and_not() {
    let mut fpu = FpuState::new(false, true);
    fpu_fldm64(&mut fpu, 0.25f64.to_bits());
    assert_eq!(fpu.st[7], f(0.25f64.to_bits(), FPU_RELAXED_TAG));
    fpu_fldm32(&mut fpu, 0.25f32.to_bits() as i32);
    assert_eq!(fpu.st[6], f(0.25f64.to_bits(), FPU_RELAXED_TAG));
    assert_eq!(fpu.status_word, 0);
    // A signalling NaN goes through the 80-bit format and raises invalid.
    fpu_fldm64(&mut fpu, 0x7FF0_0000_0000_0001);
    assert_eq!(fpu.st[5], f(0xC000_0000_0000_0800, 0x7FFF));
    assert_eq!(fpu.status_word, FPU_EX_I);
    // A denormal stays in the 80-bit format.
    fpu_fldm32(&mut fpu, 1);
    assert_eq!(fpu.st[4], f(0x8000_0000_0000_0000, 0x3FFF - 149));
    // With inline doubles off nothing is tagged.
    let mut off = FpuState::new(false, false);
    fpu_fldm64(&mut off, 0.25f64.to_bits());
    assert_eq!(off.st[7], f(0x8000_0000_0000_0000, 0x3FFD));
}

#[test]
fn inline_arithmetic_arm() {
    let mut fpu = FpuState::new(false, true);
    assert_eq!(fpu_arm_result(&fpu, 3.0f64.to_bits(), None), Some(3.0f64.to_bits()));
    assert_eq!(fpu_arm_result(&fpu, f64::INFINITY.to_bits(), None), None);
    set_control_word(&mut fpu, 0x007F);
    assert_eq!(fpu.precision_single, 1);
    assert_eq!(fpu_arm_result(&fpu, 3.0f64.to_bits(), Some(7)), Some(7));
    set_control_word(&mut fpu, 0x037F);
    fpu_push(&mut fpu, one());
    let taken = fpu_op_inline(&mut fpu, 7, 1.0f64.to_bits(), 2.0f64.to_bits(), Some(3.0f64.to_bits()));
    assert!(taken);
    assert_eq!(fpu.st[7], f(3.0f64.to_bits(), FPU_RELAXED_TAG));
    assert_eq!(fpu.sites.last(), Some(&X87_SITE_INTERP_INLINE));
    let taken = fpu_op_inline(&mut fpu, 6, 1, 2.0f64.to_bits(), Some(3.0f64.to_bits()));
    assert!(!taken);
    assert_eq!(fpu.st[6], F80::zero());
}

#[test]
fn exchange_twice_restores() {
    let mut fpu = FpuState::new(true, true);
    let wide = f(0x8000_0000_0000_0001, 0x4000);
    fpu_push(&mut fpu, wide);
    fpu_push(&mut fpu, one());
    fpu_fxch(&mut fpu, 1);
    fpu_fxch(&mut fpu, 1);
    assert_eq!(fpu_get_st0(&mut fpu), one());
    assert_eq!(fpu_get_sti(&mut fpu, 1), wide);
    assert_eq!(fpu.status_word, 0);
    assert_eq!(fpu.stack_empty, 0x3F);
}

#[test]
fn largest_scaled_value_reads_back() {
    // 2^16383: its exponent word is the tag's own value.
    let mut fpu = FpuState::new(true, true);
    fpu_push(&mut fpu, one());
    let y = fpu_fscale_fast(one(), 16383).unwrap();
    assert_eq!(y, f(0x8000_0000_0000_0000, 0x7FFE));
    let top = fpu.stack_ptr as i32;
    fpu_write_st_at(&mut fpu, top, y, X87_SITE_FSCALE);
    assert_eq!(fpu_get_st0(&mut fpu), f(1 << 63, 0x7FFE));
    assert_eq!(fpu_tagged(&fpu, top), None);
    assert_eq!(fpu.status_word, 0);
    assert!(fpu.is_well_formed());
}

#[test]
fn exchange_with_empty_register_leaves_it_untagged() {
    let mut fpu = FpuState::new(true, false);
    fpu_push(&mut fpu, one());
    fpu_fxch(&mut fpu, 1);
    // st(1) was empty: a stack fault, and the slot stays empty and untagged.
    assert_eq!(fpu.status_word, FPU_EX_SF | FPU_EX_I);
    assert_eq!(fpu.stack_empty, 0x7F);
    assert_ne!(fpu.st[0].sign_exponent, FPU_RELAXED_TAG);
    assert_eq!(fpu_register(&fpu, 0), one());
    assert!(fpu.is_well_formed());
    // One, and the indefinite NaN, are both exact in a double.
    assert_eq!(fpu.sites, vec![X87_SITE_WRITE_EXACT, X87_SITE_WRITE_EXACT, X87_SITE_WRITE_EXACT]);
}

#[test]
fn store_and_move_into_empty_registers_stay_untagged() {
    let mut fpu = FpuState::new(true, true);
    fpu_fst(&mut fpu, 2);
    fpu_fcmovcc(&mut fpu, true, 4);
    for i in 0..8 {
        assert_ne!(fpu.st[i].sign_exponent, FPU_RELAXED_TAG);
    }
    assert!(fpu.is_well_formed());
    // A full st(0) moved into an empty st(r) is tagged there, and full.
    fpu_push(&mut fpu, one());
    fpu_fst(&mut fpu, 3);
    assert_eq!(fpu.st[2], f(1.0f64.to_bits(), FPU_RELAXED_TAG));
    assert_eq!(fpu.stack_empty, 0x7B);
    assert!(fpu.is_well_formed());
}

#[test]
fn write_sites_are_noted_in_order() {
    let mut fpu = FpuState::new(true, false);
    fpu_push(&mut fpu, one());
    fpu_push(&mut fpu, f(0x8000_0000_0000_0001, 0x3FFF));
    assert_eq!(fpu.sites, vec![X87_SITE_WRITE_EXACT, X87_SITE_WRITE_WIDE, X87_SITE_PUSH_OTHER]);
    note_x87_site(&mut fpu, X87_SITE_INTERP_INLINE);
    assert_eq!(fpu.sites.len(), 4);
    // A value that carries the tag word itself is noted nowhere.
    let mut fpu = FpuState::new(true, false);
    fpu_push(&mut fpu, f(5, FPU_RELAXED_TAG));
    assert!(fpu.sites.is_empty());
    assert_eq!(fpu_get_st0(&mut fpu), f(5, FPU_RELAXED_TAG));
}

#[test]
fn well_formedness_is_checked() {
    let mut fpu = FpuState::new(false, false);
    assert!(fpu.is_well_formed());
    fpu.precision_single = 1;
    assert!(!fpu.is_well_formed());
    let mut fpu = FpuState::new(false, false);
    fpu.st[3] = f(1, FPU_RELAXED_TAG);
    assert!(!fpu.is_well_formed());
    fpu.stack_empty = 0;
    assert!(fpu.is_well_formed());
}

#[test]
fn reversed_operations_swap_operands() {
    assert_eq!(fpu_op_operands(FpuOp::Sub, 1, 2), (1, 2));
    assert_eq!(fpu_op_operands(FpuOp::SubR, 1, 2), (2, 1));
    assert_eq!(fpu_op_operands(FpuOp::DivR, 1, 2), (2, 1));
    assert_eq!(fpu_op_operands(FpuOp::Div, 1, 2), (1, 2));
    assert_eq!(fpu_op_operands(FpuOp::Add, 1, 2), (1, 2));
    assert_eq!(fpu_op_operands(FpuOp::Mul, 1, 2), (1, 2));
}

#[test]
fn inline_stores_are_noted() {
    let mut fpu = FpuState::new(false, true);
    assert_eq!(fpu_store_st0_m64_inline(&mut fpu), None);
    assert!(fpu.sites.is_empty());
    fpu_fldm64(&mut fpu, 0.5f64.to_bits());
    assert_eq!(fpu_store_st0_m64_inline(&mut fpu), Some(0.5f64.to_bits()));
    assert_eq!(fpu.sites, vec![X87_SITE_INTERP_INLINE, X87_SITE_INTERP_INLINE]);
    let mut fpu = FpuState::new(false, true);
    assert!(fpu_store_single_inline(&mut fpu, 0.5f64.to_bits(), 0.5f32.to_bits()));
    assert!(fpu_store_single_inline(&mut fpu, 0.0f64.to_bits(), 0));
    // A double whose single is a denormal is left to the 80-bit path.
    assert!(!fpu_store_single_inline(&mut fpu, 1e-40f64.to_bits(), 1e-40f32.to_bits()));
    assert_eq!(fpu.sites.len(), 2);
}

#[test]
fn logarithm_operand_check() {
    let mut fpu = FpuState::new(false, false);
    lib::results::fpu_fyl2x_check(&mut fpu, one());
    assert_eq!(fpu.status_word, 0);
    lib::results::fpu_fyl2x_check(&mut fpu, F80::zero());
    assert_eq!(fpu.status_word, FPU_EX_Z);
    let mut fpu = FpuState::new(false, false);
    lib::results::fpu_fyl2x_check(&mut fpu, i32_to_f80(-2));
    assert_eq!(fpu.status_word, FPU_EX_I);
}

#[test]
fn exchange_leaves_no_tag_word_in_an_empty_register() {
    // An 80-bit value whose exponent word is the tag, exchanged into an
    // empty register: that register keeps no tag word.
    let mut fpu = FpuState::new(false, false);
    let big = f(0x8000_0000_0000_0000, FPU_RELAXED_TAG);
    fpu_push(&mut fpu, big);
    fpu_fxch(&mut fpu, 1);
    assert_eq!(fpu.stack_empty, 0x7F);
    assert_eq!(fpu.st[0], f(0x8000_0000_0000_0000, 0));
    assert!(fpu.is_well_formed());
    // The full register still reads back as the value.
    let mut fpu = FpuState::new(true, true);
    fpu_push(&mut fpu, big);
    assert_eq!(fpu_get_st0(&mut fpu), big);
}

#[test]
fn register_numbers_are_taken_modulo_eight() {
    let mut fpu = FpuState::new(false, false);
    fpu_push(&mut fpu, one());
    fpu_push(&mut fpu, i32_to_f80(2));
    fpu_ffree(&mut fpu, 9);
    assert_eq!(fpu.stack_empty, 0xBF);
    let mut fpu = FpuState::new(false, false);
    fpu_push(&mut fpu, one());
    fpu_fst(&mut fpu, 10);
    assert_eq!(fpu_get_sti(&mut fpu, 2), one());
    fpu_fstp(&mut fpu, -8);
    assert_eq!(fpu.stack_ptr, 0);
}
