//! The instructions that move values between registers and memory, load
//! constants and integers, and examine st(0).
use vstd::prelude::*;
use crate::f80::{F80, widen_f64, widen_f32, f64_is_snan, f32_is_snan, int_to_f80, magnitude, spec_indefinite_nan, f64_bits_snan, f32_bits_snan};
use crate::state::{
    FpuState, FpuModel, FPU_C0, FPU_C1, FPU_C2, FPU_C3, FPU_RESULT_FLAGS, FPU_EX_I, FPU_EX_Z, read_sti,
    write_st, write_tagged, pop, push, push_tagged, raise, fpu_get_st0, fpu_get_sti, fpu_sti_empty,
    fpu_write_st_at, fpu_write_tagged, fpu_pop, fpu_push_at, fpu_push, fpu_push_f64, fpu_zero_fault,
    fpu_merge_exceptions, lemma_mark_full_wf, X87_SITE_FCMOVCC, X87_SITE_FILD_M16, X87_SITE_FILD_M32,
    X87_SITE_FILD_M64, X87_SITE_PUSH_OTHER, X87_SITE_FLD_M32, X87_SITE_FLD_M64, X87_SITE_FST_STI,
    X87_SITE_FXCH, X87_SITE_SIGN, X87_SITE_TRANSCENDENTAL, X87_SITE_INTERP_INLINE, noted, note_x87_site,
    fpu_tagged,
};

verus! {

/// An arithmetic instruction's operation.
#[derive(Clone, Copy, PartialEq, Eq, Structural, Debug)]
pub enum FpuOp {
    Add,
    Mul,
    Sub,
    SubR,
    Div,
    DivR,
}

/// The operands of an operation in the order it takes them: st(0) first,
/// except for the reversed forms, which take the other operand first.
pub open spec fn operands_of<T>(op: FpuOp, st0: T, other: T) -> (T, T) {
    match op {
        FpuOp::SubR | FpuOp::DivR => (other, st0),
        _ => (st0, other),
    }
}

/// The operands that `op` computes on, in order: the reversed subtraction
/// and division take the other operand first.
pub fn fpu_op_operands<T: Copy>(op: FpuOp, st0: T, other: T) -> (r: (T, T))
    ensures
        r == operands_of(op, st0, other),
{
    match op {
        FpuOp::SubR | FpuOp::DivR => (other, st0),
        _ => (st0, other),
    }
}

// ---- Conversions that report their exceptions ----

/// A single's bits widened into the 80-bit format, reporting an invalid
/// operation for a signalling NaN.
pub fn f32_to_f80(fpu: &mut FpuState, v: i32) -> (r: F80)
    ensures
        r == widen_f32(v as u32),
        final(fpu)@ == raise(old(fpu)@, if f32_is_snan(v as u32) { FPU_EX_I } else { 0 }),
{
    let x = F80::of_f32(v);
    let flags: u16 = if f32_bits_snan(v as u32) { FPU_EX_I } else { 0 };
    fpu_merge_exceptions(fpu, flags);
    x
}

/// A double's bits widened into the 80-bit format, reporting an invalid
/// operation for a signalling NaN.
pub fn f64_to_f80(fpu: &mut FpuState, v: u64) -> (r: F80)
    ensures
        r == widen_f64(v),
        final(fpu)@ == raise(old(fpu)@, if f64_is_snan(v) { FPU_EX_I } else { 0 }),
{
    let x = F80::of_f64(v);
    let flags: u16 = if f64_bits_snan(v) { FPU_EX_I } else { 0 };
    fpu_merge_exceptions(fpu, flags);
    x
}

/// A 32-bit integer in the 80-bit format: exact.
pub fn i32_to_f80(v: i32) -> (r: F80)
    ensures
        r == int_to_f80(v < 0, magnitude(v as int)),
{
    F80::of_i32(v)
}

/// A 64-bit integer in the 80-bit format: exact.
pub fn i64_to_f80(v: i64) -> (r: F80)
    ensures
        r == int_to_f80(v < 0, magnitude(v as int)),
{
    F80::of_i64(v)
}

/// The 16-bit integer in a word loaded from memory.
pub fn fpu_load_i16(word: u16) -> (r: F80)
    ensures
        r == int_to_f80((word as i16) < 0, magnitude((word as i16) as int)),
{
    F80::of_i32(word as i16 as i32)
}

/// The 32-bit integer loaded from memory.
pub fn fpu_load_i32(v: i32) -> (r: F80)
    ensures
        r == int_to_f80(v < 0, magnitude(v as int)),
{
    F80::of_i32(v)
}

/// The 64-bit integer in the bits loaded from memory.
pub fn fpu_load_i64(bits: u64) -> (r: F80)
    ensures
        r == int_to_f80((bits as i64) < 0, magnitude((bits as i64) as int)),
{
    F80::of_i64(bits as i64)
}

/// `fild m16`.
pub fn fpu_fildm16(fpu: &mut FpuState, word: u16)
    requires
        old(fpu).wf(),
    ensures
        final(fpu).wf(),
        final(fpu)@ == push(
            old(fpu)@,
            int_to_f80((word as i16) < 0, magnitude((word as i16) as int)),
            X87_SITE_FILD_M16,
        ),
{
    fpu_push_at(fpu, fpu_load_i16(word), X87_SITE_FILD_M16)
}

/// `fild m32`.
pub fn fpu_fildm32(fpu: &mut FpuState, v: i32)
    requires
        old(fpu).wf(),
    ensures
        final(fpu).wf(),
        final(fpu)@ == push(old(fpu)@, int_to_f80(v < 0, magnitude(v as int)), X87_SITE_FILD_M32),
{
    fpu_push_at(fpu, fpu_load_i32(v), X87_SITE_FILD_M32)
}

/// `fild m64`.
pub fn fpu_fildm64(fpu: &mut FpuState, bits: u64)
    requires
        old(fpu).wf(),
    ensures
        final(fpu).wf(),
        final(fpu)@ == push(
            old(fpu)@,
            int_to_f80((bits as i64) < 0, magnitude((bits as i64) as int)),
            X87_SITE_FILD_M64,
        ),
{
    fpu_push_at(fpu, fpu_load_i64(bits), X87_SITE_FILD_M64)
}

// ---- Doubles that generated code keeps inline ----

/// A double that an inline arm may compute on: a normal or a zero.
pub open spec fn spec_arm_ok(bits: u64) -> bool {
    let exp = (bits / 0x10_0000_0000_0000) % 0x800;
    (1 <= exp <= 0x7FE) || bits % 0x8000_0000_0000_0000 == 0
}

/// A single that a load may keep inline: a normal or a zero.
pub open spec fn spec_single_arm_ok(bits: u32) -> bool {
    let exp = (bits / 0x80_0000) % 0x100;
    (1 <= exp <= 0xFE) || bits % 0x8000_0000 == 0
}

/// The bits of the double that holds the same value as a normal or zero
/// single.
pub open spec fn single_as_double(bits: u32) -> u64 {
    let sign: int = if bits >= 0x8000_0000 { 0x8000_0000_0000_0000 } else { 0 };
    let exp = (bits / 0x80_0000) % 0x100;
    let frac = bits % 0x80_0000;
    if exp == 0 {
        sign as u64
    } else {
        (sign + (exp + 896) * 0x10_0000_0000_0000 + frac * 0x2000_0000) as u64
    }
}

/// Whether a double is one an inline arm may compute on: a normal or a
/// zero. Everything else raises a flag that the library sets.
pub fn fpu_arm_ok(bits: u64) -> (r: bool)
    ensures
        r == spec_arm_ok(bits),
{
    let exp = (bits / 0x10_0000_0000_0000) % 0x800;
    (1 <= exp && exp <= 0x7FE) || bits % 0x8000_0000_0000_0000 == 0
}

/// Whether a single is a normal or a zero.
pub fn single_arm_ok(bits: u32) -> (r: bool)
    ensures
        r == spec_single_arm_ok(bits),
{
    let exp = (bits / 0x80_0000) % 0x100;
    (1 <= exp && exp <= 0xFE) || bits % 0x8000_0000 == 0
}

/// A normal or zero single widened to a double, exactly: the double then
/// holds the value that the single widens to in the 80-bit format.
pub fn single_to_double_bits(bits: u32) -> (r: u64)
    requires
        spec_single_arm_ok(bits),
    ensures
        r == single_as_double(bits),
        widen_f64(r) == widen_f32(bits),
{
    let sign: u64 = if bits >= 0x8000_0000 { 0x8000_0000_0000_0000 } else { 0 };
    let exp = (bits / 0x80_0000) % 0x100;
    let frac = bits % 0x80_0000;
    if exp == 0 {
        sign
    } else {
        sign + (exp as u64 + 896) * 0x10_0000_0000_0000 + frac as u64 * 0x2000_0000
    }
}

/// The result an inline arm may keep, at the precision the control word
/// asks for: under single precision control, the result as the library
/// narrows it to 24 bits (`narrowed`); otherwise the double itself when a
/// normal or a zero; nothing for what the 80-bit path must compute instead.
pub fn fpu_arm_result(fpu: &FpuState, r: u64, narrowed: Option<u64>) -> (res: Option<u64>)
    ensures
        res == (if fpu.precision_single != 0 {
            narrowed
        } else if spec_arm_ok(r) {
            Some(r)
        } else {
            None
        }),
{
    if fpu.precision_single != 0 {
        narrowed
    } else if fpu_arm_ok(r) {
        Some(r)
    } else {
        None
    }
}

/// An arithmetic instruction's inline arm: when both operands are normals
/// or zeros and the arm kept a result, that result is written tagged to the
/// target physical register and the arm is taken; otherwise nothing
/// changes and the 80-bit path must run.
pub fn fpu_op_inline(fpu: &mut FpuState, target: i32, st0: u64, other: u64, result: Option<u64>) -> (taken: bool)
    requires
        old(fpu).wf(),
        0 <= target < 8,
    ensures
        final(fpu).wf(),
        taken == (result is Some && spec_arm_ok(st0) && spec_arm_ok(other)),
        taken ==> final(fpu)@ == write_tagged(old(fpu)@, target as int, result->0),
        !taken ==> final(fpu)@ == old(fpu)@,
{
    match result {
        Some(r) => {
            if fpu_arm_ok(st0) && fpu_arm_ok(other) {
                fpu_write_tagged(fpu, target, r);
                true
            } else {
                false
            }
        },
        None => false,
    }
}

/// `fst m64`'s inline arm: a tagged st(0) is stored as the double it
/// holds, and the store is noted as one done inline; anything else is
/// left to the 80-bit path, with nothing changed.
pub fn fpu_store_st0_m64_inline(fpu: &mut FpuState) -> (r: Option<u64>)
    requires
        old(fpu).wf(),
    ensures
        final(fpu).wf(),
        r == (if old(fpu).inline_doubles && old(fpu)@.is_tagged(old(fpu).stack_ptr as int) {
            Some(old(fpu).st@[old(fpu).stack_ptr as int].mantissa)
        } else {
            None
        }),
        r is Some ==> final(fpu)@ == noted(old(fpu)@, X87_SITE_INTERP_INLINE),
        r is None ==> final(fpu)@ == old(fpu)@,
{
    let r = fpu_tagged(fpu, fpu.stack_ptr as i32);
    if r.is_some() {
        note_x87_site(fpu, X87_SITE_INTERP_INLINE);
    }
    r
}

/// `fst m32`'s inline arm, given a tagged st(0)'s double and that double
/// narrowed to a single: taken when the double is a normal or a zero and
/// the single is a normal, or the double a zero; the store is then noted
/// as one done inline. Otherwise nothing changes and the 80-bit path runs.
pub fn fpu_store_single_inline(fpu: &mut FpuState, st0: u64, single: u32) -> (taken: bool)
    ensures
        taken == (spec_arm_ok(st0) && (st0 % 0x8000_0000_0000_0000 == 0 || spec_single_normal(single))),
        taken ==> final(fpu)@ == noted(old(fpu)@, X87_SITE_INTERP_INLINE),
        !taken ==> final(fpu)@ == old(fpu)@,
{
    let exp = (single / 0x80_0000) % 0x100;
    let normal = 1 <= exp && exp <= 0xFE;
    if fpu_arm_ok(st0) && (st0 % 0x8000_0000_0000_0000 == 0 || normal) {
        note_x87_site(fpu, X87_SITE_INTERP_INLINE);
        true
    } else {
        false
    }
}

/// A single that is a normal.
pub open spec fn spec_single_normal(bits: u32) -> bool {
    let exp = (bits / 0x80_0000) % 0x100;
    1 <= exp <= 0xFE
}

/// `fld m32`: a normal or a zero is pushed as a tagged double when inline
/// doubles are on; anything else goes through the 80-bit format, which is
/// where a signalling NaN raises the invalid operation.
pub fn fpu_fldm32(fpu: &mut FpuState, bits: i32)
    requires
        old(fpu).wf(),
    ensures
        final(fpu).wf(),
        old(fpu).inline_doubles && spec_single_arm_ok(bits as u32) ==> final(fpu)@ == push_tagged(
            old(fpu)@,
            single_as_double(bits as u32),
            X87_SITE_FLD_M32,
        ),
        !(old(fpu).inline_doubles && spec_single_arm_ok(bits as u32)) ==> final(fpu)@ == push(
            raise(old(fpu)@, if f32_is_snan(bits as u32) { FPU_EX_I } else { 0 }),
            widen_f32(bits as u32),
            X87_SITE_FLD_M32,
        ),
{
    if fpu.inline_doubles && single_arm_ok(bits as u32) {
        fpu_push_f64(fpu, single_to_double_bits(bits as u32), X87_SITE_FLD_M32)
    } else {
        let x = f32_to_f80(fpu, bits);
        fpu_push_at(fpu, x, X87_SITE_FLD_M32)
    }
}

/// `fld m64`: a normal or a zero is pushed as a tagged double when inline
/// doubles are on; anything else goes through the 80-bit format.
pub fn fpu_fldm64(fpu: &mut FpuState, bits: u64)
    requires
        old(fpu).wf(),
    ensures
        final(fpu).wf(),
        old(fpu).inline_doubles && spec_arm_ok(bits) ==> final(fpu)@ == push_tagged(old(fpu)@, bits, X87_SITE_FLD_M64),
        !(old(fpu).inline_doubles && spec_arm_ok(bits)) ==> final(fpu)@ == push(
            raise(old(fpu)@, if f64_is_snan(bits) { FPU_EX_I } else { 0 }),
            widen_f64(bits),
            X87_SITE_FLD_M64,
        ),
{
    if fpu.inline_doubles && fpu_arm_ok(bits) {
        fpu_push_f64(fpu, bits, X87_SITE_FLD_M64)
    } else {
        let x = f64_to_f80(fpu, bits);
        fpu_push_at(fpu, x, X87_SITE_FLD_M64)
    }
}


// ---- Moves between registers ----

/// `fcmovcc`: st(r) is read first, so that an empty st(r) is a stack fault
/// whether or not the condition holds; an empty st(r) leaves the indefinite
/// NaN in st(0), else st(0) is full and takes st(r) when the condition
/// holds.
pub open spec fn fcmovcc_spec(m: FpuModel, condition: bool, r: int) -> FpuModel {
    let (m1, x) = read_sti(m, r);
    let top = m.stack_ptr as int;
    if m.is_empty(m.phys(r)) {
        write_st(m1, top, spec_indefinite_nan(), X87_SITE_FCMOVCC)
    } else if condition {
        write_st(FpuModel { stack_empty: m1.stack_empty & !(1u8 << m.stack_ptr), ..m1 }, top, x, X87_SITE_FCMOVCC)
    } else {
        m1
    }
}

/// `fst st(r)`: st(r) takes st(0), and is full when st(0) was.
pub open spec fn fst_spec(m: FpuModel, r: int) -> FpuModel {
    let idx = m.phys(r);
    let (m1, v) = read_sti(m, 0);
    let m2 = if !m.is_empty(m.stack_ptr as int) {
        FpuModel { stack_empty: m1.stack_empty & !(1u8 << (idx as u8)), ..m1 }
    } else {
        m1
    };
    write_st(m2, idx, v, X87_SITE_FST_STI)
}

/// `fxch st(i)`: st(i) and st(0) trade values, each read as a read does.
pub open spec fn fxch_spec(m: FpuModel, i: int) -> FpuModel {
    let (m1, sti) = read_sti(m, i);
    let (m2, st0) = read_sti(m1, 0);
    write_st(write_st(m2, m.phys(i), st0, X87_SITE_FXCH), m.stack_ptr as int, sti, X87_SITE_FXCH)
}

/// `fcmovcc st(0), st(r)`.
pub fn fpu_fcmovcc(fpu: &mut FpuState, condition: bool, r: i32)
    requires
        old(fpu).wf(),
        0 <= r < 8,
    ensures
        final(fpu).wf(),
        final(fpu)@ == fcmovcc_spec(old(fpu)@, condition, r as int),
{
    let x = fpu_get_sti(fpu, r);
    if fpu_sti_empty(fpu, r) {
        fpu_write_st_at(fpu, fpu.stack_ptr as i32, F80::indefinite_nan(), X87_SITE_FCMOVCC)
    } else {
        if condition {
            // The register is marked full before the write, so that the
            // write leaves it in the form a full register takes.
            let mask = fpu.stack_empty & !(1u8 << fpu.stack_ptr);
            proof {
                lemma_mark_full_wf(fpu@, fpu.stack_ptr, mask);
            }
            fpu.stack_empty = mask;
            fpu_write_st_at(fpu, fpu.stack_ptr as i32, x, X87_SITE_FCMOVCC);
        }
    }
}

/// `fst st(r)`; `r` is taken modulo 8.
pub fn fpu_fst(fpu: &mut FpuState, r: i32)
    requires
        old(fpu).wf(),
    ensures
        final(fpu).wf(),
        final(fpu)@ == fst_spec(old(fpu)@, (r & 7) as int),
{
    let k = crate::bits::low_three_bits(r);
    let index: i32 = (fpu.stack_ptr as i32 + k) % 8;
    let st0 = fpu_get_st0(fpu);
    if (fpu.stack_empty >> fpu.stack_ptr) & 1 == 0 {
        let mask = fpu.stack_empty & !(1u8 << (index as u8));
        proof {
            lemma_mark_full_wf(fpu@, index as u8, mask);
        }
        fpu.stack_empty = mask;
    }
    proof {
        crate::bits::lemma_bit_is_01(old(fpu).stack_empty, old(fpu).stack_ptr);
    }
    fpu_write_st_at(fpu, index, st0, X87_SITE_FST_STI);
}

/// `fstp st(r)`: `fst st(r)`, then a pop.
pub fn fpu_fstp(fpu: &mut FpuState, r: i32)
    requires
        old(fpu).wf(),
    ensures
        final(fpu).wf(),
        final(fpu)@ == pop(fst_spec(old(fpu)@, (r & 7) as int)),
{
    fpu_fst(fpu, r);
    fpu_pop(fpu);
}

/// `fxch st(i)`.
pub fn fpu_fxch(fpu: &mut FpuState, i: i32)
    requires
        old(fpu).wf(),
        0 <= i < 8,
    ensures
        final(fpu).wf(),
        final(fpu)@ == fxch_spec(old(fpu)@, i as int),
{
    let sti = fpu_get_sti(fpu, i);
    let index: i32 = (fpu.stack_ptr as i32 + i) % 8;
    let st0 = fpu_get_st0(fpu);
    fpu_write_st_at(fpu, index, st0, X87_SITE_FXCH);
    fpu_write_st_at(fpu, fpu.stack_ptr as i32, sti, X87_SITE_FXCH);
}

/// `fchs`: st(0) with its sign flipped.
pub fn fpu_fchs(fpu: &mut FpuState)
    requires
        old(fpu).wf(),
    ensures
        final(fpu).wf(),
        final(fpu)@ == write_st(
            read_sti(old(fpu)@, 0).0,
            old(fpu).stack_ptr as int,
            read_sti(old(fpu)@, 0).1.spec_neg(),
            X87_SITE_SIGN,
        ),
{
    let st0 = fpu_get_st0(fpu);
    fpu_write_st_at(fpu, fpu.stack_ptr as i32, st0.neg(), X87_SITE_SIGN);
}

/// `fabs`: st(0) with its sign cleared.
pub fn fpu_fabs(fpu: &mut FpuState)
    requires
        old(fpu).wf(),
    ensures
        final(fpu).wf(),
        final(fpu)@ == write_st(
            read_sti(old(fpu)@, 0).0,
            old(fpu).stack_ptr as int,
            read_sti(old(fpu)@, 0).1.spec_abs(),
            X87_SITE_SIGN,
        ),
{
    let st0 = fpu_get_st0(fpu);
    fpu_write_st_at(fpu, fpu.stack_ptr as i32, st0.abs(), X87_SITE_SIGN);
}

/// `fxtract`: st(0) splits into its exponent, left in st(0), and its
/// significand with the exponent of one, pushed. A zero is a division by
/// zero: minus infinity in st(0), the zero pushed.
pub open spec fn fxtract_spec(m: FpuModel) -> FpuModel {
    let (m1, st0) = read_sti(m, 0);
    let top = m.stack_ptr as int;
    if st0.spec_is_zero() {
        push(
            write_st(
                raise(m1, FPU_EX_Z),
                top,
                F80 { mantissa: 0x8000_0000_0000_0000, sign_exponent: 0xFFFF },
                X87_SITE_TRANSCENDENTAL,
            ),
            st0,
            X87_SITE_PUSH_OTHER,
        )
    } else {
        let exp = st0.exp_field() - 0x3FFF;
        push(
            write_st(m1, top, int_to_f80(exp < 0, magnitude(exp)), X87_SITE_TRANSCENDENTAL),
            F80 { sign_exponent: 0x3FFF, mantissa: st0.mantissa },
            X87_SITE_PUSH_OTHER,
        )
    }
}

/// `fxtract`.
pub fn fpu_fxtract(fpu: &mut FpuState)
    requires
        old(fpu).wf(),
    ensures
        final(fpu).wf(),
        final(fpu)@ == fxtract_spec(old(fpu)@),
{
    let st0 = fpu_get_st0(fpu);
    if st0.is_zero() {
        fpu_zero_fault(fpu);
        fpu_write_st_at(fpu, fpu.stack_ptr as i32, F80::neg_infinity(), X87_SITE_TRANSCENDENTAL);
        fpu_push(fpu, st0);
    } else {
        let exp = st0.exponent();
        fpu_write_st_at(fpu, fpu.stack_ptr as i32, F80::of_i32(exp as i32), X87_SITE_TRANSCENDENTAL);
        fpu_push(fpu, F80 { sign_exponent: 0x3FFF, mantissa: st0.mantissa });
    }
}

// ---- Examining st(0) ----

/// The condition codes `ftst` sets for `x`: unordered for a NaN, equal for
/// a zero, less for a value below zero, greater otherwise.
pub open spec fn ftst_code(x: F80) -> u16 {
    if x.spec_is_nan() {
        FPU_C3 | FPU_C2 | FPU_C0
    } else if x.spec_is_zero() {
        FPU_C3
    } else if x.spec_lt_zero() {
        FPU_C0
    } else {
        0
    }
}

/// `ftst`: compares st(0) with zero.
pub fn fpu_ftst(fpu: &mut FpuState)
    requires
        old(fpu).wf(),
    ensures
        final(fpu).wf(),
        final(fpu)@ == ({
            let (m1, x) = read_sti(old(fpu)@, 0);
            FpuModel { status_word: (m1.status_word & !FPU_RESULT_FLAGS) | ftst_code(x), ..m1 }
        }),
{
    let x = fpu_get_st0(fpu);
    fpu.status_word = fpu.status_word & !FPU_RESULT_FLAGS;
    if x.is_nan() {
        fpu.status_word = fpu.status_word | (FPU_C3 | FPU_C2 | FPU_C0);
    } else if x.is_zero() {
        fpu.status_word = fpu.status_word | FPU_C3;
    } else if x.lt_zero() {
        fpu.status_word = fpu.status_word | FPU_C0;
    } else {
        proof {
            assert(fpu.status_word | 0u16 == fpu.status_word) by (bit_vector);
        }
    }
}

/// The class `fxam` reports: empty, NaN, zero, infinity, or a finite value.
pub open spec fn fxam_class(empty: bool, x: F80) -> u16 {
    if empty {
        FPU_C3 | FPU_C0
    } else if x.spec_is_nan() {
        FPU_C0
    } else if x.spec_is_zero() {
        FPU_C3
    } else if !x.spec_is_finite() {
        FPU_C2 | FPU_C0
    } else {
        FPU_C2
    }
}

/// The state after `fxam`: st(0) read, the condition codes replaced by
/// its sign in C1 and its class in C3, C2 and C0.
pub open spec fn fxam_spec(m: FpuModel) -> FpuModel {
    let (m1, x) = read_sti(m, 0);
    FpuModel {
        status_word: ((m1.status_word & !FPU_RESULT_FLAGS) | (if x.is_neg() { FPU_C1 } else { 0 }))
            | fxam_class(m.is_empty(m.stack_ptr as int), x),
        ..m1
    }
}

/// `fxam`: the sign of st(0) in C1 and its class in C3, C2 and C0.
pub fn fpu_fxam(fpu: &mut FpuState)
    requires
        old(fpu).wf(),
    ensures
        final(fpu).wf(),
        final(fpu)@ == fxam_spec(old(fpu)@),
{
    let x = fpu_get_st0(fpu);
    fpu.status_word = fpu.status_word & !FPU_RESULT_FLAGS;
    let sign: u16 = if x.sign() { FPU_C1 } else { 0 };
    fpu.status_word = fpu.status_word | sign;
    let class: u16 = if (fpu.stack_empty >> fpu.stack_ptr) & 1 == 1 {
        FPU_C3 | FPU_C0
    } else if x.is_nan() {
        FPU_C0
    } else if x.is_zero() {
        FPU_C3
    } else if !x.is_finite() {
        FPU_C2 | FPU_C0
    } else {
        FPU_C2
    };
    fpu.status_word = fpu.status_word | class;
}

} // verus!
