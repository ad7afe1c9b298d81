//! What the unit does with the results of arithmetic, comparisons and
//! conversions: the condition codes and flags they leave, where results go,
//! the narrowing of integers, the packed-decimal store, and the integer
//! parts of `fprem` and `fscale`.
use vstd::prelude::*;
use core::cmp::Ordering;
use crate::state::{
    FpuState, FpuModel, FPU_C0, FPU_C2, FPU_C3, FPU_RESULT_FLAGS, FPU_EX_I, X87_SITE_INTERP_INLINE, raise, pop, noted,
    fpu_pop, fpu_merge_exceptions, note_x87_site,
};

verus! {

/// The carry flag.
pub const FLAG_CARRY: i32 = 1;
/// The parity flag.
pub const FLAG_PARITY: i32 = 4;
/// The zero flag.
pub const FLAG_ZERO: i32 = 64;
/// The arithmetic flags a compare into EFLAGS replaces: carry, parity,
/// adjust, zero, sign and overflow.
pub const FLAGS_ALL: i32 = 0x8D5;

/// The condition codes of an ordering of st(0) against an operand: greater
/// clears them, less sets C0, equal sets C3, unordered sets C3, C2 and C0.
pub open spec fn compare_code(order: Option<Ordering>) -> u16 {
    match order {
        Some(Ordering::Greater) => 0,
        Some(Ordering::Less) => FPU_C0,
        Some(Ordering::Equal) => FPU_C3,
        None => FPU_C0 | FPU_C2 | FPU_C3,
    }
}

/// The EFLAGS bits of an ordering: greater clears them, less sets carry,
/// equal sets zero, unordered sets carry, parity and zero.
pub open spec fn compare_eflags(order: Option<Ordering>) -> i32 {
    match order {
        Some(Ordering::Greater) => 0,
        Some(Ordering::Less) => FLAG_CARRY,
        Some(Ordering::Equal) => FLAG_ZERO,
        None => FLAG_CARRY | FLAG_PARITY | FLAG_ZERO,
    }
}

/// The status word after a compare: the condition codes replaced, then the
/// compare's exceptions merged.
pub open spec fn compared(m: FpuModel, order: Option<Ordering>, exceptions: u16) -> FpuModel {
    FpuModel {
        status_word: ((m.status_word & !FPU_RESULT_FLAGS) | compare_code(order)) | exceptions,
        ..m
    }
}

fn code_of(order: Option<Ordering>) -> (r: u16)
    ensures
        r == compare_code(order),
{
    match order {
        Some(Ordering::Greater) => 0,
        Some(Ordering::Less) => FPU_C0,
        Some(Ordering::Equal) => FPU_C3,
        None => FPU_C0 | FPU_C2 | FPU_C3,
    }
}

/// The ordering of two doubles into C3, C2 and C0, as the inline compare
/// deposits it: unordered when either side is a NaN, and for the
/// signalling forms an invalid operation as well. The compare is noted as
/// one done inline.
pub fn fpu_cmp_f64(fpu: &mut FpuState, order: Option<Ordering>, signals: bool)
    ensures
        final(fpu)@ == compared(
            noted(old(fpu)@, X87_SITE_INTERP_INLINE),
            order,
            if order is None && signals { FPU_EX_I } else { 0 },
        ),
{
    note_x87_site(fpu, X87_SITE_INTERP_INLINE);
    let flags: u16 = if order.is_none() && signals { FPU_EX_I } else { 0 };
    fpu.status_word = ((fpu.status_word & !FPU_RESULT_FLAGS) | code_of(order)) | flags;
}

/// `fcom`: st(0), read by the caller, ordered against the operand; the
/// compare's exceptions are merged after the condition codes.
pub fn fpu_fcom(fpu: &mut FpuState, order: Option<Ordering>, exceptions: u16)
    ensures
        final(fpu)@ == compared(old(fpu)@, order, exceptions),
{
    fpu.status_word = ((fpu.status_word & !FPU_RESULT_FLAGS) | code_of(order)) | exceptions;
}

/// `fcomp`: `fcom`, then a pop.
pub fn fpu_fcomp(fpu: &mut FpuState, order: Option<Ordering>, exceptions: u16)
    requires
        old(fpu).wf(),
    ensures
        final(fpu).wf(),
        final(fpu)@ == pop(compared(old(fpu)@, order, exceptions)),
{
    fpu_fcom(fpu, order, exceptions);
    fpu_pop(fpu);
}

/// `fucom`: as `fcom`; the quiet compare differs only in the exceptions it
/// raises.
pub fn fpu_fucom(fpu: &mut FpuState, order: Option<Ordering>, exceptions: u16)
    ensures
        final(fpu)@ == compared(old(fpu)@, order, exceptions),
{
    fpu_fcom(fpu, order, exceptions)
}

/// `fucomp`: `fucom`, then a pop.
pub fn fpu_fucomp(fpu: &mut FpuState, order: Option<Ordering>, exceptions: u16)
    requires
        old(fpu).wf(),
    ensures
        final(fpu).wf(),
        final(fpu)@ == pop(compared(old(fpu)@, order, exceptions)),
{
    fpu_fucom(fpu, order, exceptions);
    fpu_pop(fpu);
}

/// `fucompp`: `fucom` against st(1), then two pops.
pub fn fpu_fucompp(fpu: &mut FpuState, order: Option<Ordering>, exceptions: u16)
    requires
        old(fpu).wf(),
    ensures
        final(fpu).wf(),
        final(fpu)@ == pop(pop(compared(old(fpu)@, order, exceptions))),
{
    fpu_fucom(fpu, order, exceptions);
    fpu_pop(fpu);
    fpu_pop(fpu);
}

fn eflags_of(order: Option<Ordering>) -> (r: i32)
    ensures
        r == compare_eflags(order),
{
    match order {
        Some(Ordering::Greater) => 0,
        Some(Ordering::Less) => FLAG_CARRY,
        Some(Ordering::Equal) => FLAG_ZERO,
        None => FLAG_CARRY | FLAG_PARITY | FLAG_ZERO,
    }
}

/// `fcomi`: the ordering of st(0) against st(r) into EFLAGS, whose other
/// arithmetic flags are cleared; the compare's exceptions go to the status
/// word. Returns the new EFLAGS.
pub fn fpu_fcomi(fpu: &mut FpuState, eflags: i32, order: Option<Ordering>, exceptions: u16) -> (r: i32)
    ensures
        r == (eflags & !FLAGS_ALL) | compare_eflags(order),
        final(fpu)@ == raise(old(fpu)@, exceptions),
{
    fpu_merge_exceptions(fpu, exceptions);
    (eflags & !FLAGS_ALL) | eflags_of(order)
}

/// `fcomip`: `fcomi`, then a pop.
pub fn fpu_fcomip(fpu: &mut FpuState, eflags: i32, order: Option<Ordering>, exceptions: u16) -> (r: i32)
    requires
        old(fpu).wf(),
    ensures
        final(fpu).wf(),
        r == (eflags & !FLAGS_ALL) | compare_eflags(order),
        final(fpu)@ == pop(raise(old(fpu)@, exceptions)),
{
    let r = fpu_fcomi(fpu, eflags, order, exceptions);
    fpu_pop(fpu);
    r
}

/// `fucomi`: as `fcomi`, with the quiet compare's exceptions.
pub fn fpu_fucomi(fpu: &mut FpuState, eflags: i32, order: Option<Ordering>, exceptions: u16) -> (r: i32)
    ensures
        r == (eflags & !FLAGS_ALL) | compare_eflags(order),
        final(fpu)@ == raise(old(fpu)@, exceptions),
{
    fpu_fcomi(fpu, eflags, order, exceptions)
}

/// `fucomip`: `fucomi`, then a pop.
pub fn fpu_fucomip(fpu: &mut FpuState, eflags: i32, order: Option<Ordering>, exceptions: u16) -> (r: i32)
    requires
        old(fpu).wf(),
    ensures
        final(fpu).wf(),
        r == (eflags & !FLAGS_ALL) | compare_eflags(order),
        final(fpu)@ == pop(raise(old(fpu)@, exceptions)),
{
    let r = fpu_fucomi(fpu, eflags, order, exceptions);
    fpu_pop(fpu);
    r
}

} // verus!
