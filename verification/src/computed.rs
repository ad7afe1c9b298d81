//! What the unit does with the values that the float library computes for
//! `fprem`, `fscale`, the logarithms, `fpatan`, `fptan`, `fsin`, `fcos` and
//! `fsincos`: where each result goes, what is pushed and popped, and which
//! condition codes change. The library's results come in as arguments.
use vstd::prelude::*;
use crate::f80::F80;
use crate::results::{fprem_status, fscale_fast, scale_steps, clamp, fpu_fscale_fast, fpu_fscale_steps};
use crate::state::{
    FpuState, FpuModel, FPU_C2, X87_SITE_FPREM, X87_SITE_TRANSCENDENTAL, X87_SITE_PUSH_OTHER, write_st, pop,
    push, fpu_write_st_at, fpu_pop, fpu_push, fpu_tagged,
};
use crate::results::fpu_fprem_quotient;

verus! {

/// The status word with C2 clear: the argument was in range.
pub open spec fn clear_c2(m: FpuModel) -> FpuModel {
    FpuModel { status_word: m.status_word & !FPU_C2, ..m }
}

/// A complete `fprem`: the remainder in st(0), then the quotient's low
/// bits in C1, C3 and C0, and C2 clear.
pub fn fpu_fprem_done(fpu: &mut FpuState, remainder: F80, quotient: i32)
    requires
        old(fpu).wf(),
    ensures
        final(fpu).wf(),
        final(fpu)@ == ({
            let w = write_st(old(fpu)@, old(fpu).stack_ptr as int, remainder, X87_SITE_FPREM);
            FpuModel { status_word: fprem_status(w.status_word, quotient), ..w }
        }),
{
    fpu_write_st_at(fpu, fpu.stack_ptr as i32, remainder, X87_SITE_FPREM);
    fpu_fprem_quotient(fpu, quotient);
}

/// The result of `fyl2x`, `fyl2xp1` or `fpatan` goes to st(1), and the
/// stack is popped, so that it ends in st(0).
pub fn fpu_store_st1_and_pop(fpu: &mut FpuState, value: F80)
    requires
        old(fpu).wf(),
    ensures
        final(fpu).wf(),
        final(fpu)@ == pop(write_st(old(fpu)@, old(fpu)@.phys(1), value, X87_SITE_TRANSCENDENTAL)),
{
    let index = ((fpu.stack_ptr + 1) % 8) as i32;
    fpu_write_st_at(fpu, index, value, X87_SITE_TRANSCENDENTAL);
    fpu_pop(fpu);
}

/// The result of `fsin` or `fcos` goes to st(0), and C2 is cleared.
pub fn fpu_store_st0_clear_c2(fpu: &mut FpuState, value: F80)
    requires
        old(fpu).wf(),
    ensures
        final(fpu).wf(),
        final(fpu)@ == clear_c2(write_st(old(fpu)@, old(fpu).stack_ptr as int, value, X87_SITE_TRANSCENDENTAL)),
{
    fpu_write_st_at(fpu, fpu.stack_ptr as i32, value, X87_SITE_TRANSCENDENTAL);
    fpu.status_word = fpu.status_word & !FPU_C2;
}

/// `fptan` and `fsincos`: the first result goes to st(0), the second is
/// pushed (one, for `fptan`), and C2 is cleared.
pub fn fpu_store_and_push_clear_c2(fpu: &mut FpuState, first: F80, second: F80)
    requires
        old(fpu).wf(),
    ensures
        final(fpu).wf(),
        final(fpu)@ == clear_c2(
            push(
                write_st(old(fpu)@, old(fpu).stack_ptr as int, first, X87_SITE_TRANSCENDENTAL),
                second,
                X87_SITE_PUSH_OTHER,
            ),
        ),
{
    fpu_write_st_at(fpu, fpu.stack_ptr as i32, first, X87_SITE_TRANSCENDENTAL);
    fpu_push(fpu, second);
    fpu.status_word = fpu.status_word & !FPU_C2;
}

/// st(0) and st(i) as the doubles they hold, when both are tagged and
/// reading doubles inline is on; `i` is taken modulo 8.
pub fn fpu_tagged_pair(fpu: &FpuState, i: i32) -> (r: Option<(u64, u64)>)
    requires
        fpu.wf(),
    ensures
        r == (if fpu.inline_doubles && fpu@.is_tagged(fpu.stack_ptr as int) && fpu@.is_tagged(
            fpu@.phys((i & 7) as int),
        ) {
            Some((fpu.st@[fpu.stack_ptr as int].mantissa, fpu.st@[fpu@.phys((i & 7) as int)].mantissa))
        } else {
            None
        }),
{
    let k = crate::bits::low_three_bits(i);
    let index = (fpu.stack_ptr as i32 + k) % 8;
    match (fpu_tagged(fpu, fpu.stack_ptr as i32), fpu_tagged(fpu, index)) {
        (Some(a), Some(b)) => Some((a, b)),
        _ => None,
    }
}

// ---- fscale ----

/// How `fscale` computes its result.
#[derive(Debug, PartialEq, Eq)]
pub enum FscalePlan {
    /// The result, on the exponent field alone.
    Scaled(F80),
    /// st(0) times st(1): the scale is a NaN.
    TimesOperand,
    /// st(0) times infinity: the scale is plus infinity.
    TimesInfinity,
    /// st(0) times zero: the scale is minus infinity.
    TimesZero,
    /// st(0) times 2^step for each step in turn.
    Steps(Vec<i32>),
}

/// The integer part of a finite double, toward zero, with any magnitude of
/// 2^16 or more taken as 2^16: no scale that large stays in the format.
pub open spec fn trunc_saturated(bits: u64) -> int {
    let negative = bits >= 0x8000_0000_0000_0000;
    let exp = (bits / 0x10_0000_0000_0000) % 0x800;
    let frac = bits % 0x10_0000_0000_0000;
    let magnitude: int = if exp < 1023 {
        0
    } else if exp >= 1039 {
        0x10000
    } else {
        (((0x10_0000_0000_0000 + frac) as u64) >> ((1075 - exp) as u64)) as int
    };
    if negative { -magnitude } else { magnitude }
}

/// A plan for `fscale`, as mathematical values.
pub ghost enum FscaleChoice {
    Scaled(F80),
    TimesOperand,
    TimesInfinity,
    TimesZero,
    Steps(Seq<i32>),
}

impl View for FscalePlan {
    type V = FscaleChoice;

    open spec fn view(&self) -> FscaleChoice {
        match self {
            FscalePlan::Scaled(y) => FscaleChoice::Scaled(*y),
            FscalePlan::TimesOperand => FscaleChoice::TimesOperand,
            FscalePlan::TimesInfinity => FscaleChoice::TimesInfinity,
            FscalePlan::TimesZero => FscaleChoice::TimesZero,
            FscalePlan::Steps(v) => FscaleChoice::Steps(v@),
        }
    }
}

/// The plan for `fscale` of `st0` by the double with bits `scale`, the
/// integer part of st(1): a NaN multiplies by st(1), an infinity by
/// infinity or zero; otherwise the exponent field alone when the result
/// stays a normal, else the steps of 2^±16382 and the remainder.
pub open spec fn fscale_plan_of(st0: F80, scale: u64) -> FscaleChoice {
    let exp = (scale / 0x10_0000_0000_0000) % 0x800;
    let frac = scale % 0x10_0000_0000_0000;
    if exp == 0x7FF {
        if frac != 0 {
            FscaleChoice::TimesOperand
        } else if scale < 0x8000_0000_0000_0000 {
            FscaleChoice::TimesInfinity
        } else {
            FscaleChoice::TimesZero
        }
    } else {
        let n = trunc_saturated(scale);
        match fscale_fast(st0, n) {
            Some(y) => FscaleChoice::Scaled(y),
            None => FscaleChoice::Steps(scale_steps(clamp(n, 49146))),
        }
    }
}

/// `fscale`'s plan for `st0` and the bits of the double that st(1),
/// truncated, converts to.
pub fn fpu_fscale_plan(st0: F80, scale: u64) -> (r: FscalePlan)
    ensures
        r@ == fscale_plan_of(st0, scale),
{
    let exp = (scale / 0x10_0000_0000_0000) % 0x800;
    let frac = scale % 0x10_0000_0000_0000;
    let negative = scale >= 0x8000_0000_0000_0000;
    if exp == 0x7FF {
        return if frac != 0 {
            FscalePlan::TimesOperand
        } else if !negative {
            FscalePlan::TimesInfinity
        } else {
            FscalePlan::TimesZero
        };
    }
    let magnitude: i64 = if exp < 1023 {
        0
    } else if exp >= 1039 {
        0x10000
    } else {
        let sig: u64 = 0x10_0000_0000_0000 + frac;
        let shift: u64 = 1075 - exp;
        let m = sig >> shift;
        assert(m < 0x10000) by (bit_vector)
            requires
                sig < 0x20_0000_0000_0000,
                37 <= shift <= 52,
                m == sig >> shift,
        ;
        m as i64
    };
    let n: i64 = if negative { -magnitude } else { magnitude };
    match fpu_fscale_fast(st0, n) {
        Some(y) => FscalePlan::Scaled(y),
        None => FscalePlan::Steps(fpu_fscale_steps(n)),
    }
}

} // verus!
