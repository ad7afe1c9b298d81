//! Where arithmetic results go, the narrowing of integers, the
//! packed-decimal store, and the integer parts of `fprem` and `fscale`.
use vstd::prelude::*;
use crate::f80::{F80, magnitude, spec_indefinite_nan};
use crate::le::{le16, le64, push_le16, push_le64};
use crate::state::{
    FpuState, FpuModel, FPU_C0, FPU_C1, FPU_C2, FPU_C3, FPU_EX_I, FPU_EX_Z, X87_SITE_ARITH, X87_SITE_FPREM,
    write_st, raise, pop, fpu_write_st, fpu_write_st_at, fpu_pop, fpu_invalid_arithmetic, fpu_zero_fault,
    fpu_merge_exceptions,
};

verus! {

/// Where an arithmetic result goes: st(target), the index taken modulo 8,
/// with the operation's exceptions merged into the status word after the
/// write.
pub fn fpu_store_arith(fpu: &mut FpuState, target_index: i32, result: F80, exceptions: u16)
    requires
        old(fpu).wf(),
    ensures
        final(fpu).wf(),
        final(fpu)@ == raise(
            write_st(old(fpu)@, old(fpu)@.phys((target_index & 7) as int), result, X87_SITE_ARITH),
            exceptions,
        ),
{
    let k = crate::bits::low_three_bits(target_index);
    let index = (fpu.stack_ptr as i32 + k) % 8;
    fpu_write_st(fpu, index, result);
    fpu_merge_exceptions(fpu, exceptions);
}

// ---- Narrowing to 16 bits ----

/// A 32-bit integer narrowed to 16 bits: itself when it fits, else the
/// integer indefinite, with an invalid operation.
pub open spec fn narrow_i16(v: i32) -> i16 {
    if v < -0x8000 || v > 0x7FFF { -0x8000i16 } else { v as i16 }
}

/// `fist m16`'s conversion, from the 32-bit conversion of st(0).
pub fn fpu_convert_to_i16(fpu: &mut FpuState, converted: i32) -> (r: i16)
    ensures
        r == narrow_i16(converted),
        final(fpu)@ == (if converted < -0x8000 || converted > 0x7FFF {
            raise(old(fpu)@, FPU_EX_I)
        } else {
            old(fpu)@
        }),
{
    if converted < -0x8000 || converted > 0x7FFF {
        fpu_invalid_arithmetic(fpu);
        -0x8000
    } else {
        converted as i16
    }
}

/// `fisttp m16`'s conversion, from the 32-bit truncation of st(0).
pub fn fpu_truncate_to_i16(fpu: &mut FpuState, truncated: i32) -> (r: i16)
    ensures
        r == narrow_i16(truncated),
        final(fpu)@ == (if truncated < -0x8000 || truncated > 0x7FFF {
            raise(old(fpu)@, FPU_EX_I)
        } else {
            old(fpu)@
        }),
{
    if truncated < -0x8000 || truncated > 0x7FFF {
        fpu_invalid_arithmetic(fpu);
        -0x8000
    } else {
        truncated as i16
    }
}

// ---- fyl2x ----

/// `fyl2x`'s check of st(0), read by the caller, before the logarithm: a
/// value below zero is an invalid operation, a zero a division by zero;
/// anything else leaves the state as it was.
pub fn fpu_fyl2x_check(fpu: &mut FpuState, st0: F80)
    ensures
        final(fpu)@ == (if st0.spec_lt_zero() {
            raise(old(fpu)@, FPU_EX_I)
        } else if st0.spec_is_zero() {
            raise(old(fpu)@, FPU_EX_Z)
        } else {
            old(fpu)@
        }),
{
    if st0.lt_zero() {
        fpu_invalid_arithmetic(fpu);
    } else if st0.is_zero() {
        fpu_zero_fault(fpu);
    }
}

// ---- fprem ----

/// `fprem` with a zero divisor: an invalid operation for 0/0, a division by
/// zero otherwise; st(0) takes the indefinite NaN.
pub fn fpu_fprem_by_zero(fpu: &mut FpuState, st0: F80)
    requires
        old(fpu).wf(),
    ensures
        final(fpu).wf(),
        final(fpu)@ == write_st(
            raise(old(fpu)@, if st0.spec_is_zero() { FPU_EX_I } else { FPU_EX_Z }),
            old(fpu).stack_ptr as int,
            spec_indefinite_nan(),
            X87_SITE_FPREM,
        ),
{
    if st0.is_zero() {
        fpu_invalid_arithmetic(fpu);
    } else {
        fpu_zero_fault(fpu);
    }
    fpu_write_st_at(fpu, fpu.stack_ptr as i32, F80::indefinite_nan(), X87_SITE_FPREM);
}

/// The status word after a complete `fprem`: the low three quotient bits
/// in C1, C3 and C0, and C2 clear.
pub open spec fn fprem_status(sw: u16, quotient: i32) -> u16 {
    ((((sw & !(FPU_C0 | FPU_C1 | FPU_C3)) | (if quotient & 1 != 0 { FPU_C1 } else { 0 })) | (if quotient & 2
        != 0 {
        FPU_C3
    } else {
        0
    })) | (if quotient & 4 != 0 { FPU_C0 } else { 0 })) & !FPU_C2
}

/// Reports a complete `fprem` with the quotient's low bits.
pub fn fpu_fprem_quotient(fpu: &mut FpuState, quotient: i32)
    ensures
        final(fpu)@ == (FpuModel { status_word: fprem_status(old(fpu).status_word, quotient), ..old(fpu)@ }),
{
    let mut sw = fpu.status_word & !(FPU_C0 | FPU_C1 | FPU_C3);
    sw = sw | (if quotient & 1 != 0 { FPU_C1 } else { 0 });
    sw = sw | (if quotient & 2 != 0 { FPU_C3 } else { 0 });
    sw = sw | (if quotient & 4 != 0 { FPU_C0 } else { 0 });
    fpu.status_word = sw & !FPU_C2;
}

// ---- Packed decimal ----

/// The largest magnitude that eighteen decimal digits hold.
pub const BCD_MAX: u64 = 999_999_999_999_999_999;

/// The low `n` bytes of packed decimal for `x`: two digits a byte, the
/// lower digit in the low nibble, the lowest pair first.
pub open spec fn bcd_bytes(x: nat, n: nat) -> Seq<u8>
    decreases n,
{
    if n == 0 {
        Seq::empty()
    } else {
        seq![(((x / 10) % 10) * 16 + x % 10) as u8] + bcd_bytes(x / 100, (n - 1) as nat)
    }
}

/// What `fbstp` stores for an integer of magnitude `x`: eighteen digits and
/// a sign byte when they hold it, the packed-decimal indefinite otherwise.
pub open spec fn fbstp_image(x: nat, negative: bool) -> Seq<u8> {
    if x <= BCD_MAX {
        bcd_bytes(x, 9).push(if negative { 0x80u8 } else { 0u8 })
    } else {
        le64(0xC000_0000_0000_0000) + le16(0xFFFF)
    }
}

/// `fbstp`: st(0), read by the caller and rounded to the integer given,
/// stored as packed decimal with the sign of st(0); too large a magnitude
/// is an invalid operation and stores the indefinite. Then a pop.
pub fn fpu_fbstp(fpu: &mut FpuState, st0: F80, integer: i64) -> (r: Vec<u8>)
    requires
        old(fpu).wf(),
    ensures
        final(fpu).wf(),
        r@ == fbstp_image(magnitude(integer as int), st0.is_neg()),
        final(fpu)@ == pop(if magnitude(integer as int) <= BCD_MAX {
            old(fpu)@
        } else {
            raise(old(fpu)@, FPU_EX_I)
        }),
{
    let mut x: u64 = if integer == i64::MIN {
        0x8000_0000_0000_0000
    } else if integer < 0 {
        (0 - integer) as u64
    } else {
        integer as u64
    };
    let ghost mag = x as nat;
    let mut out: Vec<u8> = Vec::new();
    if x <= BCD_MAX {
        for i in 0u32..9
            invariant
                out@ + bcd_bytes(x as nat, (9 - i) as nat) == bcd_bytes(mag, 9),
        {
            let low = x % 10;
            x = x / 10;
            let high = x % 10;
            x = x / 10;
            out.push((high * 16 + low) as u8);
            proof {
                assert(bcd_bytes(x as nat, (9 - i) as nat) == bcd_bytes(x as nat, (9 - i) as nat));
            }
            assert(out@ + bcd_bytes(x as nat, (9 - (i + 1)) as nat) =~= bcd_bytes(mag, 9));
        }
        out.push(if st0.sign() { 0x80 } else { 0 });
    } else {
        fpu_invalid_arithmetic(fpu);
        push_le64(&mut out, 0xC000_0000_0000_0000);
        push_le16(&mut out, 0xFFFF);
    }
    fpu_pop(fpu);
    out
}

// ---- fscale ----

/// `fscale` on the exponent field alone: a normal st(0) whose exponent,
/// moved by `n`, stays in the format's range keeps its mantissa and sign
/// whatever the precision control says; anything else is left to a
/// multiplication.
pub open spec fn fscale_fast(st0: F80, n: int) -> Option<F80> {
    let e = st0.exp_field();
    let scaled = e + n;
    if e != 0 && e != 0x7FFF && st0.mantissa >= 0x8000_0000_0000_0000 && 1 <= scaled <= 0x7FFE {
        Some(F80 { mantissa: st0.mantissa, sign_exponent: (if st0.is_neg() { 0x8000int } else { 0int } + scaled) as u16 })
    } else {
        None
    }
}

/// `fscale`'s result on the exponent field, when it has one.
pub fn fpu_fscale_fast(st0: F80, n: i64) -> (r: Option<F80>)
    ensures
        r == fscale_fast(st0, n as int),
{
    let e = (st0.sign_exponent % 0x8000) as i64;
    if e != 0 && e != 0x7FFF && st0.mantissa >= 0x8000_0000_0000_0000 && n >= 1 - e && n <= 0x7FFE - e {
        let scaled = (e + n) as u16;
        let top: u16 = if st0.sign_exponent >= 0x8000 { 0x8000 } else { 0 };
        Some(F80 { mantissa: st0.mantissa, sign_exponent: top + scaled })
    } else {
        None
    }
}

/// `n` limited to `-lim ..= lim`.
pub open spec fn clamp(n: int, lim: int) -> int {
    if n < -lim { -lim } else if n > lim { lim } else { n }
}

/// The powers of two, each within the format's exponent range, that a
/// scale by 2^n is carried out as: steps of 2^±16382, then the remainder.
pub open spec fn scale_steps(n: int) -> Seq<i32>
    decreases (if n < 0 { -n } else { n }),
{
    let step = clamp(n, 16382);
    if n - step == 0 {
        seq![step as i32]
    } else {
        seq![step as i32] + scale_steps(n - step)
    }
}

/// The multiplier 2^step, for `step` within the format's exponent range.
pub fn fpu_fscale_factor(step: i32) -> (r: F80)
    requires
        -16382 <= step <= 16382,
    ensures
        r == (F80 { mantissa: 0x8000_0000_0000_0000, sign_exponent: (0x3FFF + step) as u16 }),
{
    F80 { mantissa: 0x8000_0000_0000_0000, sign_exponent: (0x3FFF + step) as u16 }
}

/// The steps of a scale by 2^n, with `n` first limited to three steps'
/// reach: enough to carry any value past either end of the format.
pub fn fpu_fscale_steps(n: i64) -> (r: Vec<i32>)
    ensures
        r@ == scale_steps(clamp(n as int, 49146)),
{
    let mut m: i32 = if n < -3 * 16382 {
        -3 * 16382
    } else if n > 3 * 16382 {
        3 * 16382
    } else {
        n as i32
    };
    let ghost start = m as int;
    let mut steps: Vec<i32> = Vec::new();
    loop
        invariant_except_break
            -3 * 16382 <= m <= 3 * 16382,
            steps@ + scale_steps(m as int) == scale_steps(start),
        ensures
            steps@ == scale_steps(start),
        decreases (if m < 0 { -(m as int) } else { m as int }),
    {
        let step = if m < -16382 {
            -16382
        } else if m > 16382 {
            16382
        } else {
            m
        };
        let ghost before = steps@;
        let ghost old_m = m as int;
        steps.push(step);
        m = m - step;
        assert(scale_steps(old_m) == (if m == 0 { seq![step] } else { seq![step] + scale_steps(m as int) }));
        if m == 0 {
            assert(steps@ =~= before + scale_steps(old_m));
            break ;
        }
        assert(steps@ + scale_steps(m as int) =~= before + scale_steps(old_m));
    }
    steps
}

} // verus!
