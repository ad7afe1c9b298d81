//! Properties of the unit that span several operations.
use vstd::prelude::*;
use crate::f80::{F80, widen_f64, f64_exact_bits, lemma_f64_candidate_complete};
use crate::bits::{lemma_mask_clear, lemma_mask_clear_set, lemma_status_top_round_trip};
use crate::results::{bcd_bytes, fbstp_image, BCD_MAX, scale_steps, clamp};
use crate::ops::{single_as_double, spec_single_arm_ok, spec_arm_ok, fxch_spec, fst_spec, fxtract_spec, fxam_spec, fxam_class};
use crate::f80::{int_to_f80, magnitude, lemma_int_to_f80_sign};
use crate::results::fprem_status;
use crate::f80::{widen_f32, f32_is_snan, f64_is_snan};
use crate::le::{le16, le32, le64, rd16, rd32, lemma_rd16, lemma_rd32, lemma_rd64, lemma_rd16_of_32};
use crate::env::{
    env16_image, fldenv16_spec, m80_image, m80_at, env32_image, fldenv32_spec, regs_image, fsave32_image,
    frstor32_spec, restored_reg, restored_image,
};
use crate::tags::{tag_field, tag_word_of, set_tag_word_spec, lemma_tag_word_fields, lemma_tag_mask_bits};
use crate::state::{
    rounding_of, precision_of, FpuModel, FPU_RELAXED_TAG, FPU_C1, STATUS_TOP_MASK, canonical, reg_value,
    stored_pair, write_st, read_sti, push, pop, move_top, status_word_of, set_status_word_spec, finit,
    lemma_write_st_wf, lemma_mark_full_wf, lemma_stored_pair_reads, raise, FPU_EX_Z, X87_SITE_SIGN,
    X87_SITE_TRANSCENDENTAL, X87_SITE_PUSH_OTHER,
};

verus! {

/// A register that holds a tagged double is full, and reads as that double
/// widened: the tag word alone can be trusted, without the emptiness mask.
pub proof fn law_tagged_register_is_full(m: FpuModel, i: int)
    requires
        m.wf(),
        0 <= i < 8,
        m.is_tagged(i),
    ensures
        !m.is_empty(i),
        reg_value(m, i) == widen_f64(m.st[i].mantissa),
{
    if crate::bits::empty_bit(m.stack_empty, i) {
        assert(!m.is_tagged(i));
    }
}

/// No write leaves a register that is marked empty holding the tag word,
/// whatever the value written: an empty register never looks tagged to
/// code that reads the exponent word alone.
pub proof fn law_write_keeps_empty_untagged(m: FpuModel, idx: int, v: F80, site: usize)
    requires
        m.wf(),
        0 <= idx < 8,
    ensures
        forall|i: int|
            0 <= i < 8 && #[trigger] write_st(m, idx, v, site).is_empty(i) ==> write_st(m, idx, v, site).st[i].sign_exponent
                != FPU_RELAXED_TAG,
{
    lemma_write_st_wf(m, idx, v, site);
    let n = write_st(m, idx, v, site);
    assert forall|i: int| 0 <= i < 8 && #[trigger] n.is_empty(i) implies n.st[i].sign_exponent != FPU_RELAXED_TAG by {
        assert(crate::bits::empty_bit(n.stack_empty, i));
    }
}

/// A value written to a register reads back as exactly the value written,
/// whatever form the write left it in, unless the register is empty and
/// the value carries the tag word, which an empty register never holds;
/// the other registers are untouched.
pub proof fn law_write_reads_back(m: FpuModel, idx: int, v: F80, site: usize)
    requires
        m.wf(),
        0 <= idx < 8,
        !m.is_empty(idx) || v.sign_exponent != FPU_RELAXED_TAG,
    ensures
        reg_value(write_st(m, idx, v, site), idx) == v,
        forall|j: int| 0 <= j < 8 && j != idx ==> #[trigger] reg_value(write_st(m, idx, v, site), j) == reg_value(m, j),
        write_st(m, idx, v, site).wf(),
{
    lemma_write_st_wf(m, idx, v, site);
}

/// A write leaves a register tagged exactly when tagged writes are on, the
/// register is full, the value does not carry the tag word itself, and
/// some double holds the value with nothing lost.
pub proof fn law_write_tags_exact_values(m: FpuModel, idx: int, v: F80, site: usize)
    requires
        m.wf(),
        0 <= idx < 8,
    ensures
        write_st(m, idx, v, site).is_tagged(idx) <==> (m.tag_exact_writes && !m.is_empty(idx)
            && v.sign_exponent != FPU_RELAXED_TAG && exists|b: u64| widen_f64(b) == v),
{
    if exists|b: u64| widen_f64(b) == v {
        let b = choose|b: u64| widen_f64(b) == v;
        lemma_f64_candidate_complete(b);
    }
    if let Some(c) = f64_exact_bits(v) {
        assert(widen_f64(c) == v);
    }
}

/// The state right after a push onto an empty slot, before the value is
/// written: the slot marked full and C1 clear.
spec fn push_ready(m: FpuModel) -> FpuModel {
    let p = ((m.stack_ptr + 7) % 8) as u8;
    FpuModel { status_word: m.status_word & !FPU_C1, stack_empty: m.stack_empty & !(1u8 << p), stack_ptr: p, ..m }
}

proof fn lemma_push_empty(m: FpuModel, x: F80, site: usize)
    requires
        m.wf(),
        m.is_empty((m.stack_ptr + 7) % 8),
    ensures
        push_ready(m).wf(),
        !push_ready(m).is_empty(push_ready(m).stack_ptr as int),
        push(m, x, site) == write_st(push_ready(m), push_ready(m).stack_ptr as int, x, site),
{
    let p = ((m.stack_ptr + 7) % 8) as u8;
    let moved = FpuModel { status_word: m.status_word & !FPU_C1, stack_ptr: p, ..m };
    lemma_mark_full_wf(moved, p, m.stack_empty & !(1u8 << p));
}

/// A value pushed onto an empty slot is what st(0) then reads, with no
/// fault.
pub proof fn law_push_then_read(m: FpuModel, x: F80, site: usize)
    requires
        m.wf(),
        m.is_empty((m.stack_ptr + 7) % 8),
    ensures
        read_sti(push(m, x, site), 0).1 == x,
        read_sti(push(m, x, site), 0).0 == push(m, x, site),
{
    lemma_push_empty(m, x, site);
    let r = push_ready(m);
    lemma_write_st_wf(r, r.stack_ptr as int, x, site);
}

/// Popping right after a push onto an empty slot gives back the stack
/// pointer and the emptiness mask; C1 is left clear.
pub proof fn law_push_then_pop(m: FpuModel, x: F80, site: usize)
    requires
        m.wf(),
        m.is_empty((m.stack_ptr + 7) % 8),
    ensures
        pop(push(m, x, site)).stack_ptr == m.stack_ptr,
        pop(push(m, x, site)).stack_empty == m.stack_empty,
        pop(push(m, x, site)).status_word == m.status_word & !FPU_C1,
{
    let p = ((m.stack_ptr + 7) % 8) as u8;
    lemma_mask_clear_set(m.stack_empty, p);
}

/// Moving the stack top down and up again restores it.
pub proof fn law_decstp_then_incstp(m: FpuModel)
    requires
        m.wf(),
    ensures
        move_top(move_top(m, 7), 1).stack_ptr == m.stack_ptr,
        move_top(move_top(m, 1), 7).stack_ptr == m.stack_ptr,
{
}

/// The status word that is loaded is the status word that is read back,
/// its top field included.
pub proof fn law_status_word_round_trip(m: FpuModel, sw: u16)
    requires
        m.wf(),
    ensures
        status_word_of(set_status_word_spec(m, sw)) == sw,
{
    lemma_status_top_round_trip(sw);
}

/// Exchanging st(0) with a full st(i) twice gives both values back, and
/// raises nothing.
pub proof fn law_fxch_twice(m: FpuModel, i: int)
    requires
        m.wf(),
        0 <= i < 8,
        !m.is_empty(m.stack_ptr as int),
        !m.is_empty(m.phys(i)),
    ensures
        ({
            let r = fxch_spec(fxch_spec(m, i), i);
            &&& reg_value(r, m.stack_ptr as int) == reg_value(m, m.stack_ptr as int)
            &&& reg_value(r, m.phys(i)) == reg_value(m, m.phys(i))
            &&& r.status_word == m.status_word
            &&& r.stack_ptr == m.stack_ptr
            &&& r.stack_empty == m.stack_empty
            &&& r.wf()
        }),
{
    let t = m.stack_ptr as int;
    let pi = m.phys(i);
    let c0 = reg_value(m, t);
    let ci = reg_value(m, pi);
    let a = write_st(m, pi, c0, crate::state::X87_SITE_FXCH);
    lemma_write_st_wf(m, pi, c0, crate::state::X87_SITE_FXCH);
    let m1 = write_st(a, t, ci, crate::state::X87_SITE_FXCH);
    lemma_write_st_wf(a, t, ci, crate::state::X87_SITE_FXCH);
    assert(m1 == fxch_spec(m, i));
    assert(reg_value(m1, t) == ci);
    assert(reg_value(m1, pi) == c0);
    let b = write_st(m1, pi, ci, crate::state::X87_SITE_FXCH);
    lemma_write_st_wf(m1, pi, ci, crate::state::X87_SITE_FXCH);
    let m2 = write_st(b, t, c0, crate::state::X87_SITE_FXCH);
    lemma_write_st_wf(b, t, c0, crate::state::X87_SITE_FXCH);
    assert(m2 == fxch_spec(m1, i));
}

/// After `fst st(r)` from a full st(0), st(r) is full and reads as st(0)
/// did, with no fault.
pub proof fn law_fst_then_read(m: FpuModel, r: int)
    requires
        m.wf(),
        0 <= r < 8,
        !m.is_empty(m.stack_ptr as int),
    ensures
        read_sti(fst_spec(m, r), r).1 == reg_value(m, m.stack_ptr as int),
        read_sti(fst_spec(m, r), r).0 == fst_spec(m, r),
{
    let idx = m.phys(r);
    let m2 = FpuModel { stack_empty: m.stack_empty & !(1u8 << (idx as u8)), ..m };
    lemma_mark_full_wf(m, idx as u8, m2.stack_empty);
    lemma_write_st_wf(m2, idx, reg_value(m, m.stack_ptr as int), crate::state::X87_SITE_FST_STI);
}

/// After a reset every register is empty.
pub proof fn law_finit_all_empty(m: FpuModel)
    requires
        m.wf(),
    ensures
        forall|i: int| 0 <= i < 8 ==> #[trigger] finit(m).is_empty(i),
{
    assert forall|i: int| 0 <= i < 8 implies #[trigger] finit(m).is_empty(i) by {
        crate::bits::lemma_mask_full_empty(i as u8);
    }
}

/// A loaded tag word reads back, as far as emptiness goes: a register's
/// field reads 3 exactly when it was loaded as 3.
pub proof fn law_tag_word_round_trip(m: FpuModel, tw: i32)
    requires
        m.wf(),
    ensures
        forall|i: int| 0 <= i < 8 ==> (#[trigger] tag_field(tag_word_of(set_tag_word_spec(m, tw)), i) == 3
            <==> tag_field(tw, i) == 3),
{
    let n = set_tag_word_spec(m, tw);
    lemma_tag_word_fields(n, 8);
    lemma_tag_mask_bits(tw, 8);
    assert forall|i: int| 0 <= i < 8 implies (#[trigger] tag_field(tag_word_of(n), i) == 3
        <==> tag_field(tw, i) == 3) by {
        assert(n.is_empty(i) == (tag_field(tw, i) == 3));
    }
}

/// An 80-bit value read from its ten-byte image, wherever it stands.
pub proof fn lemma_m80_read(pre: Seq<u8>, f: F80, post: Seq<u8>)
    ensures
        m80_at(pre + m80_image(f) + post, pre.len() as int) == f,
{
    let s = pre + m80_image(f) + post;
    crate::le::lemma_le_len(f.mantissa as int);
    crate::le::lemma_le_len(f.sign_exponent as int);
    assert(s =~= pre + le64(f.mantissa as int) + (le16(f.sign_exponent as int) + post));
    lemma_rd64(pre, f.mantissa as int, le16(f.sign_exponent as int) + post);
    assert(s =~= (pre + le64(f.mantissa as int)) + le16(f.sign_exponent as int) + post);
    lemma_rd16(pre + le64(f.mantissa as int), f.sign_exponent as int, post);
}

/// An 80-bit value stored to memory loads back as itself.
pub proof fn law_m80_round_trip(f: F80)
    ensures
        m80_at(m80_image(f), 0) == f,
{
    lemma_m80_read(Seq::empty(), f, Seq::empty());
    assert(Seq::<u8>::empty() + m80_image(f) + Seq::<u8>::empty() =~= m80_image(f));
}

/// The words of the 32-bit environment image, in order.
spec fn env32_value(m: FpuModel, k: int) -> int {
    if k == 0 {
        0xFFFF_0000 + m.control_word
    } else if k == 1 {
        0xFFFF_0000 + status_word_of(m)
    } else if k == 2 {
        0xFFFF_0000 + tag_word_of(m)
    } else if k == 3 {
        m.ip as u32 as int
    } else if k == 4 {
        m.ip_selector as u16 as int
    } else if k == 5 {
        m.opcode as u16 as int
    } else if k == 6 {
        m.dp as u32 as int
    } else {
        (0xFFFF_0000u32 | (m.dp_selector as u32)) as int
    }
}

/// The parts of the 32-bit environment image, in order.
spec fn env32_parts(m: FpuModel) -> Seq<Seq<u8>> {
    Seq::new(8, |k: int| if k == 4 || k == 5 { le16(env32_value(m, k)) } else { le32(env32_value(m, k)) })
}

/// Where part `k` starts.
spec fn env32_offset(k: int) -> int {
    if k <= 4 { 4 * k } else if k <= 6 { 16 + 2 * (k - 4) } else { 20 + 4 * (k - 6) }
}

/// Each part has the length of its word.
proof fn lemma_env32_parts_len(m: FpuModel)
    ensures
        env32_parts(m).len() == 8,
        forall|k: int| 0 <= k < 8 ==> #[trigger] env32_parts(m)[k].len() == (if k == 4 || k == 5 { 2int } else { 4int }),
{
    assert forall|k: int| 0 <= k < 8 implies #[trigger] env32_parts(m)[k].len() == (if k == 4 || k == 5 { 2int } else { 4int }) by {
        crate::le::lemma_le_len(env32_value(m, k));
    }
}

/// The concatenation of parts `lo` up to `hi`.
spec fn join(p: Seq<Seq<u8>>, lo: int, hi: int) -> Seq<u8>
    decreases hi - lo,
{
    if hi <= lo {
        Seq::empty()
    } else {
        join(p, lo, hi - 1) + p[hi - 1]
    }
}

/// A join splits at any part between its ends.
proof fn lemma_join_split(p: Seq<Seq<u8>>, lo: int, mid: int, hi: int)
    requires
        lo <= mid <= hi,
    ensures
        join(p, lo, hi) =~= join(p, lo, mid) + join(p, mid, hi),
    decreases hi - mid,
{
    if mid < hi {
        lemma_join_split(p, lo, mid, hi - 1);
        assert(join(p, lo, hi) =~= join(p, lo, hi - 1) + p[hi - 1]);
        assert(join(p, mid, hi) =~= join(p, mid, hi - 1) + p[hi - 1]);
    } else {
        assert(join(p, mid, hi) =~= Seq::<u8>::empty());
    }
}

/// The environment image is its parts joined.
proof fn lemma_env32_joined(m: FpuModel)
    ensures
        env32_image(m) =~= join(env32_parts(m), 0, 8),
        join(env32_parts(m), 0, 8).len() == 28,
{
    let p = env32_parts(m);
    lemma_env32_parts_len(m);
    reveal_with_fuel(join, 9);
    assert(join(p, 0, 8) =~= p[0] + p[1] + p[2] + p[3] + p[4] + p[5] + p[6] + p[7]);
    assert(p[0] == le32(0xFFFF_0000 + m.control_word));
}

/// Part `k` of the environment, with what stands before and after it.
proof fn lemma_env32_at(m: FpuModel, post: Seq<u8>, k: int)
    requires
        0 <= k < 8,
    ensures
        env32_image(m) + post =~= join(env32_parts(m), 0, k) + env32_parts(m)[k] + (join(
            env32_parts(m),
            k + 1,
            8,
        ) + post),
{
    let p = env32_parts(m);
    lemma_env32_joined(m);
    lemma_join_split(p, 0, k, 8);
    lemma_join_split(p, k, k + 1, 8);
    assert(join(p, k, k + 1) =~= p[k]) by {
        assert(join(p, k, k) =~= Seq::<u8>::empty());
    }
}

proof fn lemma_join_len(m: FpuModel, k: int)
    requires
        0 <= k <= 8,
    ensures
        join(env32_parts(m), 0, k).len() == env32_offset(k),
    decreases k,
{
    lemma_env32_parts_len(m);
    if k > 0 {
        lemma_join_len(m, k - 1);
    }
}

/// Part `k` of a stored environment reads back as its word.
proof fn lemma_env32_read_part(m: FpuModel, post: Seq<u8>, k: int)
    requires
        0 <= k < 8,
    ensures
        ({
            let s = env32_image(m) + post;
            &&& (k == 4 || k == 5) ==> rd16(s, env32_offset(k)) == env32_value(m, k) % 0x10000
            &&& !(k == 4 || k == 5) ==> rd16(s, env32_offset(k)) == env32_value(m, k) % 0x10000
                && rd32(s, env32_offset(k)) == env32_value(m, k) % 0x1_0000_0000
        }),
{
    let p = env32_parts(m);
    lemma_env32_at(m, post, k);
    lemma_join_len(m, k);
    let pre = join(p, 0, k);
    let rest = join(p, k + 1, 8) + post;
    let v = env32_value(m, k);
    assert(0 <= v);
    if k == 4 || k == 5 {
        assert(p[k] == le16(v));
        crate::le::lemma_rd16(pre, v, rest);
    } else {
        assert(p[k] == le32(v));
        crate::le::lemma_rd32(pre, v, rest);
        crate::le::lemma_rd16_of_32(pre, v, rest);
    }
}

/// The words of a stored 32-bit environment's first half read back.
#[verifier::rlimit(40)]
proof fn lemma_env32_reads_low(m: FpuModel, post: Seq<u8>)
    ensures
        ({
            let s = env32_image(m) + post;
            &&& rd16(s, 0) == m.control_word
            &&& rd16(s, 4) == status_word_of(m)
            &&& rd16(s, 8) == tag_word_of(m)
            &&& rd32(s, 12) == m.ip as u32
        }),
{
    lemma_tag_word_fields(m, 8);
    crate::bits::lemma_tag_word_small(0);
    lemma_env32_read_part(m, post, 0);
    lemma_env32_read_part(m, post, 1);
    lemma_env32_read_part(m, post, 2);
    lemma_env32_read_part(m, post, 3);
}

/// The words of a stored 32-bit environment's second half read back.
proof fn lemma_env32_reads_high(m: FpuModel, post: Seq<u8>)
    ensures
        ({
            let s = env32_image(m) + post;
            &&& rd16(s, 16) == m.ip_selector as u16
            &&& rd16(s, 18) == m.opcode as u16
            &&& rd32(s, 20) == m.dp as u32
            &&& rd16(s, 24) == (0xFFFF_0000u32 | (m.dp_selector as u32)) % 0x10000
        }),
{
    lemma_env32_read_part(m, post, 4);
    lemma_env32_read_part(m, post, 5);
    lemma_env32_read_part(m, post, 6);
    lemma_env32_read_part(m, post, 7);
}

/// What each field of a stored 32-bit environment reads back as.
proof fn lemma_env32_reads(m: FpuModel, post: Seq<u8>)
    ensures
        ({
            let s = env32_image(m) + post;
            &&& rd16(s, 0) == m.control_word
            &&& rd16(s, 4) == status_word_of(m)
            &&& rd16(s, 8) == tag_word_of(m)
            &&& rd32(s, 12) == m.ip as u32
            &&& rd16(s, 16) == m.ip_selector as u16
            &&& rd16(s, 18) == m.opcode as u16
            &&& rd32(s, 20) == m.dp as u32
            &&& rd16(s, 24) == (0xFFFF_0000u32 | (m.dp_selector as u32)) % 0x10000
        }),
{
    lemma_env32_reads_low(m, post);
    lemma_env32_reads_high(m, post);
}

/// The state that loading a stored environment leaves, over a suffix.
proof fn lemma_env32_load(m: FpuModel, other: FpuModel, post: Seq<u8>)
    requires
        m.wf(),
        other.wf(),
    ensures
        ({
            let r = fldenv32_spec(other, env32_image(m) + post);
            &&& r.control_word == m.control_word
            &&& r.rounding_mode == rounding_of(m.control_word)
            &&& r.precision == precision_of(m.control_word)
            &&& r.stack_ptr == m.stack_ptr
            &&& status_word_of(r) == status_word_of(m)
            &&& forall|i: int| 0 <= i < 8 ==> (#[trigger] r.is_empty(i) <==> m.is_empty(i))
            &&& r.ip == m.ip
            &&& r.dp == m.dp
            &&& 0 <= m.ip_selector < 0x10000 ==> r.ip_selector == m.ip_selector
            &&& 0 <= m.opcode < 0x10000 ==> r.opcode == m.opcode
            &&& 0 <= m.dp_selector < 0x10000 ==> r.dp_selector == m.dp_selector
        }),
{
    let sw = status_word_of(m);
    let tw = tag_word_of(m);
    lemma_tag_word_fields(m, 8);
    lemma_env32_reads(m, post);
    crate::bits::lemma_i32_bits_round_trip(m.ip);
    crate::bits::lemma_i32_bits_round_trip(m.dp);
    if 0 <= m.dp_selector < 0x10000 {
        crate::bits::lemma_high_half_or(m.dp_selector as u32);
    }
    crate::bits::lemma_status_top_extract(m.status_word, m.stack_ptr);
    lemma_status_top_round_trip(sw);
    lemma_tag_mask_bits(tw, 8);
    let r = fldenv32_spec(other, env32_image(m) + post);
    assert forall|i: int| 0 <= i < 8 implies (#[trigger] r.is_empty(i) <==> m.is_empty(i)) by {
        assert(r.is_empty(i) == (tag_field(tw, i) == 3));
    }
}

/// Loading a stored 32-bit environment gives back the control word, the
/// status word with the stack pointer, which registers are empty, and the
/// instruction and operand pointers; the selectors and the opcode too,
/// when they are 16-bit values as the image holds them.
pub proof fn law_env32_round_trip(m: FpuModel, other: FpuModel)
    requires
        m.wf(),
        other.wf(),
    ensures
        ({
            let r = fldenv32_spec(other, env32_image(m));
            &&& r.control_word == m.control_word
            &&& r.rounding_mode == rounding_of(m.control_word)
            &&& r.precision == precision_of(m.control_word)
            &&& r.stack_ptr == m.stack_ptr
            &&& status_word_of(r) == status_word_of(m)
            &&& forall|i: int| 0 <= i < 8 ==> (#[trigger] r.is_empty(i) <==> m.is_empty(i))
            &&& r.ip == m.ip
            &&& r.dp == m.dp
            &&& 0 <= m.ip_selector < 0x10000 ==> r.ip_selector == m.ip_selector
            &&& 0 <= m.opcode < 0x10000 ==> r.opcode == m.opcode
            &&& 0 <= m.dp_selector < 0x10000 ==> r.dp_selector == m.dp_selector
        }),
{
    lemma_env32_load(m, other, Seq::empty());
    assert(env32_image(m) + Seq::<u8>::empty() =~= env32_image(m));
}

/// The words of the 16-bit environment image, in order.
spec fn env16_value(m: FpuModel, k: int) -> int {
    if k == 0 {
        m.control_word as int
    } else if k == 1 {
        status_word_of(m) as int
    } else if k == 2 {
        tag_word_of(m) as u16 as int
    } else if k == 3 {
        m.ip as u16 as int
    } else if k == 4 {
        m.ip_selector as u16 as int
    } else if k == 5 {
        m.dp as u16 as int
    } else {
        m.dp_selector as u16 as int
    }
}

/// The parts of the 16-bit environment image, in order.
spec fn env16_parts(m: FpuModel) -> Seq<Seq<u8>> {
    Seq::new(7, |k: int| le16(env16_value(m, k)))
}

proof fn lemma_env16_shape(m: FpuModel, k: int)
    requires
        0 <= k <= 7,
    ensures
        join(env16_parts(m), 0, k).len() == 2 * k,
        env16_image(m) =~= join(env16_parts(m), 0, 7),
    decreases k,
{
    let p = env16_parts(m);
    assert forall|j: int| 0 <= j < 7 implies #[trigger] p[j].len() == 2 by {
        crate::le::lemma_le_len(env16_value(m, j));
    }
    if k > 0 {
        lemma_env16_shape(m, k - 1);
    }
    reveal_with_fuel(join, 8);
    assert(join(p, 0, 7) =~= p[0] + p[1] + p[2] + p[3] + p[4] + p[5] + p[6]);
}

/// Field `k` of a stored 16-bit environment reads back as its word.
proof fn lemma_env16_read_part(m: FpuModel, post: Seq<u8>, k: int)
    requires
        0 <= k < 7,
    ensures
        rd16(env16_image(m) + post, 2 * k) == env16_value(m, k),
{
    let p = env16_parts(m);
    lemma_env16_shape(m, k);
    lemma_join_split(p, 0, k, 7);
    lemma_join_split(p, k, k + 1, 7);
    assert(join(p, k, k) =~= Seq::<u8>::empty());
    assert(join(p, k, k + 1) =~= p[k]);
    assert(env16_image(m) + post =~= join(p, 0, k) + p[k] + (join(p, k + 1, 7) + post));
    crate::le::lemma_rd16(join(p, 0, k), env16_value(m, k), join(p, k + 1, 7) + post);
}

/// Loading a stored 16-bit environment gives back the control word, the
/// status word with the stack pointer, which registers are empty, and the
/// low halves of the instruction and operand pointers; their selectors
/// too, when they are 16-bit values.
pub proof fn law_env16_round_trip(m: FpuModel, other: FpuModel)
    requires
        m.wf(),
        other.wf(),
    ensures
        ({
            let r = fldenv16_spec(other, env16_image(m));
            &&& r.control_word == m.control_word
            &&& r.stack_ptr == m.stack_ptr
            &&& status_word_of(r) == status_word_of(m)
            &&& forall|i: int| 0 <= i < 8 ==> (#[trigger] r.is_empty(i) <==> m.is_empty(i))
            &&& r.ip == m.ip as u16
            &&& r.dp == m.dp as u16
            &&& 0 <= m.ip_selector < 0x10000 ==> r.ip_selector == m.ip_selector
            &&& 0 <= m.dp_selector < 0x10000 ==> r.dp_selector == m.dp_selector
        }),
{
    let s = env16_image(m);
    assert(s + Seq::<u8>::empty() =~= s);
    lemma_env16_read_part(m, Seq::empty(), 0);
    lemma_env16_read_part(m, Seq::empty(), 1);
    lemma_env16_read_part(m, Seq::empty(), 2);
    lemma_env16_read_part(m, Seq::empty(), 3);
    lemma_env16_read_part(m, Seq::empty(), 4);
    lemma_env16_read_part(m, Seq::empty(), 5);
    lemma_env16_read_part(m, Seq::empty(), 6);
    let tw = tag_word_of(m);
    lemma_tag_word_fields(m, 8);
    crate::bits::lemma_tag_word_small(0);
    assert(tw as u16 as int == tw);
    crate::bits::lemma_status_top_extract(m.status_word, m.stack_ptr);
    lemma_status_top_round_trip(status_word_of(m));
    lemma_tag_mask_bits(tw, 8);
    let r = fldenv16_spec(other, s);
    assert forall|i: int| 0 <= i < 8 implies (#[trigger] r.is_empty(i) <==> m.is_empty(i)) by {
        assert(r.is_empty(i) == (tag_field(tw, i) == 3));
    }
}

/// Register i's image in the save area is st(i) in the 80-bit format.
proof fn lemma_regs_image_at(m: FpuModel, env: Seq<u8>, n: nat, post: Seq<u8>, i: int)
    requires
        m.wf(),
        env.len() == 28,
        n <= 8,
        0 <= i < n,
    ensures
        regs_image(m, n).len() == 10 * n,
        m80_at(env + regs_image(m, n) + post, 28 + 10 * i) == reg_value(m, m.phys(i)),
    decreases n,
{
    let prev = regs_image(m, (n - 1) as nat);
    let img = m80_image(reg_value(m, m.phys(n - 1)));
    if n > 1 {
        lemma_regs_image_len(m, (n - 1) as nat);
    }
    lemma_regs_image_len(m, n);
    if i == n - 1 {
        assert(env + regs_image(m, n) + post =~= (env + prev) + img + post);
        lemma_m80_read(env + prev, reg_value(m, m.phys(n - 1)), post);
    } else {
        assert(env + regs_image(m, n) + post =~= env + prev + (img + post));
        lemma_regs_image_at(m, env, (n - 1) as nat, img + post, i);
    }
}

proof fn lemma_regs_image_len(m: FpuModel, n: nat)
    ensures
        regs_image(m, n).len() == 10 * n,
    decreases n,
{
    if n > 0 {
        lemma_regs_image_len(m, (n - 1) as nat);
        let f = reg_value(m, m.phys(n - 1));
        crate::le::lemma_le_len(f.mantissa as int);
        crate::le::lemma_le_len(f.sign_exponent as int);
    }
}

/// Restoring a saved area gives back the environment: the control word
/// with its rounding mode and precision, the status word, the stack
/// pointer, which registers are empty, and the instruction and operand
/// pointers (their selectors and the opcode too, when they are 16-bit
/// values as the image holds them); and the value of every full register.
pub proof fn law_save_restore(m: FpuModel, other: FpuModel)
    requires
        m.wf(),
        other.wf(),
    ensures
        ({
            let r = frstor32_spec(other, fsave32_image(m));
            &&& r.control_word == m.control_word
            &&& r.rounding_mode == m.rounding_mode
            &&& r.precision == m.precision
            &&& r.precision_single == m.precision_single
            &&& r.stack_ptr == m.stack_ptr
            &&& status_word_of(r) == status_word_of(m)
            &&& r.status_word == m.status_word & !STATUS_TOP_MASK
            &&& r.ip == m.ip
            &&& r.dp == m.dp
            &&& 0 <= m.ip_selector < 0x10000 ==> r.ip_selector == m.ip_selector
            &&& 0 <= m.opcode < 0x10000 ==> r.opcode == m.opcode
            &&& 0 <= m.dp_selector < 0x10000 ==> r.dp_selector == m.dp_selector
            &&& forall|i: int| 0 <= i < 8 ==> (#[trigger] r.is_empty(i) <==> m.is_empty(i))
            &&& forall|j: int| 0 <= j < 8 && !m.is_empty(j) ==> #[trigger] reg_value(r, j) == reg_value(m, j)
        }),
{
    lemma_env32_load(m, other, regs_image(m, 8));
    let s = fsave32_image(m);
    assert(s == env32_image(m) + regs_image(m, 8));
    let e = fldenv32_spec(other, s);
    let r = frstor32_spec(other, s);
    assert(r.control_word == e.control_word);
    assert(r.stack_empty == e.stack_empty);
    assert(r.stack_ptr == e.stack_ptr);
    assert(status_word_of(r) == status_word_of(e));
    crate::bits::lemma_status_low_keep(m.status_word, m.stack_ptr);
    crate::bits::lemma_status_low_keep(e.status_word, e.stack_ptr);
    let loaded = rd16(s, 4) as u16;
    assert((loaded & !0x3800u16) & !0x3800u16 == loaded & !0x3800u16) by (bit_vector);
    assert(r.status_word == m.status_word & !STATUS_TOP_MASK);
    assert forall|i: int| 0 <= i < 8 implies (#[trigger] r.is_empty(i) <==> m.is_empty(i)) by {
        assert(r.is_empty(i) == e.is_empty(i));
    }
    assert forall|j: int| 0 <= j < 8 && !m.is_empty(j) implies #[trigger] reg_value(r, j) == reg_value(m, j) by {
        lemma_restore_reg(m, other, j);
    }
}

/// A full register, saved and restored, reads back as it was.
#[verifier::spinoff_prover]
#[verifier::rlimit(50)]
proof fn lemma_restore_reg(m: FpuModel, other: FpuModel, j: int)
    requires
        m.wf(),
        other.wf(),
        0 <= j < 8,
        !m.is_empty(j),
    ensures
        reg_value(frstor32_spec(other, fsave32_image(m)), j) == reg_value(m, j),
{
    let s = fsave32_image(m);
    let env = env32_image(m);
    lemma_env32_load(m, other, regs_image(m, 8));
    lemma_env32_joined(m);
    let e = fldenv32_spec(other, s);
    let i = (j - m.stack_ptr + 8) % 8;
    assert(m.phys(i) == j);
    lemma_regs_image_at(m, env, 8, Seq::empty(), i);
    assert(env + regs_image(m, 8) + Seq::empty() =~= s);
    let v = restored_image(e, s, j);
    assert(v == reg_value(m, j));
    let r = frstor32_spec(other, s);
    assert(r.st[j] == restored_reg(e, s, j));
    assert(r.st[j] == stored_pair(e, j, v).0);
    assert(r.literal[j] == stored_pair(e, j, v).1);
    lemma_stored_pair_reads(e, j, v);
}

/// Decimal digit `k` of `x`.
pub open spec fn digit(x: nat, k: nat) -> int {
    ((x / vstd::arithmetic::power::pow(10, k) as nat) % 10) as int
}

/// Digit k of x / 100 is digit k + 2 of x.
proof fn lemma_digit_shift(x: nat, k: nat)
    ensures
        digit(x / 100, k) == digit(x, k + 2),
{
    vstd::arithmetic::power::lemma_pow_positive(10, k);
    vstd::arithmetic::power::lemma_pow_adds(10, 2, k);
    assert(vstd::arithmetic::power::pow(10, 2) == 100) by {
        vstd::arithmetic::power::lemma_pow1(10);
        vstd::arithmetic::power::lemma_pow_adds(10, 1, 1);
    }
    vstd::arithmetic::div_mod::lemma_div_denominator(x as int, 100, vstd::arithmetic::power::pow(10, k));
}

/// Byte i of the packed decimal holds digits 2i (low nibble) and 2i + 1.
proof fn lemma_bcd_byte(x: nat, n: nat, i: int)
    requires
        0 <= i < n,
    ensures
        bcd_bytes(x, n).len() == n,
        bcd_bytes(x, n)[i] == (digit(x, (2 * i + 1) as nat) * 16 + digit(x, (2 * i) as nat)) as u8,
    decreases n,
{
    lemma_bcd_len(x, n);
    if i == 0 {
        vstd::arithmetic::power::lemma_pow0(10);
        vstd::arithmetic::power::lemma_pow1(10);
        assert(vstd::arithmetic::power::pow(10, 0) as nat == 1nat);
        assert(x / 1nat == x);
        assert(digit(x, 0) == x % 10);
        assert(digit(x, 1) == (x / 10) % 10);
    } else {
        lemma_bcd_len(x / 100, (n - 1) as nat);
        assert(bcd_bytes(x, n)[i] == bcd_bytes(x / 100, (n - 1) as nat)[i - 1]);
        lemma_bcd_byte(x / 100, (n - 1) as nat, i - 1);
        lemma_digit_shift(x, (2 * (i - 1) + 1) as nat);
        lemma_digit_shift(x, (2 * (i - 1)) as nat);
    }
}

proof fn lemma_bcd_len(x: nat, n: nat)
    ensures
        bcd_bytes(x, n).len() == n,
    decreases n,
{
    if n > 0 {
        lemma_bcd_len(x / 100, (n - 1) as nat);
    }
}

/// `fbstp` stores the eighteen decimal digits of the magnitude, two to a
/// byte with the lower digit in the low nibble, and then the sign byte.
pub proof fn law_fbstp_digits(x: nat, negative: bool)
    requires
        x <= BCD_MAX,
    ensures
        fbstp_image(x, negative).len() == 10,
        forall|i: int| 0 <= i < 9 ==> #[trigger] fbstp_image(x, negative)[i] == (digit(x, (2 * i + 1) as nat) * 16
            + digit(x, (2 * i) as nat)) as u8,
        fbstp_image(x, negative)[9] == (if negative { 0x80u8 } else { 0u8 }),
{
    lemma_bcd_len(x, 9);
    assert forall|i: int| 0 <= i < 9 implies #[trigger] fbstp_image(x, negative)[i] == (digit(x, (2 * i + 1) as nat) * 16
        + digit(x, (2 * i) as nat)) as u8 by {
        lemma_bcd_byte(x, 9, i);
    }
}

/// The sum of a sequence of steps.
pub open spec fn steps_sum(s: Seq<i32>) -> int
    decreases s.len(),
{
    if s.len() == 0 {
        0
    } else {
        s[0] + steps_sum(s.drop_first())
    }
}

/// A scale is carried out in at most three steps, each within the format's
/// exponent range, that add up to the scale.
pub proof fn law_scale_steps(n: int)
    requires
        -49146 <= n <= 49146,
    ensures
        steps_sum(scale_steps(n)) == n,
        1 <= scale_steps(n).len() <= 3,
        forall|k: int| 0 <= k < scale_steps(n).len() ==> -16382 <= #[trigger] scale_steps(n)[k] <= 16382,
{
    reveal_with_fuel(scale_steps, 4);
    reveal_with_fuel(steps_sum, 4);
    let s1 = clamp(n, 16382);
    let n1 = n - s1;
    if n1 != 0 {
        let s2 = clamp(n1, 16382);
        let n2 = n1 - s2;
        assert(scale_steps(n) =~= seq![s1 as i32] + scale_steps(n1));
        assert(scale_steps(n).drop_first() =~= scale_steps(n1));
        if n2 != 0 {
            assert(scale_steps(n1) =~= seq![s2 as i32] + scale_steps(n2));
            assert(scale_steps(n1).drop_first() =~= scale_steps(n2));
            assert(scale_steps(n2) =~= seq![n2 as i32]);
            assert(scale_steps(n2).drop_first() =~= Seq::<i32>::empty());
        } else {
            assert(scale_steps(n1).drop_first() =~= Seq::<i32>::empty());
        }
    } else {
        assert(scale_steps(n).drop_first() =~= Seq::<i32>::empty());
    }
}

/// A normal or zero single loaded inline, as a tagged double, reads as the
/// value that loading it through the 80-bit format gives, and raises no
/// exception there either.
pub proof fn law_single_inline_load(bits: u32)
    requires
        spec_single_arm_ok(bits),
    ensures
        canonical(F80 { mantissa: single_as_double(bits), sign_exponent: FPU_RELAXED_TAG }) == widen_f32(bits),
        !f32_is_snan(bits),
{
}

/// A normal or zero double loaded inline, as a tagged double, reads as the
/// value that loading it through the 80-bit format gives, and raises no
/// exception there either.
pub proof fn law_double_inline_load(bits: u64)
    requires
        spec_arm_ok(bits),
    ensures
        canonical(F80 { mantissa: bits, sign_exponent: FPU_RELAXED_TAG }) == widen_f64(bits),
        !f64_is_snan(bits),
{
}

// ---- Signs, classes and exponents ----

/// Negation flips the sign bit and nothing else, so negating twice gives
/// the value back; the absolute value clears the sign bit and nothing else.
pub proof fn law_neg_flips_sign(x: F80)
    ensures
        (x.spec_neg().sign_exponent >= 0x8000) != (x.sign_exponent >= 0x8000),
        x.spec_neg().sign_exponent % 0x8000 == x.sign_exponent % 0x8000,
        x.spec_neg().mantissa == x.mantissa,
        x.spec_neg().spec_neg() == x,
        x.spec_abs().sign_exponent < 0x8000,
        x.spec_abs().sign_exponent % 0x8000 == x.sign_exponent % 0x8000,
        x.spec_abs().mantissa == x.mantissa,
{
}

/// `fchs` on a full st(0) leaves it with the sign bit flipped and nothing
/// else changed; `fabs` leaves it with the sign bit clear.
pub proof fn law_fchs_fabs(m: FpuModel)
    requires
        m.wf(),
        !m.is_empty(m.stack_ptr as int),
    ensures
        ({
            let t = m.stack_ptr as int;
            let x = reg_value(m, t);
            let y = reg_value(write_st(read_sti(m, 0).0, t, read_sti(m, 0).1.spec_neg(), X87_SITE_SIGN), t);
            let z = reg_value(write_st(read_sti(m, 0).0, t, read_sti(m, 0).1.spec_abs(), X87_SITE_SIGN), t);
            &&& (y.sign_exponent >= 0x8000) != (x.sign_exponent >= 0x8000)
            &&& y.sign_exponent % 0x8000 == x.sign_exponent % 0x8000
            &&& y.mantissa == x.mantissa
            &&& z.sign_exponent == x.sign_exponent % 0x8000
            &&& z.mantissa == x.mantissa
        }),
{
    let t = m.stack_ptr as int;
    let x = reg_value(m, t);
    lemma_write_st_wf(m, t, x.spec_neg(), X87_SITE_SIGN);
    lemma_write_st_wf(m, t, x.spec_abs(), X87_SITE_SIGN);
}

/// `fxtract` on a full st(0) `x`, with room to push: a nonzero `x` leaves
/// in st(1) the signed integer that is its unbiased exponent, negative
/// exactly when the biased exponent is below the bias, and in st(0) its
/// significand with the exponent of one; a zero leaves minus infinity in
/// st(1), the zero in st(0), and a division by zero raised.
pub proof fn law_fxtract(m: FpuModel)
    requires
        m.wf(),
        !m.is_empty(m.stack_ptr as int),
        m.is_empty((m.stack_ptr + 7) % 8),
    ensures
        ({
            let t = m.stack_ptr as int;
            let x = reg_value(m, t);
            let e = (x.sign_exponent % 0x8000) - 0x3FFF;
            let r = fxtract_spec(m);
            let exponent = reg_value(r, t);
            let significand = reg_value(r, r.stack_ptr as int);
            &&& r.stack_ptr == (m.stack_ptr + 7) % 8
            &&& !r.is_empty(t)
            &&& !r.is_empty(r.stack_ptr as int)
            &&& !(x.sign_exponent % 0x8000 == 0 && x.mantissa == 0) ==> {
                &&& exponent == int_to_f80(e < 0, magnitude(e))
                &&& (exponent.sign_exponent >= 0x8000) == (e < 0)
                &&& (e == 0) == (exponent.sign_exponent % 0x8000 == 0 && exponent.mantissa == 0)
                &&& significand == (F80 { mantissa: x.mantissa, sign_exponent: 0x3FFF })
                &&& r.status_word == m.status_word & !FPU_C1
            }
            &&& (x.sign_exponent % 0x8000 == 0 && x.mantissa == 0) ==> {
                &&& exponent == (F80 { mantissa: 0x8000_0000_0000_0000, sign_exponent: 0xFFFF })
                &&& significand == x
                &&& r.status_word == (m.status_word | FPU_EX_Z) & !FPU_C1
            }
        }),
{
    let t = m.stack_ptr as int;
    let x = reg_value(m, t);
    let e = x.exp_field() - 0x3FFF;
    let m1 = if x.spec_is_zero() { raise(m, FPU_EX_Z) } else { m };
    let v = if x.spec_is_zero() {
        F80 { mantissa: 0x8000_0000_0000_0000, sign_exponent: 0xFFFF }
    } else {
        int_to_f80(e < 0, magnitude(e))
    };
    let sig = if x.spec_is_zero() { x } else { F80 { sign_exponent: 0x3FFF, mantissa: x.mantissa } };
    assert(m1.wf());
    let w = write_st(m1, t, v, X87_SITE_TRANSCENDENTAL);
    lemma_write_st_wf(m1, t, v, X87_SITE_TRANSCENDENTAL);
    assert(fxtract_spec(m) == push(w, sig, X87_SITE_PUSH_OTHER));
    lemma_push_empty(w, sig, X87_SITE_PUSH_OTHER);
    let rd = push_ready(w);
    let p = rd.stack_ptr as int;
    lemma_write_st_wf(rd, p, sig, X87_SITE_PUSH_OTHER);
    assert(p != t);
    assert(reg_value(rd, t) == reg_value(w, t));
    lemma_mask_clear(w.stack_empty, p as u8, t as u8);
    if !x.spec_is_zero() && e != 0 {
        lemma_int_to_f80_sign(e < 0, magnitude(e));
    }
}

/// The condition codes after a complete `fprem` depend on the quotient's
/// low three bits alone: C1 is bit 0, C3 bit 1, C0 bit 2, and C2 is clear;
/// every other bit of the status word is kept. So a quotient and the same
/// quotient plus eight report alike.
pub proof fn law_fprem_quotient_bits(sw: u16, q: i32)
    ensures
        (fprem_status(sw, q) & 0x200u16 != 0) == (q & 1 == 1),
        (fprem_status(sw, q) & 0x4000u16 != 0) == (q & 2 == 2),
        (fprem_status(sw, q) & 0x100u16 != 0) == ((q & 7) >= 4),
        fprem_status(sw, q) & 0x400u16 == 0,
        fprem_status(sw, q) & !0x4700u16 == sw & !0x4700u16,
        q <= 0x7FFF_FFF7 ==> fprem_status(sw, (q + 8) as i32) == fprem_status(sw, q),
{
    let s = fprem_status(sw, q);
    let c1: u16 = if q & 1 != 0 { 0x200 } else { 0 };
    let c3: u16 = if q & 2 != 0 { 0x4000 } else { 0 };
    let c0: u16 = if q & 4 != 0 { 0x100 } else { 0 };
    assert((0x100u16 | 0x200u16) | 0x4000u16 == 0x4300u16) by (bit_vector);
    assert(s == ((((sw & !0x4300u16) | c1) | c3) | c0) & !0x400u16);
    assert((q & 1 != 0) == (q & 1 == 1) && (q & 2 != 0) == (q & 2 == 2) && (q & 4 != 0) == ((q & 7) >= 4))
        by (bit_vector);
    assert({
        &&& (((((sw & !0x4300u16) | c1) | c3) | c0) & !0x400u16) & 0x200u16 != 0 <==> c1 != 0
        &&& (((((sw & !0x4300u16) | c1) | c3) | c0) & !0x400u16) & 0x4000u16 != 0 <==> c3 != 0
        &&& (((((sw & !0x4300u16) | c1) | c3) | c0) & !0x400u16) & 0x100u16 != 0 <==> c0 != 0
        &&& (((((sw & !0x4300u16) | c1) | c3) | c0) & !0x400u16) & 0x400u16 == 0
        &&& (((((sw & !0x4300u16) | c1) | c3) | c0) & !0x400u16) & !0x4700u16 == sw & !0x4700u16
    }) by (bit_vector)
        requires
            c1 == 0 || c1 == 0x200,
            c3 == 0 || c3 == 0x4000,
            c0 == 0 || c0 == 0x100,
    ;
    if q <= 0x7FFF_FFF7 {
        let q8 = (q + 8) as i32;
        assert((q8 & 1) == (q & 1) && (q8 & 2) == (q & 2) && (q8 & 4) == (q & 4)) by (bit_vector)
            requires
                q <= 0x7FFF_FFF7,
                q8 == q + 8,
        ;
    }
}

/// What `fxam` reports on st(0), read by the bits of its words: C1 is the
/// sign bit; an empty register is C3|C0; otherwise C0 alone for a NaN,
/// C2|C0 for an infinity, C3 for a zero, C2 for any other value, whatever
/// its sign. The other bits of the status word are those the read left.
pub proof fn law_fxam(m: FpuModel)
    requires
        m.wf(),
    ensures
        ({
            let (m1, x) = read_sti(m, 0);
            let sw = fxam_spec(m).status_word;
            let class = sw & 0x4500u16;
            let e = x.sign_exponent % 0x8000;
            &&& (sw & 0x200u16 != 0) == (x.sign_exponent >= 0x8000)
            &&& sw & !0x4700u16 == m1.status_word & !0x4700u16
            &&& m.is_empty(m.stack_ptr as int) ==> class == 0x4100
            &&& !m.is_empty(m.stack_ptr as int) ==> {
                &&& (class == 0x100) == (e == 0x7FFF && x.mantissa % 0x8000_0000_0000_0000 != 0)
                &&& (class == 0x500) == (e == 0x7FFF && x.mantissa % 0x8000_0000_0000_0000 == 0)
                &&& (class == 0x4000) == (e == 0 && x.mantissa == 0)
                &&& (class == 0x400) == (e != 0x7FFF && !(e == 0 && x.mantissa == 0))
            }
        }),
{
    let (m1, x) = read_sti(m, 0);
    let sign: u16 = if x.is_neg() { 0x200 } else { 0 };
    let class = fxam_class(m.is_empty(m.stack_ptr as int), x);
    assert(0x4000u16 | 0x100u16 == 0x4100u16 && 0x400u16 | 0x100u16 == 0x500u16) by (bit_vector);
    assert(((0x100u16 | 0x200u16) | 0x400u16) | 0x4000u16 == 0x4700u16) by (bit_vector);
    lemma_fxam_bits(m1.status_word, sign, class);
}

proof fn lemma_fxam_bits(s1: u16, sign: u16, class: u16)
    requires
        sign == 0 || sign == 0x200,
        class == 0x4100 || class == 0x100 || class == 0x4000 || class == 0x500 || class == 0x400,
    ensures
        (((s1 & !0x4700u16) | sign) | class) & 0x4500u16 == class,
        ((((s1 & !0x4700u16) | sign) | class) & 0x200u16 != 0) == (sign != 0),
        (((s1 & !0x4700u16) | sign) | class) & !0x4700u16 == s1 & !0x4700u16,
{
    assert({
        &&& (((s1 & !0x4700u16) | sign) | class) & 0x4500u16 == class
        &&& ((((s1 & !0x4700u16) | sign) | class) & 0x200u16 != 0) == (sign != 0)
        &&& (((s1 & !0x4700u16) | sign) | class) & !0x4700u16 == s1 & !0x4700u16
    }) by (bit_vector)
        requires
            sign == 0 || sign == 0x200,
            class == 0x4100 || class == 0x100 || class == 0x4000 || class == 0x500 || class == 0x400,
    ;
}

/// `fxam` classes a value and its negation alike.
pub proof fn law_fxam_ignores_sign(empty: bool, x: F80)
    ensures
        fxam_class(empty, x) == fxam_class(empty, x.spec_neg()),
{
}

/// The tag word's field for a register, read by the bits of its words: 3
/// when the register is empty; otherwise 1 for a zero, 2 when the exponent
/// field (sign masked) is all ones, 0 for any other value, whatever its
/// sign.
pub proof fn law_tag_classes(m: FpuModel, i: int)
    requires
        m.wf(),
        0 <= i < 8,
    ensures
        ({
            let t = tag_field(tag_word_of(m), i);
            let x = reg_value(m, i);
            let e = x.sign_exponent % 0x8000;
            &&& m.is_empty(i) ==> t == 3
            &&& !m.is_empty(i) ==> {
                &&& (t == 1) == (e == 0 && x.mantissa == 0)
                &&& (t == 2) == (e == 0x7FFF)
                &&& (t == 0) == (e != 0x7FFF && !(e == 0 && x.mantissa == 0))
            }
        }),
{
    lemma_tag_word_fields(m, 8);
}

/// Writing a value or its negation into a full register gives it the same
/// tag.
pub proof fn law_tag_ignores_sign(m: FpuModel, i: int, v: F80, site: usize)
    requires
        m.wf(),
        0 <= i < 8,
        !m.is_empty(i),
    ensures
        tag_field(tag_word_of(write_st(m, i, v, site)), i) == tag_field(tag_word_of(write_st(m, i, v.spec_neg(), site)), i),
{
    lemma_write_st_wf(m, i, v, site);
    lemma_write_st_wf(m, i, v.spec_neg(), site);
    law_tag_classes(write_st(m, i, v, site), i);
    law_tag_classes(write_st(m, i, v.spec_neg(), site), i);
}

} // verus!
