//! The memory images of the unit: an 80-bit register, the 16- and 32-bit
//! environments, and the 108-byte save area.
use vstd::prelude::*;
use crate::f80::F80;
use crate::le::{le16, le32, le64, rd16, rd32, rd64, push_le16, push_le32, push_le64, read_le16, read_le32, read_le64};
use crate::state::{
    FpuState, FpuModel, reg_value, cleared, stored_pair, notes_of, status_word_of, set_status_word_spec,
    set_control_word_spec, finit, read_sti, pop, push, fpu_load_status_word, fpu_set_status_word,
    set_control_word, fpu_register, fpu_finit, fpu_get_st0, fpu_pop, fpu_push_at,
    fpu_write_st_at, fpu_clear_tag, slot_is_empty, X87_SITE_FRSTOR, X87_SITE_FLD_M80, write_st, clear_tag,
};
use crate::tags::{tag_word_of, set_tag_word_spec, fpu_load_tag_word, fpu_set_tag_word};

verus! {

/// The ten bytes of an 80-bit value: the mantissa, then the sign-exponent
/// word, each low byte first.
pub open spec fn m80_image(f: F80) -> Seq<u8> {
    le64(f.mantissa as int) + le16(f.sign_exponent as int)
}

/// The 80-bit value whose ten bytes start at `off`.
pub open spec fn m80_at(s: Seq<u8>, off: int) -> F80 {
    F80 { mantissa: rd64(s, off) as u64, sign_exponent: rd16(s, off + 8) as u16 }
}

/// The ten bytes of `f`.
pub fn fpu_store_m80(f: F80) -> (r: Vec<u8>)
    ensures
        r@ == m80_image(f),
{
    let mut out: Vec<u8> = Vec::new();
    push_le64(&mut out, f.mantissa);
    push_le16(&mut out, f.sign_exponent);
    assert(out@ =~= m80_image(f));
    out
}

/// The 80-bit value whose ten bytes start at `off`, taken as it stands.
pub fn fpu_load_m80(bytes: &[u8], off: usize) -> (r: F80)
    requires
        off + 10 <= bytes@.len(),
    ensures
        r == m80_at(bytes@, off as int),
{
    assert(bytes@.len() == bytes.len());
    let mantissa = read_le64(bytes, off);
    let sign_exponent = read_le16(bytes, off + 8);
    F80 { mantissa, sign_exponent }
}

/// The 16-bit environment: control, status and tag words, then the low
/// halves of the instruction and operand pointers with their selectors.
pub open spec fn env16_image(m: FpuModel) -> Seq<u8> {
    le16(m.control_word as int) + le16(status_word_of(m) as int) + le16(tag_word_of(m) as u16 as int)
        + le16(m.ip as u16 as int) + le16(m.ip_selector as u16 as int) + le16(m.dp as u16 as int)
        + le16(m.dp_selector as u16 as int)
}

/// The 32-bit environment, in the protected-mode layout.
pub open spec fn env32_image(m: FpuModel) -> Seq<u8> {
    le32(0xFFFF_0000 + m.control_word) + le32(0xFFFF_0000 + status_word_of(m))
        + le32(0xFFFF_0000 + tag_word_of(m)) + le32(m.ip as u32 as int) + le16(m.ip_selector as u16 as int)
        + le16(m.opcode as u16 as int) + le32(m.dp as u32 as int) + le32((0xFFFF_0000u32 | (m.dp_selector as u32)) as int)
}

/// Loading a 16-bit environment.
pub open spec fn fldenv16_spec(m: FpuModel, s: Seq<u8>) -> FpuModel {
    let m1 = set_control_word_spec(m, rd16(s, 0) as u16);
    let m2 = set_status_word_spec(m1, rd16(s, 2) as u16);
    let m3 = set_tag_word_spec(m2, rd16(s, 4) as i32);
    FpuModel {
        ip: rd16(s, 6) as i32,
        ip_selector: rd16(s, 8) as i32,
        dp: rd16(s, 10) as i32,
        dp_selector: rd16(s, 12) as i32,
        ..m3
    }
}

/// Loading a 32-bit environment.
pub open spec fn fldenv32_spec(m: FpuModel, s: Seq<u8>) -> FpuModel {
    let m1 = set_control_word_spec(m, rd16(s, 0) as u16);
    let m2 = set_status_word_spec(m1, rd16(s, 4) as u16);
    let m3 = set_tag_word_spec(m2, rd16(s, 8) as i32);
    FpuModel {
        ip: rd32(s, 12) as i32,
        ip_selector: rd16(s, 16) as i32,
        opcode: rd16(s, 18) as i32,
        dp: rd32(s, 20) as i32,
        dp_selector: rd16(s, 24) as i32,
        ..m3
    }
}

/// The images of st(0) .. st(n-1), each in the 80-bit format.
pub open spec fn regs_image(m: FpuModel, n: nat) -> Seq<u8>
    decreases n,
{
    if n == 0 {
        Seq::empty()
    } else {
        regs_image(m, (n - 1) as nat) + m80_image(reg_value(m, m.phys(n - 1)))
    }
}

/// The save area: the 32-bit environment, then st(0) .. st(7).
pub open spec fn fsave32_image(m: FpuModel) -> Seq<u8> {
    env32_image(m) + regs_image(m, 8)
}

/// Restoring a save area: the environment, then st(i) from the i-th
/// register image, stored as a write stores it and with its tag word
/// cleared where the environment marks it empty; each write notes its
/// sites in turn.
pub open spec fn frstor32_spec(m: FpuModel, s: Seq<u8>) -> FpuModel {
    let m1 = fldenv32_spec(m, s);
    FpuModel {
        st: Seq::new(8, |j: int| restored_reg(m1, s, j)),
        literal: Seq::new(8, |j: int| stored_pair(m1, j, restored_image(m1, s, j)).1),
        sites: m1.sites + restore_notes(m1.tag_exact_writes, s, 8),
        ..m1
    }
}

/// The image that a restore writes to physical register `j`: that of
/// st(i) for the i that `j` is.
pub open spec fn restored_image(m1: FpuModel, s: Seq<u8>, j: int) -> F80 {
    m80_at(s, 28 + 10 * ((j - m1.stack_ptr + 8) % 8))
}

/// Physical register `j` after a restore, given the state `m1` that the
/// restored environment left: its image as a write stores it, with the tag
/// word cleared if `m1` marks `j` empty.
pub open spec fn restored_reg(m1: FpuModel, s: Seq<u8>, j: int) -> F80 {
    let v = stored_pair(m1, j, restored_image(m1, s, j)).0;
    if m1.is_empty(j) {
        cleared(v)
    } else {
        v
    }
}

/// The sites that the writes of the first `n` register images note.
pub open spec fn restore_notes(tag_exact: bool, s: Seq<u8>, n: nat) -> Seq<usize>
    decreases n,
{
    if n == 0 {
        Seq::empty()
    } else {
        restore_notes(tag_exact, s, (n - 1) as nat) + notes_of(tag_exact, m80_at(s, 28 + 10 * (n - 1)), X87_SITE_FRSTOR)
    }
}

/// Stores the 16-bit environment.
pub fn fpu_fstenv16(fpu: &FpuState) -> (r: Vec<u8>)
    requires
        fpu.wf(),
    ensures
        r@ == env16_image(fpu@),
{
    let mut out: Vec<u8> = Vec::new();
    push_le16(&mut out, fpu.control_word);
    push_le16(&mut out, fpu_load_status_word(fpu));
    push_le16(&mut out, fpu_load_tag_word(fpu) as u16);
    push_le16(&mut out, fpu.ip as u16);
    push_le16(&mut out, fpu.ip_selector as u16);
    push_le16(&mut out, fpu.dp as u16);
    push_le16(&mut out, fpu.dp_selector as u16);
    out
}

/// Stores the 32-bit environment.
pub fn fpu_fstenv32(fpu: &FpuState) -> (r: Vec<u8>)
    requires
        fpu.wf(),
    ensures
        r@ == env32_image(fpu@),
{
    let mut out: Vec<u8> = Vec::new();
    push_le32(&mut out, 0xFFFF_0000u32 + fpu.control_word as u32);
    push_le32(&mut out, 0xFFFF_0000u32 + fpu_load_status_word(fpu) as u32);
    push_le32(&mut out, 0xFFFF_0000u32 + fpu_load_tag_word(fpu) as u32);
    push_le32(&mut out, fpu.ip as u32);
    push_le16(&mut out, fpu.ip_selector as u16);
    push_le16(&mut out, fpu.opcode as u16);
    push_le32(&mut out, fpu.dp as u32);
    push_le32(&mut out, 0xFFFF_0000u32 | (fpu.dp_selector as u32));
    out
}

/// Loads the 16-bit environment.
pub fn fpu_fldenv16(fpu: &mut FpuState, bytes: &[u8])
    requires
        old(fpu).wf(),
        14 <= bytes@.len(),
    ensures
        final(fpu).wf(),
        final(fpu)@ == fldenv16_spec(old(fpu)@, bytes@),
{
    set_control_word(fpu, read_le16(bytes, 0));
    fpu_set_status_word(fpu, read_le16(bytes, 2));
    fpu_set_tag_word(fpu, read_le16(bytes, 4) as i32);
    fpu.ip = read_le16(bytes, 6) as i32;
    fpu.ip_selector = read_le16(bytes, 8) as i32;
    fpu.dp = read_le16(bytes, 10) as i32;
    fpu.dp_selector = read_le16(bytes, 12) as i32;
}

/// Loads the 32-bit environment.
pub fn fpu_fldenv32(fpu: &mut FpuState, bytes: &[u8])
    requires
        old(fpu).wf(),
        28 <= bytes@.len(),
    ensures
        final(fpu).wf(),
        final(fpu)@ == fldenv32_spec(old(fpu)@, bytes@),
{
    set_control_word(fpu, read_le16(bytes, 0));
    fpu_set_status_word(fpu, read_le16(bytes, 4));
    fpu_set_tag_word(fpu, read_le16(bytes, 8) as i32);
    fpu.ip = read_le32(bytes, 12) as i32;
    fpu.ip_selector = read_le16(bytes, 16) as i32;
    fpu.opcode = read_le16(bytes, 18) as i32;
    fpu.dp = read_le32(bytes, 20) as i32;
    fpu.dp_selector = read_le16(bytes, 24) as i32;
}

/// Saves the whole unit to a 108-byte image and resets it.
pub fn fpu_fsave32(fpu: &mut FpuState) -> (r: Vec<u8>)
    requires
        old(fpu).wf(),
    ensures
        final(fpu).wf(),
        r@ == fsave32_image(old(fpu)@),
        final(fpu)@ == finit(old(fpu)@),
{
    let mut out = fpu_fstenv32(fpu);
    for i in 0u8..8
        invariant
            fpu.wf(),
            out@ == env32_image(fpu@) + regs_image(fpu@, i as nat),
    {
        let reg_index = ((i + fpu.stack_ptr) % 8) as usize;
        let mut image = fpu_store_m80(fpu_register(fpu, reg_index));
        out.append(&mut image);
        assert(out@ =~= env32_image(fpu@) + regs_image(fpu@, (i + 1) as nat));
    }
    fpu_finit(fpu);
    out
}

/// Restores the whole unit from a 108-byte image.
pub fn fpu_frstor32(fpu: &mut FpuState, bytes: &[u8])
    requires
        old(fpu).wf(),
        108 <= bytes@.len(),
    ensures
        final(fpu).wf(),
        final(fpu)@ == frstor32_spec(old(fpu)@, bytes@),
{
    fpu_fldenv32(fpu, bytes);
    let ghost m1 = fpu@;
    for i in 0u8..8
        invariant
            fpu.wf(),
            108 <= bytes@.len(),
            m1 == fldenv32_spec(old(fpu)@, bytes@),
            m1.wf(),
            fpu@ == (FpuModel { st: fpu@.st, literal: fpu@.literal, sites: fpu@.sites, ..m1 }),
            fpu@.sites == m1.sites + restore_notes(m1.tag_exact_writes, bytes@, i as nat),
            forall|j: int|
                0 <= j < 8 ==> #[trigger] fpu.st@[j] == (if (j - m1.stack_ptr + 8) % 8 < i {
                    restored_reg(m1, bytes@, j)
                } else {
                    m1.st[j]
                }),
            forall|j: int|
                0 <= j < 8 ==> #[trigger] fpu.literal@[j] == (if (j - m1.stack_ptr + 8) % 8 < i {
                    stored_pair(m1, j, restored_image(m1, bytes@, j)).1
                } else {
                    m1.literal[j]
                }),
    {
        let reg_index = ((fpu.stack_ptr + i) % 8) as i32;
        let ghost before = fpu@;
        let value = fpu_load_m80(bytes, 28 + 10 * i as usize);
        fpu_write_st_at(fpu, reg_index, value, X87_SITE_FRSTOR);
        // The image holds bits for every register whatever its tag; the
        // environment has already said which registers are empty, and this
        // write must not contradict it.
        if slot_is_empty(fpu, reg_index as u8) {
            fpu_clear_tag(fpu, reg_index);
        }
        proof {
            lemma_restore_step(m1, bytes@, before, fpu@, i as int);
        }
    }
    assert(fpu.st@ =~= frstor32_spec(old(fpu)@, bytes@).st);
    assert(fpu.literal@ =~= frstor32_spec(old(fpu)@, bytes@).literal);
}

/// One step of a restore: writing the image of st(i) extends what the
/// restore has done to st(0) .. st(i).
proof fn lemma_restore_step(m1: FpuModel, s: Seq<u8>, prev: FpuModel, next: FpuModel, i: int)
    requires
        m1.wf(),
        0 <= i < 8,
        prev == (FpuModel { st: prev.st, literal: prev.literal, sites: prev.sites, ..m1 }),
        prev.st.len() == 8,
        prev.literal.len() == 8,
        prev.sites == m1.sites + restore_notes(m1.tag_exact_writes, s, i as nat),
        forall|j: int|
            0 <= j < 8 ==> #[trigger] prev.st[j] == (if (j - m1.stack_ptr + 8) % 8 < i {
                restored_reg(m1, s, j)
            } else {
                m1.st[j]
            }),
        forall|j: int|
            0 <= j < 8 ==> #[trigger] prev.literal[j] == (if (j - m1.stack_ptr + 8) % 8 < i {
                stored_pair(m1, j, restored_image(m1, s, j)).1
            } else {
                m1.literal[j]
            }),
        ({
            let idx = (m1.stack_ptr + i) % 8;
            let w = write_st(prev, idx, m80_at(s, 28 + 10 * i), X87_SITE_FRSTOR);
            next == if m1.is_empty(idx) { clear_tag(w, idx) } else { w }
        }),
    ensures
        next == (FpuModel { st: next.st, literal: next.literal, sites: next.sites, ..m1 }),
        next.sites == m1.sites + restore_notes(m1.tag_exact_writes, s, (i + 1) as nat),
        forall|j: int|
            0 <= j < 8 ==> #[trigger] next.st[j] == (if (j - m1.stack_ptr + 8) % 8 < i + 1 {
                restored_reg(m1, s, j)
            } else {
                m1.st[j]
            }),
        forall|j: int|
            0 <= j < 8 ==> #[trigger] next.literal[j] == (if (j - m1.stack_ptr + 8) % 8 < i + 1 {
                stored_pair(m1, j, restored_image(m1, s, j)).1
            } else {
                m1.literal[j]
            }),
{
    let idx = (m1.stack_ptr + i) % 8;
    assert((idx - m1.stack_ptr + 8) % 8 == i);
    assert(restored_image(m1, s, idx) == m80_at(s, 28 + 10 * i));
    assert(stored_pair(prev, idx, m80_at(s, 28 + 10 * i)) == stored_pair(m1, idx, m80_at(s, 28 + 10 * i)));
    assert(next.sites =~= m1.sites + restore_notes(m1.tag_exact_writes, s, (i + 1) as nat));
    assert forall|j: int| 0 <= j < 8 implies #[trigger] next.st[j] == (if (j - m1.stack_ptr + 8) % 8 < i + 1 {
        restored_reg(m1, s, j)
    } else {
        m1.st[j]
    }) by {
        if j != idx {
            assert((j - m1.stack_ptr + 8) % 8 != i);
        }
    }
    assert forall|j: int| 0 <= j < 8 implies #[trigger] next.literal[j] == (if (j - m1.stack_ptr + 8) % 8 < i + 1 {
        stored_pair(m1, j, restored_image(m1, s, j)).1
    } else {
        m1.literal[j]
    }) by {
        if j != idx {
            assert((j - m1.stack_ptr + 8) % 8 != i);
        }
    }
}

/// Stores st(0) as ten bytes and pops it.
pub fn fpu_fst80p(fpu: &mut FpuState) -> (r: Vec<u8>)
    requires
        old(fpu).wf(),
    ensures
        final(fpu).wf(),
        r@ == m80_image(read_sti(old(fpu)@, 0).1),
        final(fpu)@ == pop(read_sti(old(fpu)@, 0).0),
{
    let st0 = fpu_get_st0(fpu);
    let image = fpu_store_m80(st0);
    fpu_pop(fpu);
    image
}

/// Pushes the 80-bit value in the ten bytes given, taken as it stands.
pub fn fpu_fldm80(fpu: &mut FpuState, bytes: &[u8])
    requires
        old(fpu).wf(),
        10 <= bytes@.len(),
    ensures
        final(fpu).wf(),
        final(fpu)@ == push(old(fpu)@, m80_at(bytes@, 0), X87_SITE_FLD_M80),
{
    let value = fpu_load_m80(bytes, 0);
    fpu_push_at(fpu, value, X87_SITE_FLD_M80);
}

} // verus!
