//! The unit's state: eight physical registers, the stack pointer, the
//! emptiness mask, the status and control words and the last-instruction
//! pointers; and the register-stack operations on it.
use vstd::prelude::*;
use crate::f80::{F80, widen_f64, f64_exact_bits, spec_indefinite_nan, f80_exact_f64_bits};
use crate::bits::{empty_bit, lemma_mask_set, lemma_mask_clear};

verus! {

pub const FPU_C0: u16 = 0x100;
pub const FPU_C1: u16 = 0x200;
pub const FPU_C2: u16 = 0x400;
pub const FPU_C3: u16 = 0x4000;
pub const FPU_RESULT_FLAGS: u16 = FPU_C0 | FPU_C1 | FPU_C2 | FPU_C3;

/// Invalid operation.
pub const FPU_EX_I: u16 = 1;
/// Denormal operand.
pub const FPU_EX_D: u16 = 2;
/// Zero divide.
pub const FPU_EX_Z: u16 = 4;
/// Overflow.
pub const FPU_EX_O: u16 = 8;
/// Underflow.
pub const FPU_EX_U: u16 = 16;
/// Precision.
pub const FPU_EX_P: u16 = 32;
/// Stack fault.
pub const FPU_EX_SF: u16 = 64;

/// The tag that generated code leaves in a register's exponent word when it
/// stores a double there: the mantissa word then holds the double's bits.
/// Every reader turns such a register back into the 80-bit format before it
/// is used.
pub const FPU_RELAXED_TAG: u16 = 0x7FFE;

/// The status word with the stack-top field masked out.
pub const STATUS_TOP_MASK: u16 = 0x3800;

/// The rounding that the control word's RC field selects.
#[derive(Clone, Copy, PartialEq, Eq, Structural, Debug)]
pub enum RoundingMode {
    NearEven,
    Floor,
    Ceil,
    Trunc,
}

/// The precision that the control word's PC field selects.
#[derive(Clone, Copy, PartialEq, Eq, Structural, Debug)]
pub enum Precision {
    P32,
    P64,
    P80,
}

// ---- Where instructions report themselves ----
//
// A site names an instruction form, so that a report can say how often each
// one wrote a value that the double format holds, or one it still refuses.

pub const X87_SITE_ARITH: usize = 0;
pub const X87_SITE_WRITE_EXACT: usize = 1;
pub const X87_SITE_WRITE_WIDE: usize = 2;
pub const X87_SITE_INTERP_INLINE: usize = 3;
pub const X87_SITE_FCMOVCC: usize = 4;
pub const X87_SITE_FILD_M16: usize = 5;
pub const X87_SITE_FILD_M32: usize = 6;
pub const X87_SITE_FILD_M64: usize = 7;
pub const X87_SITE_PUSH_OTHER: usize = 8;
pub const X87_SITE_FLD_M32: usize = 9;
pub const X87_SITE_FLD_M64: usize = 10;
pub const X87_SITE_FLD_M80: usize = 11;
pub const X87_SITE_FPREM: usize = 12;
pub const X87_SITE_FRSTOR: usize = 13;
pub const X87_SITE_FST_STI: usize = 14;
pub const X87_SITE_FXCH: usize = 15;
pub const X87_SITE_TRANSCENDENTAL: usize = 16;
pub const X87_SITE_SIGN: usize = 17;
pub const X87_SITE_FSQRT: usize = 18;
pub const X87_SITE_FRNDINT: usize = 19;
pub const X87_SITE_FSCALE: usize = 20;

/// The state of the floating-point unit.
pub struct FpuState {
    /// The eight physical registers, in the order of the tag word.
    pub st: Vec<F80>,
    /// Register i holds an 80-bit value whose exponent word happens to be
    /// the tag: the library reads it as it stands, not as a double. Code
    /// that reads the exponent word alone does not see this mark.
    pub literal: Vec<bool>,
    /// The physical index of st(0).
    pub stack_ptr: u8,
    /// Bit i set: physical register i is empty.
    pub stack_empty: u8,
    /// The status word, with the stack-top field kept in `stack_ptr`.
    pub status_word: u16,
    pub control_word: u16,
    pub ip: i32,
    pub ip_selector: i32,
    pub dp: i32,
    pub dp_selector: i32,
    pub opcode: i32,
    /// 1 exactly when the precision control selects single precision.
    pub precision_single: u8,
    pub rounding_mode: RoundingMode,
    pub precision: Precision,
    /// Store a register as a tagged double whenever a double holds its value
    /// exactly.
    pub tag_exact_writes: bool,
    /// Let registers that hold a tagged double be read as that double.
    pub inline_doubles: bool,
    /// The sites noted, oldest first, for a report to read.
    pub sites: Vec<usize>,
}

impl FpuState {
    /// The state is well formed: see `FpuModel::wf`.
    pub open spec fn wf(&self) -> bool {
        self@.wf()
    }
}

/// The unit's state as mathematical values: what every contract below
/// speaks of.
pub ghost struct FpuModel {
    pub st: Seq<F80>,
    pub literal: Seq<bool>,
    pub stack_ptr: u8,
    pub stack_empty: u8,
    pub status_word: u16,
    pub control_word: u16,
    pub ip: i32,
    pub ip_selector: i32,
    pub dp: i32,
    pub dp_selector: i32,
    pub opcode: i32,
    pub precision_single: u8,
    pub rounding_mode: RoundingMode,
    pub precision: Precision,
    pub tag_exact_writes: bool,
    pub inline_doubles: bool,
    pub sites: Seq<usize>,
}

impl View for FpuState {
    type V = FpuModel;

    open spec fn view(&self) -> FpuModel {
        FpuModel {
            st: self.st@,
            literal: self.literal@,
            stack_ptr: self.stack_ptr,
            stack_empty: self.stack_empty,
            status_word: self.status_word,
            control_word: self.control_word,
            ip: self.ip,
            ip_selector: self.ip_selector,
            dp: self.dp,
            dp_selector: self.dp_selector,
            opcode: self.opcode,
            precision_single: self.precision_single,
            rounding_mode: self.rounding_mode,
            precision: self.precision,
            tag_exact_writes: self.tag_exact_writes,
            inline_doubles: self.inline_doubles,
            sites: self.sites@,
        }
    }
}

/// The rounding mode that a control word selects.
pub open spec fn rounding_of(cw: u16) -> RoundingMode {
    let rc = (cw / 0x400) % 4;
    if rc == 0 {
        RoundingMode::NearEven
    } else if rc == 1 {
        RoundingMode::Floor
    } else if rc == 2 {
        RoundingMode::Ceil
    } else {
        RoundingMode::Trunc
    }
}

/// The precision that a control word selects; the reserved value 1 is
/// taken as full precision.
pub open spec fn precision_of(cw: u16) -> Precision {
    let pc = (cw / 0x100) % 4;
    if pc == 0 {
        Precision::P32
    } else if pc == 2 {
        Precision::P64
    } else {
        Precision::P80
    }
}

/// Whether a control word selects single precision, as a byte.
pub open spec fn single_of(cw: u16) -> u8 {
    if (cw / 0x100) % 4 == 0 { 1u8 } else { 0u8 }
}

impl FpuModel {
    /// Eight registers and a stack pointer among them; the rounding mode and
    /// precision are those the control word selects; and no register that
    /// is marked empty holds the tag word.
    pub open spec fn wf(self) -> bool {
        &&& self.st.len() == 8
        &&& self.literal.len() == 8
        &&& self.stack_ptr < 8
        &&& self.rounding_mode == rounding_of(self.control_word)
        &&& self.precision == precision_of(self.control_word)
        &&& self.precision_single == single_of(self.control_word)
        &&& no_tagged_empty(self)
    }

    /// Physical register `i` is empty.
    pub open spec fn is_empty(self, i: int) -> bool {
        empty_bit(self.stack_empty, i)
    }

    /// Physical register `i` holds a tagged double.
    pub open spec fn is_tagged(self, i: int) -> bool {
        self.st[i].sign_exponent == FPU_RELAXED_TAG && !self.literal[i]
    }

    /// The physical index of st(i).
    pub open spec fn phys(self, i: int) -> int {
        (self.stack_ptr + i) % 8
    }
}

/// No register that is marked empty holds the tag word, in whatever form:
/// code that trusts the exponent word alone never takes an empty register
/// for a full one.
pub open spec fn no_tagged_empty(m: FpuModel) -> bool {
    untagged_when_empty(m.st, m.stack_empty)
}

/// No register whose bit is set in `mask` holds the tag word.
pub open spec fn untagged_when_empty(st: Seq<F80>, mask: u8) -> bool {
    forall|i: int| 0 <= i < 8 && #[trigger] empty_bit(mask, i) ==> st[i].sign_exponent != FPU_RELAXED_TAG
}

/// A word pair as a register reads it when its exponent word is the tag:
/// the double in its mantissa, widened; any other pair as it stands.
pub open spec fn canonical(x: F80) -> F80 {
    if x.sign_exponent == FPU_RELAXED_TAG {
        widen_f64(x.mantissa)
    } else {
        x
    }
}

/// Physical register `i` as an 80-bit value, whichever form it was left in.
pub open spec fn reg_value(m: FpuModel, i: int) -> F80 {
    if m.is_tagged(i) {
        widen_f64(m.st[i].mantissa)
    } else {
        m.st[i]
    }
}

/// A value as an empty register keeps it: with its exponent word cleared if
/// that word is the tag.
pub open spec fn emptied(x: F80) -> F80 {
    if x.sign_exponent == FPU_RELAXED_TAG {
        cleared(x)
    } else {
        x
    }
}

/// The form in which a write leaves `v` in physical register `idx`, with
/// whether it is kept as a literal 80-bit value. An empty register takes
/// `v` without the tag word. A full one takes it tagged when writes are
/// tagged, `v` does not carry the tag word itself, and a double holds `v`
/// exactly; as it is otherwise, a literal when it carries the tag word.
pub open spec fn stored_pair(m: FpuModel, idx: int, v: F80) -> (F80, bool) {
    if m.is_empty(idx) {
        (emptied(v), false)
    } else if m.tag_exact_writes && v.sign_exponent != FPU_RELAXED_TAG {
        match f64_exact_bits(v) {
            Some(b) => (F80 { mantissa: b, sign_exponent: FPU_RELAXED_TAG }, false),
            None => (v, false),
        }
    } else {
        (v, v.sign_exponent == FPU_RELAXED_TAG)
    }
}

/// The sites a write notes: with tagged writes on and a value that does not
/// carry the tag word, the exact-write site when a double holds the value,
/// else the wide-write site and then the instruction's own; nothing
/// otherwise.
pub open spec fn notes_of(tag_exact: bool, v: F80, site: usize) -> Seq<usize> {
    if tag_exact && v.sign_exponent != FPU_RELAXED_TAG {
        match f64_exact_bits(v) {
            Some(_) => seq![X87_SITE_WRITE_EXACT],
            None => seq![X87_SITE_WRITE_WIDE, site],
        }
    } else {
        Seq::empty()
    }
}

/// The site log after a write of `v`.
pub open spec fn write_notes(m: FpuModel, v: F80, site: usize) -> Seq<usize> {
    m.sites + notes_of(m.tag_exact_writes, v, site)
}

/// A register with its tag word cleared.
pub open spec fn cleared(x: F80) -> F80 {
    F80 { mantissa: x.mantissa, sign_exponent: 0 }
}

/// The status word after a stack fault reported on a read of an empty
/// register: C1 clear, stack fault and invalid operation set.
pub open spec fn underflow_sw(sw: u16) -> u16 {
    (sw & !FPU_C1) | (FPU_EX_SF | FPU_EX_I)
}

/// The status word after a push onto a full register: C1 set, stack fault
/// and invalid operation set.
pub open spec fn overflow_sw(sw: u16) -> u16 {
    (sw | FPU_C1) | (FPU_EX_SF | FPU_EX_I)
}

// ---- The operations as transitions of the model ----

/// Stores `v` in physical register `idx`, noting the sites of the write.
pub open spec fn write_st(m: FpuModel, idx: int, v: F80, site: usize) -> FpuModel {
    let p = stored_pair(m, idx, v);
    FpuModel {
        st: m.st.update(idx, p.0),
        literal: m.literal.update(idx, p.1),
        sites: write_notes(m, v, site),
        ..m
    }
}

/// Stores the double with bits `b` in physical register `idx`: tagged when
/// the register is full, widened to the 80-bit format, as an empty
/// register keeps it, when it is empty.
pub open spec fn write_tagged(m: FpuModel, idx: int, b: u64) -> FpuModel {
    FpuModel {
        st: m.st.update(idx, if m.is_empty(idx) {
            emptied(widen_f64(b))
        } else {
            F80 { mantissa: b, sign_exponent: FPU_RELAXED_TAG }
        }),
        literal: m.literal.update(idx, false),
        sites: m.sites.push(X87_SITE_INTERP_INLINE),
        ..m
    }
}

/// Clears the tag word of physical register `idx`.
pub open spec fn clear_tag(m: FpuModel, idx: int) -> FpuModel {
    FpuModel { st: m.st.update(idx, cleared(m.st[idx])), ..m }
}

/// The status word with `bits` set.
pub open spec fn raise(m: FpuModel, bits: u16) -> FpuModel {
    FpuModel { status_word: m.status_word | bits, ..m }
}

/// Reads st(i): the state after the read, and the value read.
pub open spec fn read_sti(m: FpuModel, i: int) -> (FpuModel, F80) {
    let idx = m.phys(i);
    if m.is_empty(idx) {
        (FpuModel { status_word: underflow_sw(m.status_word), ..m }, spec_indefinite_nan())
    } else {
        (m, reg_value(m, idx))
    }
}

/// Pops the stack.
pub open spec fn pop(m: FpuModel) -> FpuModel {
    let p = m.stack_ptr;
    FpuModel {
        stack_empty: m.stack_empty | (1u8 << p),
        st: m.st.update(p as int, cleared(m.st[p as int])),
        stack_ptr: ((p + 1) % 8) as u8,
        ..m
    }
}

/// Marks st(r) empty.
pub open spec fn ffree(m: FpuModel, r: int) -> FpuModel {
    let idx = m.phys(r);
    FpuModel {
        stack_empty: m.stack_empty | (1u8 << (idx as u8)),
        st: m.st.update(idx, cleared(m.st[idx])),
        ..m
    }
}

/// Pushes: the stack pointer moves down; an empty slot is marked full and
/// takes `v` (or the double with bits `bits`, tagged), a full one is a
/// stack fault and takes the indefinite NaN.
pub open spec fn push_with(m: FpuModel, v: F80, tagged: bool, bits: u64, site: usize) -> FpuModel {
    let p = ((m.stack_ptr + 7) % 8) as u8;
    let moved = FpuModel { stack_ptr: p, ..m };
    if m.is_empty(p as int) {
        let ready = FpuModel {
            status_word: m.status_word & !FPU_C1,
            stack_empty: m.stack_empty & !(1u8 << p),
            ..moved
        };
        if tagged {
            write_tagged(ready, p as int, bits)
        } else {
            write_st(ready, p as int, v, site)
        }
    } else {
        write_st(
            FpuModel { status_word: overflow_sw(m.status_word), ..moved },
            p as int,
            spec_indefinite_nan(),
            site,
        )
    }
}

/// Pushes `v`.
pub open spec fn push(m: FpuModel, v: F80, site: usize) -> FpuModel {
    push_with(m, v, false, 0, site)
}

/// Pushes the double with bits `b`, tagged.
pub open spec fn push_tagged(m: FpuModel, b: u64, site: usize) -> FpuModel {
    push_with(m, F80 { mantissa: 0, sign_exponent: 0 }, true, b, site)
}

/// The stack pointer moved by `delta` places (mod 8), with C1 clear.
pub open spec fn move_top(m: FpuModel, delta: int) -> FpuModel {
    FpuModel {
        stack_ptr: ((m.stack_ptr + delta) % 8) as u8,
        status_word: m.status_word & !FPU_C1,
        ..m
    }
}

/// The status word as a program reads it.
pub open spec fn status_word_of(m: FpuModel) -> u16 {
    (m.status_word & !STATUS_TOP_MASK) | ((m.stack_ptr as u16) << 11u16)
}

/// Loads the status word.
pub open spec fn set_status_word_spec(m: FpuModel, sw: u16) -> FpuModel {
    FpuModel {
        status_word: sw & !STATUS_TOP_MASK,
        stack_ptr: ((sw / 0x800) % 8) as u8,
        ..m
    }
}

/// Loads the control word.
pub open spec fn set_control_word_spec(m: FpuModel, cw: u16) -> FpuModel {
    FpuModel {
        control_word: cw,
        rounding_mode: rounding_of(cw),
        precision: precision_of(cw),
        precision_single: single_of(cw),
        ..m
    }
}

/// Every register with its tag word cleared.
pub open spec fn clear_all_tags(st: Seq<F80>) -> Seq<F80> {
    Seq::new(st.len(), |i: int| cleared(st[i]))
}

/// The reset state.
pub open spec fn finit(m: FpuModel) -> FpuModel {
    FpuModel {
        st: clear_all_tags(m.st),
        status_word: 0,
        ip: 0,
        dp: 0,
        opcode: 0,
        stack_empty: 0xFF,
        stack_ptr: 0,
        ..set_control_word_spec(m, 0x37F)
    }
}

// ---- Facts the operations keep ----

/// The form a write leaves reads back as the value written, unless the
/// register is empty and the value carries the tag word.
pub proof fn lemma_stored_pair_reads(m: FpuModel, idx: int, v: F80)
    requires
        !(m.is_empty(idx) && v.sign_exponent == FPU_RELAXED_TAG),
    ensures
        ({
            let p = stored_pair(m, idx, v);
            (if p.0.sign_exponent == FPU_RELAXED_TAG && !p.1 { widen_f64(p.0.mantissa) } else { p.0 }) == v
        }),
{
    if m.tag_exact_writes && v.sign_exponent != FPU_RELAXED_TAG && !m.is_empty(idx) {
        if let Some(b) = f64_exact_bits(v) {
            assert(widen_f64(b) == v);
        }
    }
}

/// Writing keeps the state well formed, and the register written reads
/// back as the value written (unless it is empty and the value carries the
/// tag word); the others are left as they were.
pub proof fn lemma_write_st_wf(m: FpuModel, idx: int, v: F80, site: usize)
    requires
        m.wf(),
        0 <= idx < 8,
    ensures
        write_st(m, idx, v, site).wf(),
        !(m.is_empty(idx) && v.sign_exponent == FPU_RELAXED_TAG) ==> reg_value(write_st(m, idx, v, site), idx) == v,
        forall|j: int| 0 <= j < 8 && j != idx ==> #[trigger] reg_value(write_st(m, idx, v, site), j) == reg_value(m, j),
{
    let n = write_st(m, idx, v, site);
    assert forall|i: int| 0 <= i < 8 && #[trigger] empty_bit(n.stack_empty, i) implies n.st[i].sign_exponent != FPU_RELAXED_TAG by {
        if i != idx {
            assert(m.is_empty(i));
        }
    }
    if !(m.is_empty(idx) && v.sign_exponent == FPU_RELAXED_TAG) {
        lemma_stored_pair_reads(m, idx, v);
    }
    assert forall|j: int| 0 <= j < 8 && j != idx implies #[trigger] reg_value(n, j) == reg_value(m, j) by {}
}

/// Marking a register empty keeps the state well formed when it does not
/// hold the tag word.
pub proof fn lemma_mark_empty_wf(m: FpuModel, i: u8, mask: u8)
    requires
        m.wf(),
        i < 8,
        mask == m.stack_empty | (1u8 << i),
        m.st[i as int].sign_exponent != FPU_RELAXED_TAG,
    ensures
        (FpuModel { stack_empty: mask, ..m }).wf(),
{
    let n = FpuModel { stack_empty: mask, ..m };
    assert forall|j: int| 0 <= j < 8 && #[trigger] empty_bit(n.stack_empty, j) implies n.st[j].sign_exponent != FPU_RELAXED_TAG by {
        lemma_mask_set(m.stack_empty, i, j as u8);
        if j != i {
            assert(m.is_empty(j));
        }
    }
}

/// Marking a register full keeps the state well formed.
pub proof fn lemma_mark_full_wf(m: FpuModel, i: u8, mask: u8)
    requires
        m.wf(),
        i < 8,
        mask == m.stack_empty & !(1u8 << i),
    ensures
        (FpuModel { stack_empty: mask, ..m }).wf(),
        !(FpuModel { stack_empty: mask, ..m }).is_empty(i as int),
{
    let n = FpuModel { stack_empty: mask, ..m };
    lemma_mask_clear(m.stack_empty, i, i);
    assert forall|j: int| 0 <= j < 8 && #[trigger] empty_bit(n.stack_empty, j) implies n.st[j].sign_exponent != FPU_RELAXED_TAG by {
        lemma_mask_clear(m.stack_empty, i, j as u8);
        assert(m.is_empty(j));
    }
}

// ---- The executable operations ----

/// A word pair taken as a tagged double when its exponent word is the tag:
/// the double in its mantissa, widened; any other pair as it stands. A
/// register is read with `fpu_register`, which also knows the registers
/// whose 80-bit value carries that word itself.
pub fn fpu_canonical(x: F80) -> (r: F80)
    ensures
        r == canonical(x),
{
    if x.sign_exponent == FPU_RELAXED_TAG {
        F80::of_f64(x.mantissa)
    } else {
        x
    }
}

/// Physical register `index` as an 80-bit value, whichever form it was
/// left in.
pub fn fpu_register(fpu: &FpuState, index: usize) -> (r: F80)
    requires
        fpu.wf(),
        index < 8,
    ensures
        r == reg_value(fpu@, index as int),
{
    let x = fpu.st[index];
    if x.sign_exponent == FPU_RELAXED_TAG && !fpu.literal[index] {
        F80::of_f64(x.mantissa)
    } else {
        x
    }
}

/// The state with `site` noted.
pub open spec fn noted(m: FpuModel, site: usize) -> FpuModel {
    FpuModel { sites: m.sites.push(site), ..m }
}

/// Notes a site for the report.
pub fn note_x87_site(fpu: &mut FpuState, site: usize)
    ensures
        final(fpu)@ == noted(old(fpu)@, site),
{
    fpu.sites.push(site);
}

/// Stores a register, leaving it in the form generated code reads inline
/// whenever the double format holds the value with nothing lost: tagged,
/// if writes are tagged and the register is full. The test is integer
/// arithmetic on the two words, and a value it accepts reads back as
/// exactly the bits it came from. In a full register, a value whose own
/// exponent word is the tag is kept as a literal 80-bit value, so that the
/// library reads it back as itself; an empty register never holds the tag
/// word, whatever is written there. `site` names the instruction, so a
/// report can say what the double format still refuses.
pub fn fpu_write_st_at(fpu: &mut FpuState, index: i32, value: F80, site: usize)
    requires
        old(fpu).wf(),
        0 <= index < 8,
    ensures
        final(fpu).wf(),
        final(fpu)@ == write_st(old(fpu)@, index as int, value, site),
{
    proof {
        lemma_write_st_wf(fpu@, index as int, value, site);
    }
    let empty = slot_is_empty(fpu, index as u8);
    let mut v = value;
    if fpu.tag_exact_writes && value.sign_exponent != FPU_RELAXED_TAG {
        match f80_exact_f64_bits(&value) {
            Some(bits) => {
                note_x87_site(fpu, X87_SITE_WRITE_EXACT);
                if !empty {
                    v = F80 { mantissa: bits, sign_exponent: FPU_RELAXED_TAG };
                }
            },
            None => {
                note_x87_site(fpu, X87_SITE_WRITE_WIDE);
                note_x87_site(fpu, site);
            },
        }
    }
    let literal = !empty && value.sign_exponent == FPU_RELAXED_TAG;
    if empty && value.sign_exponent == FPU_RELAXED_TAG {
        v = F80 { mantissa: value.mantissa, sign_exponent: 0 };
    }
    fpu.st[index as usize] = v;
    fpu.literal[index as usize] = literal;
    assert(fpu.sites@ =~= write_notes(old(fpu)@, value, site));
}

/// Stores the result of an arithmetic instruction in a register.
pub fn fpu_write_st(fpu: &mut FpuState, index: i32, value: F80)
    requires
        old(fpu).wf(),
        0 <= index < 8,
    ensures
        final(fpu).wf(),
        final(fpu)@ == write_st(old(fpu)@, index as int, value, X87_SITE_ARITH),
{
    fpu_write_st_at(fpu, index, value, X87_SITE_ARITH)
}

/// The register at `index` as the bits of the double it holds, or nothing
/// when it is empty, in the 80-bit format, or reading doubles inline is off.
pub fn fpu_tagged(fpu: &FpuState, index: i32) -> (r: Option<u64>)
    requires
        fpu.wf(),
        0 <= index < 8,
    ensures
        r == (if fpu.inline_doubles && fpu@.is_tagged(index as int) {
            Some(fpu.st@[index as int].mantissa)
        } else {
            None
        }),
        r is Some ==> !fpu@.is_empty(index as int),
{
    if !fpu.inline_doubles {
        return None;
    }
    let r = fpu.st[index as usize];
    if r.sign_exponent == FPU_RELAXED_TAG && !fpu.literal[index as usize] {
        Some(r.mantissa)
    } else {
        None
    }
}

/// Clears the tag word of the register at `index`: every writer that marks
/// a slot empty calls this, so that a slot's exponent word is never the tag
/// while the slot is marked empty.
pub fn fpu_clear_tag(fpu: &mut FpuState, index: i32)
    requires
        old(fpu).wf(),
        0 <= index < 8,
    ensures
        final(fpu).wf(),
        final(fpu)@ == clear_tag(old(fpu)@, index as int),
{
    let mut r = fpu.st[index as usize];
    r.sign_exponent = 0;
    fpu.st[index as usize] = r;
    proof {
        let n = clear_tag(old(fpu)@, index as int);
        assert forall|i: int| 0 <= i < 8 && #[trigger] empty_bit(n.stack_empty, i) implies n.st[i].sign_exponent != FPU_RELAXED_TAG by {
            if i != index {
                assert(old(fpu)@.is_empty(i));
            }
        }
    }
}

/// Stores the double with these bits as generated code would, tagged; an
/// empty register takes it in the 80-bit format instead.
pub fn fpu_write_tagged(fpu: &mut FpuState, index: i32, bits: u64)
    requires
        old(fpu).wf(),
        0 <= index < 8,
    ensures
        final(fpu).wf(),
        final(fpu)@ == write_tagged(old(fpu)@, index as int, bits),
{
    note_x87_site(fpu, X87_SITE_INTERP_INLINE);
    if slot_is_empty(fpu, index as u8) {
        let mut w = F80::of_f64(bits);
        if w.sign_exponent == FPU_RELAXED_TAG {
            w.sign_exponent = 0;
        }
        fpu.st[index as usize] = w;
        fpu.literal[index as usize] = false;
    } else {
        fpu.st[index as usize] = F80 { mantissa: bits, sign_exponent: FPU_RELAXED_TAG };
        fpu.literal[index as usize] = false;
    }
    proof {
        let m = old(fpu)@;
        let n = write_tagged(m, index as int, bits);
        assert forall|i: int| 0 <= i < 8 && #[trigger] empty_bit(n.stack_empty, i) implies n.st[i].sign_exponent != FPU_RELAXED_TAG by {
            if i != index {
                assert(m.is_empty(i));
            }
        }
    }
}

/// Whether physical register `index` is empty.
pub fn slot_is_empty(fpu: &FpuState, index: u8) -> (r: bool)
    requires
        index < 8,
    ensures
        r == fpu@.is_empty(index as int),
{
    (fpu.stack_empty >> index) & 1 == 1
}

/// Reports a stack fault.
pub fn fpu_stack_fault(fpu: &mut FpuState)
    ensures
        final(fpu)@ == raise(old(fpu)@, FPU_EX_SF | FPU_EX_I),
{
    fpu.status_word = fpu.status_word | (FPU_EX_SF | FPU_EX_I);
}

/// Reports a division by zero.
pub fn fpu_zero_fault(fpu: &mut FpuState)
    ensures
        final(fpu)@ == raise(old(fpu)@, FPU_EX_Z),
{
    fpu.status_word = fpu.status_word | FPU_EX_Z;
}

/// Reports an underflow.
pub fn fpu_underflow_fault(fpu: &mut FpuState)
    ensures
        final(fpu)@ == raise(old(fpu)@, FPU_EX_U),
{
    fpu.status_word = fpu.status_word | FPU_EX_U;
}

/// Reports an invalid operation.
pub fn fpu_invalid_arithmetic(fpu: &mut FpuState)
    ensures
        final(fpu)@ == raise(old(fpu)@, FPU_EX_I),
{
    fpu.status_word = fpu.status_word | FPU_EX_I;
}

/// Merges the exception flags that an operation raised into the status word.
pub fn fpu_merge_exceptions(fpu: &mut FpuState, flags: u16)
    ensures
        final(fpu)@ == raise(old(fpu)@, flags),
{
    fpu.status_word = fpu.status_word | flags;
}

/// Clears the status word.
pub fn fpu_fclex(fpu: &mut FpuState)
    ensures
        final(fpu)@ == (FpuModel { status_word: 0, ..old(fpu)@ }),
{
    fpu.status_word = 0;
}

/// st(i): its value in the 80-bit format, or the indefinite NaN with a stack
/// fault when the register is empty.
pub fn fpu_get_sti(fpu: &mut FpuState, i: i32) -> (r: F80)
    requires
        old(fpu).wf(),
        0 <= i < 8,
    ensures
        final(fpu).wf(),
        (final(fpu)@, r) == read_sti(old(fpu)@, i as int),
{
    let idx: u8 = ((fpu.stack_ptr as i32 + i) % 8) as u8;
    if slot_is_empty(fpu, idx) {
        fpu.status_word = fpu.status_word & !FPU_C1;
        fpu_stack_fault(fpu);
        F80::indefinite_nan()
    } else {
        fpu_register(fpu, idx as usize)
    }
}

/// st(0), as `fpu_get_sti` reads it.
pub fn fpu_get_st0(fpu: &mut FpuState) -> (r: F80)
    requires
        old(fpu).wf(),
    ensures
        final(fpu).wf(),
        (final(fpu)@, r) == read_sti(old(fpu)@, 0),
{
    fpu_get_sti(fpu, 0)
}

/// Whether st(i) is empty.
pub fn fpu_sti_empty(fpu: &FpuState, i: i32) -> (r: bool)
    requires
        fpu.wf(),
        0 <= i < 8,
    ensures
        r == fpu@.is_empty(fpu@.phys(i as int)),
{
    let idx: u8 = ((fpu.stack_ptr as i32 + i) % 8) as u8;
    slot_is_empty(fpu, idx)
}

/// Pops the stack: st(0) becomes empty, with its tag word cleared, and the
/// stack pointer moves up.
pub fn fpu_pop(fpu: &mut FpuState)
    requires
        old(fpu).wf(),
    ensures
        final(fpu).wf(),
        final(fpu)@ == pop(old(fpu)@),
{
    let p = fpu.stack_ptr;
    fpu_clear_tag(fpu, p as i32);
    let mask = fpu.stack_empty | (1u8 << p);
    proof {
        lemma_mark_empty_wf(fpu@, p, mask);
    }
    fpu.stack_empty = mask;
    fpu.stack_ptr = (p + 1) % 8;
}

/// Marks st(r) empty, its tag word cleared; `r` is taken modulo 8.
pub fn fpu_ffree(fpu: &mut FpuState, r: i32)
    requires
        old(fpu).wf(),
    ensures
        final(fpu).wf(),
        final(fpu)@ == ffree(old(fpu)@, (r & 7) as int),
{
    let k = crate::bits::low_three_bits(r);
    let index: u8 = ((fpu.stack_ptr as i32 + k) % 8) as u8;
    fpu_clear_tag(fpu, index as i32);
    let mask = fpu.stack_empty | (1u8 << index);
    proof {
        lemma_mark_empty_wf(fpu@, index, mask);
    }
    fpu.stack_empty = mask;
}

/// Pushes `x`: the stack pointer moves down; an empty slot takes `x`, a full
/// one is a stack fault and takes the indefinite NaN. `site` names the
/// instruction.
pub fn fpu_push_at(fpu: &mut FpuState, x: F80, site: usize)
    requires
        old(fpu).wf(),
    ensures
        final(fpu).wf(),
        final(fpu)@ == push(old(fpu)@, x, site),
{
    let p: u8 = (fpu.stack_ptr + 7) % 8;
    fpu.stack_ptr = p;
    if slot_is_empty(fpu, p) {
        fpu.status_word = fpu.status_word & !FPU_C1;
        let mask = fpu.stack_empty & !(1u8 << p);
        proof {
            lemma_mark_full_wf(fpu@, p, mask);
        }
        fpu.stack_empty = mask;
        fpu_write_st_at(fpu, p as i32, x, site);
    } else {
        fpu.status_word = fpu.status_word | FPU_C1;
        fpu_stack_fault(fpu);
        fpu_write_st_at(fpu, p as i32, F80::indefinite_nan(), site);
    }
}

/// Pushes `x`, as `fpu_push_at` does, for an instruction without a site of
/// its own.
pub fn fpu_push(fpu: &mut FpuState, x: F80)
    requires
        old(fpu).wf(),
    ensures
        final(fpu).wf(),
        final(fpu)@ == push(old(fpu)@, x, X87_SITE_PUSH_OTHER),
{
    fpu_push_at(fpu, x, X87_SITE_PUSH_OTHER)
}

/// Pushes the double with these bits, tagged; a full slot is the fault
/// that `fpu_push_at` reports.
pub fn fpu_push_f64(fpu: &mut FpuState, bits: u64, site: usize)
    requires
        old(fpu).wf(),
    ensures
        final(fpu).wf(),
        final(fpu)@ == push_tagged(old(fpu)@, bits, site),
{
    let p: u8 = (fpu.stack_ptr + 7) % 8;
    fpu.stack_ptr = p;
    if slot_is_empty(fpu, p) {
        fpu.status_word = fpu.status_word & !FPU_C1;
        let mask = fpu.stack_empty & !(1u8 << p);
        proof {
            lemma_mark_full_wf(fpu@, p, mask);
        }
        fpu.stack_empty = mask;
        fpu_write_tagged(fpu, p as i32, bits);
    } else {
        fpu.status_word = fpu.status_word | FPU_C1;
        fpu_stack_fault(fpu);
        fpu_write_st_at(fpu, p as i32, F80::indefinite_nan(), site);
    }
}

/// Moves the stack pointer down one, with C1 clear.
pub fn fpu_fdecstp(fpu: &mut FpuState)
    requires
        old(fpu).wf(),
    ensures
        final(fpu).wf(),
        final(fpu)@ == move_top(old(fpu)@, 7),
{
    fpu.stack_ptr = (fpu.stack_ptr + 7) % 8;
    fpu.status_word = fpu.status_word & !FPU_C1;
}

/// Moves the stack pointer up one, with C1 clear.
pub fn fpu_fincstp(fpu: &mut FpuState)
    requires
        old(fpu).wf(),
    ensures
        final(fpu).wf(),
        final(fpu)@ == move_top(old(fpu)@, 1),
{
    fpu.stack_ptr = (fpu.stack_ptr + 1) % 8;
    fpu.status_word = fpu.status_word & !FPU_C1;
}

/// The status word as the program reads it: the stored word with the
/// stack pointer in its top field.
pub fn fpu_load_status_word(fpu: &FpuState) -> (r: u16)
    requires
        fpu.wf(),
    ensures
        r == status_word_of(fpu@),
{
    (fpu.status_word & !STATUS_TOP_MASK) | ((fpu.stack_ptr as u16) << 11u16)
}

/// Loads the status word: its top field becomes the stack pointer.
pub fn fpu_set_status_word(fpu: &mut FpuState, sw: u16)
    requires
        old(fpu).wf(),
    ensures
        final(fpu).wf(),
        final(fpu)@ == set_status_word_spec(old(fpu)@, sw),
{
    fpu.status_word = sw & !STATUS_TOP_MASK;
    fpu.stack_ptr = ((sw / 0x800) % 8) as u8;
}

/// Loads the control word, and with it the rounding mode and precision
/// that later arithmetic runs at.
pub fn set_control_word(fpu: &mut FpuState, cw: u16)
    requires
        old(fpu).wf(),
    ensures
        final(fpu).wf(),
        final(fpu)@ == set_control_word_spec(old(fpu)@, cw),
{
    fpu.control_word = cw;
    let rc = (cw / 0x400) % 4;
    fpu.rounding_mode = if rc == 0 {
        RoundingMode::NearEven
    } else if rc == 1 {
        RoundingMode::Floor
    } else if rc == 2 {
        RoundingMode::Ceil
    } else {
        RoundingMode::Trunc
    };
    let precision_control = (cw / 0x100) % 4;
    fpu.precision = if precision_control == 0 {
        Precision::P32
    } else if precision_control == 2 {
        Precision::P64
    } else {
        Precision::P80
    };
    fpu.precision_single = if precision_control == 0 { 1 } else { 0 };
}

/// Loads the control word from memory.
pub fn fpu_fldcw(fpu: &mut FpuState, word: u16)
    requires
        old(fpu).wf(),
    ensures
        final(fpu).wf(),
        final(fpu)@ == set_control_word_spec(old(fpu)@, word),
{
    set_control_word(fpu, word)
}

/// The control word, as `fstcw` stores it.
pub fn fpu_fstcw(fpu: &FpuState) -> (r: u16)
    ensures
        r == fpu.control_word,
{
    fpu.control_word
}

/// Resets the unit: default control word, clear status, every register
/// empty with its tag word cleared, the stack pointer at 0.
pub fn fpu_finit(fpu: &mut FpuState)
    requires
        old(fpu).wf(),
    ensures
        final(fpu).wf(),
        final(fpu)@ == finit(old(fpu)@),
{
    let ghost before = fpu@;
    for i in 0..8
        invariant
            fpu.wf(),
            before == old(fpu)@,
            fpu@ == (FpuModel { st: fpu@.st, ..before }),
            forall|j: int| 0 <= j < i ==> #[trigger] fpu.st@[j] == cleared(before.st[j]),
            forall|j: int| i <= j < 8 ==> #[trigger] fpu.st@[j] == before.st[j],
    {
        fpu_clear_tag(fpu, i);
    }
    assert(fpu.st@ == clear_all_tags(before.st));
    set_control_word(fpu, 0x37F);
    fpu.status_word = 0;
    fpu.ip = 0;
    fpu.dp = 0;
    fpu.opcode = 0;
    proof {
        assert forall|j: int| 0 <= j < 8 implies #[trigger] empty_bit(0xFFu8, j) by {
            crate::bits::lemma_mask_full_empty(j as u8);
        }
    }
    fpu.stack_empty = 0xFF;
    fpu.stack_ptr = 0;
}

impl FpuState {
    /// A unit in its reset state, with the two switches given.
    pub fn new(tag_exact_writes: bool, inline_doubles: bool) -> (r: FpuState)
        ensures
            r.wf(),
            r.control_word == 0x37F,
            r.status_word == 0,
            r.stack_empty == 0xFF,
            r.stack_ptr == 0,
            forall|i: int| 0 <= i < 8 ==> #[trigger] r.st@[i] == (F80 { mantissa: 0, sign_exponent: 0 }),
            forall|i: int| 0 <= i < 8 ==> !#[trigger] r.literal@[i],
            r.ip == 0 && r.ip_selector == 0 && r.dp == 0 && r.dp_selector == 0 && r.opcode == 0,
            r.rounding_mode == RoundingMode::NearEven,
            r.precision == Precision::P80,
            r.precision_single == 0,
            r.tag_exact_writes == tag_exact_writes,
            r.inline_doubles == inline_doubles,
            r.sites@ == Seq::<usize>::empty(),
    {
        let mut st: Vec<F80> = Vec::new();
        let mut literal: Vec<bool> = Vec::new();
        for i in 0..8
            invariant
                st.len() == i,
                literal.len() == i,
                forall|j: int| 0 <= j < i ==> #[trigger] st@[j] == (F80 { mantissa: 0, sign_exponent: 0 }),
                forall|j: int| 0 <= j < i ==> !#[trigger] literal@[j],
        {
            st.push(F80::zero());
            literal.push(false);
        }
        let mut fpu = FpuState {
            st,
            literal,
            stack_ptr: 0,
            stack_empty: 0xFF,
            status_word: 0,
            control_word: 0x37F,
            ip: 0,
            ip_selector: 0,
            dp: 0,
            dp_selector: 0,
            opcode: 0,
            precision_single: 0,
            rounding_mode: RoundingMode::NearEven,
            precision: Precision::P80,
            tag_exact_writes,
            inline_doubles,
            sites: Vec::new(),
        };
        proof {
            assert forall|j: int| 0 <= j < 8 && #[trigger] empty_bit(fpu@.stack_empty, j) implies fpu@.st[j].sign_exponent != FPU_RELAXED_TAG by {}
        }
        fpu_finit(&mut fpu);
        fpu
    }

    /// Whether the state is well formed, tested at run time.
    pub fn is_well_formed(&self) -> (r: bool)
        ensures
            r == self.wf(),
    {
        if self.st.len() != 8 || self.literal.len() != 8 || self.stack_ptr >= 8 {
            return false;
        }
        let cw = self.control_word;
        let rc = (cw / 0x400) % 4;
        let pc = (cw / 0x100) % 4;
        let rounding = if rc == 0 {
            RoundingMode::NearEven
        } else if rc == 1 {
            RoundingMode::Floor
        } else if rc == 2 {
            RoundingMode::Ceil
        } else {
            RoundingMode::Trunc
        };
        let precision = if pc == 0 {
            Precision::P32
        } else if pc == 2 {
            Precision::P64
        } else {
            Precision::P80
        };
        let single: u8 = if pc == 0 { 1 } else { 0 };
        if !same_rounding(self.rounding_mode, rounding) || !same_precision(self.precision, precision)
            || self.precision_single != single {
            return false;
        }
        for i in 0..8
            invariant
                self.st.len() == 8,
                self.literal.len() == 8,
                forall|j: int| 0 <= j < i && #[trigger] empty_bit(self@.stack_empty, j) ==> self@.st[j].sign_exponent != FPU_RELAXED_TAG,
        {
            if slot_is_empty(self, i as u8) && self.st[i].sign_exponent == FPU_RELAXED_TAG {
                return false;
            }
        }
        true
    }
}

fn same_rounding(a: RoundingMode, b: RoundingMode) -> (r: bool)
    ensures
        r == (a == b),
{
    match (a, b) {
        (RoundingMode::NearEven, RoundingMode::NearEven) => true,
        (RoundingMode::Floor, RoundingMode::Floor) => true,
        (RoundingMode::Ceil, RoundingMode::Ceil) => true,
        (RoundingMode::Trunc, RoundingMode::Trunc) => true,
        _ => false,
    }
}

fn same_precision(a: Precision, b: Precision) -> (r: bool)
    ensures
        r == (a == b),
{
    match (a, b) {
        (Precision::P32, Precision::P32) => true,
        (Precision::P64, Precision::P64) => true,
        (Precision::P80, Precision::P80) => true,
        _ => false,
    }
}

} // verus!
