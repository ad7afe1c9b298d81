//! The tag word: two bits per physical register, saying whether it is
//! valid, zero, special or empty.
use vstd::prelude::*;
use crate::f80::F80;
use crate::bits::{empty_bit, lemma_mask_set, lemma_tag_field_insert};
use crate::state::{FpuState, FpuModel, reg_value, cleared, fpu_register, fpu_clear_tag, lemma_mark_empty_wf};

verus! {

/// The two-bit field of register `i` in a tag word.
pub open spec fn tag_field(tw: i32, i: int) -> i32 {
    (tw >> ((2 * i) as u32)) & 3i32
}

/// The tag of physical register `i`: 3 empty, 1 zero, 2 an infinity or a
/// NaN, 0 any other value.
pub open spec fn slot_tag(m: FpuModel, i: int) -> i32 {
    if m.is_empty(i) {
        3
    } else if reg_value(m, i).spec_is_zero() {
        1
    } else if !reg_value(m, i).spec_is_finite() {
        2
    } else {
        0
    }
}

/// The tag word built from the tags of the first `n` registers.
pub open spec fn tag_word_upto(m: FpuModel, n: nat) -> i32
    decreases n,
{
    if n == 0 {
        0
    } else {
        tag_word_upto(m, (n - 1) as nat) | (slot_tag(m, n - 1) << ((2 * (n - 1)) as u32))
    }
}

/// The tag word of the state.
pub open spec fn tag_word_of(m: FpuModel) -> i32 {
    tag_word_upto(m, 8)
}

/// The emptiness mask that a tag word loads: bit i set where field i is 3,
/// over the first `n` registers.
pub open spec fn tag_mask_upto(tw: i32, n: nat) -> u8
    decreases n,
{
    if n == 0 {
        0
    } else if tag_field(tw, n - 1) == 3 {
        tag_mask_upto(tw, (n - 1) as nat) | (1u8 << ((n - 1) as u8))
    } else {
        tag_mask_upto(tw, (n - 1) as nat)
    }
}

/// Loading a tag word: a register whose field is 3 becomes empty with its
/// tag word cleared; every other becomes full.
pub open spec fn set_tag_word_spec(m: FpuModel, tw: i32) -> FpuModel {
    FpuModel {
        stack_empty: tag_mask_upto(tw, 8),
        st: Seq::new(8, |i: int| if tag_field(tw, i) == 3 { cleared(m.st[i]) } else { m.st[i] }),
        ..m
    }
}

/// Field `j` of the tag word built over `n` registers is register `j`'s tag
/// below `n` and zero above; the word fits in 2n bits.
pub proof fn lemma_tag_word_fields(m: FpuModel, n: nat)
    requires
        n <= 8,
    ensures
        0 <= tag_word_upto(m, n) < (1i32 << (2 * n) as u32),
        forall|j: int| 0 <= j < 8 ==> #[trigger] tag_field(tag_word_upto(m, n), j) == (if j < n { slot_tag(m, j) } else { 0 }),
    decreases n,
{
    if n == 0 {
        assert forall|j: int| 0 <= j < 8 implies #[trigger] tag_field(tag_word_upto(m, 0), j) == 0 by {
            crate::bits::lemma_tag_word_small(j as u32);
        }
        crate::bits::lemma_tag_word_small(0);
    } else {
        lemma_tag_word_fields(m, (n - 1) as nat);
        let k = (n - 1) as u32;
        let tw = tag_word_upto(m, (n - 1) as nat);
        let t = slot_tag(m, n - 1);
        assert(tag_word_upto(m, n) == tw | (t << (2 * k) as u32));
        assert forall|j: int| 0 <= j < 8 implies #[trigger] tag_field(tag_word_upto(m, n), j) == (if j < n { slot_tag(m, j) } else { 0 }) by {
            lemma_tag_field_insert(tw, t, k, j as u32);
            assert((2 * (j as u32)) as u32 == (2 * j) as u32);
            assert(tag_field(tw, j) == (tw >> (2 * (j as u32)) as u32) & 3i32);
        }
        lemma_tag_field_insert(tw, t, k, 0);
    }
}

/// Bit `j` of the mask built over `n` registers says whether field `j` is 3,
/// below `n`; it is clear above.
pub proof fn lemma_tag_mask_bits(tw: i32, n: nat)
    requires
        n <= 8,
    ensures
        forall|j: int| 0 <= j < 8 ==> #[trigger] empty_bit(tag_mask_upto(tw, n), j) == (j < n && tag_field(tw, j) == 3),
    decreases n,
{
    if n == 0 {
        assert forall|j: int| 0 <= j < 8 implies !#[trigger] empty_bit(tag_mask_upto(tw, 0), j) by {
            crate::bits::lemma_mask_full_empty(j as u8);
        }
    } else {
        lemma_tag_mask_bits(tw, (n - 1) as nat);
        let prev = tag_mask_upto(tw, (n - 1) as nat);
        assert forall|j: int| 0 <= j < 8 implies #[trigger] empty_bit(tag_mask_upto(tw, n), j) == (j < n && tag_field(tw, j) == 3) by {
            lemma_mask_set(prev, (n - 1) as u8, j as u8);
            assert(empty_bit(prev, j) == ((prev >> (j as u8)) & 1u8 == 1u8));
            if tag_field(tw, n - 1) == 3 {
                assert(tag_mask_upto(tw, n) == prev | (1u8 << ((n - 1) as u8)));
            } else {
                assert(tag_mask_upto(tw, n) == prev);
            }
        }
    }
}

/// The tag word: for each register, 3 when empty, 1 when zero, 2 when an
/// infinity or a NaN, 0 otherwise.
pub fn fpu_load_tag_word(fpu: &FpuState) -> (r: i32)
    requires
        fpu.wf(),
    ensures
        r == tag_word_of(fpu@),
        0 <= r < 0x10000,
        forall|i: int| 0 <= i < 8 ==> #[trigger] tag_field(r, i) == slot_tag(fpu@, i),
{
    let mut tag_word: i32 = 0;
    proof {
        crate::bits::lemma_tag_word_small(0);
    }
    for i in 0u32..8
        invariant
            fpu.wf(),
            tag_word == tag_word_upto(fpu@, i as nat),
            0 <= tag_word < (1i32 << (2 * i) as u32),
    {
        let value = fpu_register(fpu, i as usize);
        let t: i32 = if (fpu.stack_empty >> (i as u8)) & 1 == 1 {
            3
        } else if value.is_zero() {
            1
        } else if !value.is_finite() {
            2
        } else {
            0
        };
        proof {
            lemma_tag_word_fields(fpu@, i as nat);
            lemma_tag_field_insert(tag_word, t, i as u32, 0);
        }
        assert(tag_word_upto(fpu@, (i + 1) as nat) == tag_word | (t << (2 * i) as u32));
        tag_word = tag_word | (t << (2 * i));
    }
    proof {
        lemma_tag_word_fields(fpu@, 8);
        crate::bits::lemma_tag_word_small(0);
    }
    tag_word
}

/// Loads the tag word: a register whose field is 3 becomes empty, with its
/// tag word cleared; every other becomes full.
pub fn fpu_set_tag_word(fpu: &mut FpuState, tag_word: i32)
    requires
        old(fpu).wf(),
    ensures
        final(fpu).wf(),
        final(fpu)@ == set_tag_word_spec(old(fpu)@, tag_word),
{
    let ghost before = fpu@;
    proof {
        assert forall|j: int| 0 <= j < 8 implies !#[trigger] empty_bit(0u8, j) by {
            crate::bits::lemma_mask_full_empty(j as u8);
        }
    }
    fpu.stack_empty = 0;
    for i in 0..8
        invariant
            fpu.wf(),
            fpu@ == (FpuModel { st: fpu@.st, stack_empty: fpu@.stack_empty, ..before }),
            before.wf(),
            fpu.stack_empty == tag_mask_upto(tag_word, i as nat),
            forall|j: int| 0 <= j < i ==> #[trigger] fpu.st@[j] == (if tag_field(tag_word, j) == 3 {
                cleared(before.st[j])
            } else {
                before.st[j]
            }),
            forall|j: int| i <= j < 8 ==> #[trigger] fpu.st@[j] == before.st[j],
    {
        let empty = (tag_word >> ((2 * i) as u32)) & 3 == 3;
        if empty {
            fpu_clear_tag(fpu, i);
            let mask = fpu.stack_empty | (1u8 << (i as u8));
            proof {
                lemma_mark_empty_wf(fpu@, i as u8, mask);
            }
            fpu.stack_empty = mask;
        }
    }
    assert(fpu.st@ == Seq::new(8, |i: int| if tag_field(tag_word, i) == 3 { cleared(before.st[i]) } else { before.st[i] }));
}

} // verus!
