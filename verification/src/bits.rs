//! Facts about the bit masks that the status, tag and emptiness words use.
use vstd::prelude::*;

verus! {

/// Whether bit `i` of the emptiness mask is set.
pub open spec fn empty_bit(mask: u8, i: int) -> bool {
    (mask >> (i as u8)) & 1u8 == 1u8
}

/// Setting bit `i` sets that bit and leaves every other.
pub proof fn lemma_mask_set(m: u8, i: u8, j: u8)
    requires
        i < 8,
        j < 8,
    ensures
        ((m | (1u8 << i)) >> j) & 1u8 == (if i == j { 1u8 } else { (m >> j) & 1u8 }),
{
    assert(((m | (1u8 << i)) >> j) & 1u8 == (if i == j { 1u8 } else { (m >> j) & 1u8 })) by (bit_vector)
        requires
            i < 8,
            j < 8,
    ;
}

/// Clearing bit `i` clears that bit and leaves every other.
pub proof fn lemma_mask_clear(m: u8, i: u8, j: u8)
    requires
        i < 8,
        j < 8,
    ensures
        ((m & !(1u8 << i)) >> j) & 1u8 == (if i == j { 0u8 } else { (m >> j) & 1u8 }),
{
    assert(((m & !(1u8 << i)) >> j) & 1u8 == (if i == j { 0u8 } else { (m >> j) & 1u8 })) by (bit_vector)
        requires
            i < 8,
            j < 8,
    ;
}

/// A bit of a mask is 0 or 1.
pub proof fn lemma_bit_is_01(m: u8, j: u8)
    ensures
        (m >> j) & 1u8 == 0u8 || (m >> j) & 1u8 == 1u8,
{
    assert((m >> j) & 1u8 == 0u8 || (m >> j) & 1u8 == 1u8) by (bit_vector);
}

/// Bits of the all-ones and the all-zeros masks.
pub proof fn lemma_mask_full_empty(j: u8)
    requires
        j < 8,
    ensures
        (0xFFu8 >> j) & 1u8 == 1u8,
        (0u8 >> j) & 1u8 == 0u8,
{
    assert((0xFFu8 >> j) & 1u8 == 1u8 && (0u8 >> j) & 1u8 == 0u8) by (bit_vector)
        requires
            j < 8,
    ;
}

/// Clearing a set bit and setting it again gives the mask back.
pub proof fn lemma_mask_clear_set(m: u8, i: u8)
    requires
        i < 8,
        (m >> i) & 1u8 == 1u8,
    ensures
        (m & !(1u8 << i)) | (1u8 << i) == m,
{
    assert((m & !(1u8 << i)) | (1u8 << i) == m) by (bit_vector)
        requires
            i < 8,
            (m >> i) & 1u8 == 1u8,
    ;
}

/// The status word's top field, taken out by division and put back by a
/// shift, gives the word back.
pub proof fn lemma_status_top_round_trip(sw: u16)
    ensures
        ((sw & !0x3800u16) & !0x3800u16) | ((((sw / 0x800) % 8) as u8 as u16) << 11u16) == sw,
{
    assert(((sw & !0x3800u16) & !0x3800u16) | ((((sw / 0x800) % 8) as u8 as u16) << 11u16) == sw) by (bit_vector);
}

/// Or-ing a two-bit field into the next free place of a word built from
/// lower fields: the new field reads back, the lower ones are kept, the
/// higher ones stay zero.
pub proof fn lemma_tag_field_insert(tw: i32, t: i32, k: u32, j: u32)
    requires
        k < 8,
        j < 8,
        0 <= t < 4,
        0 <= tw < (1i32 << (2 * k) as u32),
    ensures
        ((tw | (t << (2 * k) as u32)) >> (2 * j) as u32) & 3i32 == (if j == k {
            t
        } else if j < k {
            (tw >> (2 * j) as u32) & 3i32
        } else {
            0i32
        }),
        0 <= (tw | (t << (2 * k) as u32)) < (1i32 << (2 * k + 2) as u32),
{
    assert(((tw | (t << (2 * k) as u32)) >> (2 * j) as u32) & 3i32 == (if j == k {
        t
    } else if j < k {
        (tw >> (2 * j) as u32) & 3i32
    } else {
        0i32
    }) && 0 <= (tw | (t << (2 * k) as u32)) && (tw | (t << (2 * k) as u32)) < (1i32 << (2 * k + 2) as u32)) by (bit_vector)
        requires
            k < 8,
            j < 8,
            0 <= t < 4,
            0 <= tw < (1i32 << (2 * k) as u32),
    ;
}

/// A zero word has every field zero; one shifted to 0 or 16 places.
pub proof fn lemma_tag_word_small(j: u32)
    requires
        j < 8,
    ensures
        (0i32 >> (2 * j) as u32) & 3i32 == 0i32,
        (1i32 << 0u32) == 1i32,
        (1i32 << 16u32) == 0x10000i32,
{
    assert((0i32 >> (2 * j) as u32) & 3i32 == 0i32 && (1i32 << 0u32) == 1i32 && (1i32 << 16u32) == 0x10000i32) by (bit_vector)
        requires
            j < 8,
    ;
}

/// The stack-top field of a status word as it is read is the stack pointer
/// put there.
pub proof fn lemma_status_top_extract(sw: u16, p: u8)
    requires
        p < 8,
    ensures
        ((((sw & !0x3800u16) | ((p as u16) << 11u16)) / 0x800) % 8) as u8 == p,
{
    assert(((((sw & !0x3800u16) | ((p as u16) << 11u16)) / 0x800) % 8) as u8 == p) by (bit_vector)
        requires
            p < 8,
    ;
}

/// An `i32` taken as its 32 bits and back is itself.
pub proof fn lemma_i32_bits_round_trip(x: i32)
    ensures
        (x as u32) as i32 == x,
{
    assert((x as u32) as i32 == x) by (bit_vector);
}

/// Setting the high half of a word leaves the low half.
pub proof fn lemma_high_half_or(y: u32)
    requires
        y < 0x10000,
    ensures
        (0xFFFF_0000u32 | y) % 0x10000 == y,
{
    assert((0xFFFF_0000u32 | y) % 0x10000 == y) by (bit_vector)
        requires
            y < 0x10000,
    ;
}

/// Reading the status word and loading it back keeps all but its top
/// field.
pub proof fn lemma_status_low_keep(sw: u16, p: u8)
    requires
        p < 8,
    ensures
        ((sw & !0x3800u16) | ((p as u16) << 11u16)) & !0x3800u16 == sw & !0x3800u16,
{
    assert(((sw & !0x3800u16) | ((p as u16) << 11u16)) & !0x3800u16 == sw & !0x3800u16) by (bit_vector)
        requires
            p < 8,
    ;
}

/// The low three bits of a register number, as instructions mask it.
pub fn low_three_bits(r: i32) -> (k: i32)
    ensures
        k == r & 7,
        0 <= k < 8,
{
    let k = r & 7;
    assert(0 <= k < 8) by (bit_vector)
        requires
            k == r & 7,
    ;
    k
}

} // verus!
