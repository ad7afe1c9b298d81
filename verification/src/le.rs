//! Little-endian byte images of 16-, 32- and 64-bit words.
use vstd::prelude::*;

verus! {

/// The two bytes of `x`, low first.
#[verifier::opaque]
pub open spec fn le16(x: int) -> Seq<u8> {
    seq![(x % 0x100) as u8, ((x / 0x100) % 0x100) as u8]
}

/// The four bytes of `x`, low first.
#[verifier::opaque]
pub open spec fn le32(x: int) -> Seq<u8> {
    le16(x % 0x10000) + le16(x / 0x10000)
}

/// The eight bytes of `x`, low first.
#[verifier::opaque]
pub open spec fn le64(x: int) -> Seq<u8> {
    le32(x % 0x1_0000_0000) + le32(x / 0x1_0000_0000)
}

/// The 16-bit word whose bytes start at `off`.
pub open spec fn rd16(s: Seq<u8>, off: int) -> int {
    s[off] + 0x100 * s[off + 1]
}

/// The 32-bit word whose bytes start at `off`.
pub open spec fn rd32(s: Seq<u8>, off: int) -> int {
    rd16(s, off) + 0x10000 * rd16(s, off + 2)
}

/// The 64-bit word whose bytes start at `off`.
pub open spec fn rd64(s: Seq<u8>, off: int) -> int {
    rd32(s, off) + 0x1_0000_0000 * rd32(s, off + 4)
}

/// The images have the lengths of their words.
pub proof fn lemma_le_len(x: int)
    ensures
        le16(x).len() == 2,
        le32(x).len() == 4,
        le64(x).len() == 8,
{
    reveal(le16);
    reveal(le32);
    reveal(le64);
}

/// Reading a 16-bit word back from its image, wherever the image stands.
pub proof fn lemma_rd16(pre: Seq<u8>, x: int, post: Seq<u8>)
    requires
        0 <= x,
    ensures
        rd16(pre + le16(x) + post, pre.len() as int) == x % 0x10000,
{
    reveal(le16);
    let n = pre.len() as int;
    let s = pre + le16(x) + post;
    assert(s[n] == (x % 0x100) as u8);
    assert(s[n + 1] == ((x / 0x100) % 0x100) as u8);
    vstd::arithmetic::div_mod::lemma_mod_breakdown(x, 0x100, 0x100);
}

/// Reading a 32-bit word back from its image, wherever the image stands.
pub proof fn lemma_rd32(pre: Seq<u8>, x: int, post: Seq<u8>)
    requires
        0 <= x,
    ensures
        rd32(pre + le32(x) + post, pre.len() as int) == x % 0x1_0000_0000,
{
    reveal(le32);
    let lo = x % 0x10000;
    let hi = x / 0x10000;
    lemma_le_len(lo);
    lemma_le_len(hi);
    let s = pre + le32(x) + post;
    assert(s =~= pre + le16(lo) + (le16(hi) + post));
    assert(s =~= (pre + le16(lo)) + le16(hi) + post);
    lemma_rd16(pre, lo, le16(hi) + post);
    lemma_rd16(pre + le16(lo), hi, post);
    vstd::arithmetic::div_mod::lemma_mod_breakdown(x, 0x10000, 0x10000);
}

/// Reading a 64-bit word back from its image, wherever the image stands.
pub proof fn lemma_rd64(pre: Seq<u8>, x: int, post: Seq<u8>)
    requires
        0 <= x,
    ensures
        rd64(pre + le64(x) + post, pre.len() as int) == x % 0x1_0000_0000_0000_0000,
{
    reveal(le64);
    let lo = x % 0x1_0000_0000;
    let hi = x / 0x1_0000_0000;
    lemma_le_len(lo);
    lemma_le_len(hi);
    let s = pre + le64(x) + post;
    assert(s =~= pre + le32(lo) + (le32(hi) + post));
    assert(s =~= (pre + le32(lo)) + le32(hi) + post);
    lemma_rd32(pre, lo, le32(hi) + post);
    lemma_rd32(pre + le32(lo), hi, post);
    vstd::arithmetic::div_mod::lemma_mod_breakdown(x, 0x1_0000_0000, 0x1_0000_0000);
}

/// Reading the low 16 bits of a 32-bit image, wherever it stands.
pub proof fn lemma_rd16_of_32(pre: Seq<u8>, x: int, post: Seq<u8>)
    requires
        0 <= x,
    ensures
        rd16(pre + le32(x) + post, pre.len() as int) == x % 0x10000,
{
    reveal(le32);
    let lo = x % 0x10000;
    let hi = x / 0x10000;
    lemma_le_len(lo);
    assert(pre + le32(x) + post =~= pre + le16(lo) + (le16(hi) + post));
    lemma_rd16(pre, lo, le16(hi) + post);
}

/// Appends the two bytes of `x`.
pub fn push_le16(out: &mut Vec<u8>, x: u16)
    ensures
        final(out)@ == old(out)@ + le16(x as int),
{
    out.push((x % 0x100) as u8);
    out.push(((x / 0x100) % 0x100) as u8);
    reveal(le16);
    assert(final(out)@ =~= old(out)@ + le16(x as int));
}

/// Appends the four bytes of `x`.
pub fn push_le32(out: &mut Vec<u8>, x: u32)
    ensures
        final(out)@ == old(out)@ + le32(x as int),
{
    push_le16(out, (x % 0x10000) as u16);
    push_le16(out, (x / 0x10000) as u16);
    reveal(le32);
    assert(final(out)@ =~= old(out)@ + le32(x as int));
}

/// Appends the eight bytes of `x`.
pub fn push_le64(out: &mut Vec<u8>, x: u64)
    ensures
        final(out)@ == old(out)@ + le64(x as int),
{
    push_le32(out, (x % 0x1_0000_0000) as u32);
    push_le32(out, (x / 0x1_0000_0000) as u32);
    reveal(le64);
    assert(final(out)@ =~= old(out)@ + le64(x as int));
}

/// The 16-bit word whose bytes start at `off`.
pub fn read_le16(s: &[u8], off: usize) -> (r: u16)
    requires
        off + 2 <= s@.len(),
    ensures
        r == rd16(s@, off as int),
{
    assert(s@.len() == s.len());
    s[off] as u16 + 0x100 * (s[off + 1] as u16)
}

/// The 32-bit word whose bytes start at `off`.
pub fn read_le32(s: &[u8], off: usize) -> (r: u32)
    requires
        off + 4 <= s@.len(),
    ensures
        r == rd32(s@, off as int),
{
    assert(s@.len() == s.len());
    read_le16(s, off) as u32 + 0x10000 * (read_le16(s, off + 2) as u32)
}

/// The 64-bit word whose bytes start at `off`.
pub fn read_le64(s: &[u8], off: usize) -> (r: u64)
    requires
        off + 8 <= s@.len(),
    ensures
        r == rd64(s@, off as int),
{
    assert(s@.len() == s.len());
    read_le32(s, off) as u64 + 0x1_0000_0000 * (read_le32(s, off + 4) as u64)
}

} // verus!
