//! Little-endian field access over byte buffers.
//!
//! Captured images are raw byte buffers; every header field the repair logic
//! touches is a little-endian integer at a known offset. These readers and
//! writers are the only way the crate touches such fields, and their
//! contracts tie the executable access to the spec-level field value.

use vstd::prelude::*;

verus! {

/// The value of the two little-endian bytes at `off`.
pub open spec fn u16_le(s: Seq<u8>, off: int) -> int {
    s[off] + 0x100 * s[off + 1]
}

/// The value of the four little-endian bytes at `off`.
pub open spec fn u32_le(s: Seq<u8>, off: int) -> int {
    s[off] + 0x100 * s[off + 1] + 0x1_0000 * s[off + 2] + 0x100_0000 * s[off + 3]
}

/// The value of the eight little-endian bytes at `off`.
pub open spec fn u64_le(s: Seq<u8>, off: int) -> int {
    s[off] + 0x100 * s[off + 1] + 0x1_0000 * s[off + 2] + 0x100_0000 * s[off + 3]
        + 0x1_0000_0000 * s[off + 4] + 0x100_0000_0000 * s[off + 5]
        + 0x1_0000_0000_0000 * s[off + 6] + 0x100_0000_0000_0000 * s[off + 7]
}

pub fn le_u16_at(data: &Vec<u8>, off: usize) -> (r: u16)
    requires
        off + 2 <= data.len(),
    ensures
        r == u16_le(data@, off as int),
{
    data[off] as u16 + data[off + 1] as u16 * 0x100
}

pub fn le_u32_at(data: &Vec<u8>, off: usize) -> (r: u32)
    requires
        off + 4 <= data.len(),
    ensures
        r == u32_le(data@, off as int),
{
    data[off] as u32 + data[off + 1] as u32 * 0x100 + data[off + 2] as u32 * 0x1_0000
        + data[off + 3] as u32 * 0x100_0000
}

pub fn le_u64_at(data: &Vec<u8>, off: usize) -> (r: u64)
    requires
        off + 8 <= data.len(),
    ensures
        r == u64_le(data@, off as int),
{
    data[off] as u64 + data[off + 1] as u64 * 0x100 + data[off + 2] as u64 * 0x1_0000
        + data[off + 3] as u64 * 0x100_0000 + data[off + 4] as u64 * 0x1_0000_0000
        + data[off + 5] as u64 * 0x100_0000_0000 + data[off + 6] as u64 * 0x1_0000_0000_0000
        + data[off + 7] as u64 * 0x100_0000_0000_0000
}

/// Writes `v` as four little-endian bytes at `off`; no other byte changes.
pub fn put_u32_le(data: &mut Vec<u8>, off: usize, v: u32)
    requires
        off + 4 <= old(data).len(),
    ensures
        final(data)@.len() == old(data)@.len(),
        u32_le(final(data)@, off as int) == v,
        forall|i: int| 0 <= i < final(data)@.len() && !(off <= i < off + 4) ==> final(data)@[i] == old(data)@[i],
{
    let b0: u8 = (v % 0x100) as u8;
    let b1: u8 = ((v / 0x100) % 0x100) as u8;
    let b2: u8 = ((v / 0x1_0000) % 0x100) as u8;
    let b3: u8 = ((v / 0x100_0000) % 0x100) as u8;
    data.set(off, b0);
    data.set(off + 1, b1);
    data.set(off + 2, b2);
    data.set(off + 3, b3);
    proof {
        assert(v == b0 + 0x100 * b1 + 0x1_0000 * b2 + 0x100_0000 * b3) by (nonlinear_arith)
            requires
                b0 == v % 0x100,
                b1 == (v / 0x100) % 0x100,
                b2 == (v / 0x1_0000) % 0x100,
                b3 == (v / 0x100_0000) % 0x100,
                v <= 0xffff_ffff,
        ;
    }
}

/// Writes `v` as eight little-endian bytes at `off`; no other byte changes.
pub fn put_u64_le(data: &mut Vec<u8>, off: usize, v: u64)
    requires
        off + 8 <= old(data).len(),
    ensures
        final(data)@.len() == old(data)@.len(),
        u64_le(final(data)@, off as int) == v,
        forall|i: int| 0 <= i < final(data)@.len() && !(off <= i < off + 8) ==> final(data)@[i] == old(data)@[i],
{
    let b0: u8 = (v % 0x100) as u8;
    let b1: u8 = ((v / 0x100) % 0x100) as u8;
    let b2: u8 = ((v / 0x1_0000) % 0x100) as u8;
    let b3: u8 = ((v / 0x100_0000) % 0x100) as u8;
    let b4: u8 = ((v / 0x1_0000_0000) % 0x100) as u8;
    let b5: u8 = ((v / 0x100_0000_0000) % 0x100) as u8;
    let b6: u8 = ((v / 0x1_0000_0000_0000) % 0x100) as u8;
    let b7: u8 = ((v / 0x100_0000_0000_0000) % 0x100) as u8;
    data.set(off, b0);
    data.set(off + 1, b1);
    data.set(off + 2, b2);
    data.set(off + 3, b3);
    data.set(off + 4, b4);
    data.set(off + 5, b5);
    data.set(off + 6, b6);
    data.set(off + 7, b7);
    proof {
        let vi = v as int;
        let q1: int = vi / 0x100;
        let q2: int = vi / 0x1_0000;
        let q3: int = vi / 0x100_0000;
        let q4: int = vi / 0x1_0000_0000;
        let q5: int = vi / 0x100_0000_0000;
        let q6: int = vi / 0x1_0000_0000_0000;
        let q7: int = vi / 0x100_0000_0000_0000;
        vstd::arithmetic::div_mod::lemma_div_denominator(vi, 0x100, 0x100);
        vstd::arithmetic::div_mod::lemma_div_denominator(vi, 0x1_0000, 0x100);
        vstd::arithmetic::div_mod::lemma_div_denominator(vi, 0x100_0000, 0x100);
        vstd::arithmetic::div_mod::lemma_div_denominator(vi, 0x1_0000_0000, 0x100);
        vstd::arithmetic::div_mod::lemma_div_denominator(vi, 0x100_0000_0000, 0x100);
        vstd::arithmetic::div_mod::lemma_div_denominator(vi, 0x1_0000_0000_0000, 0x100);
        vstd::arithmetic::div_mod::lemma_fundamental_div_mod(vi, 0x100);
        vstd::arithmetic::div_mod::lemma_fundamental_div_mod(q1, 0x100);
        vstd::arithmetic::div_mod::lemma_fundamental_div_mod(q2, 0x100);
        vstd::arithmetic::div_mod::lemma_fundamental_div_mod(q3, 0x100);
        vstd::arithmetic::div_mod::lemma_fundamental_div_mod(q4, 0x100);
        vstd::arithmetic::div_mod::lemma_fundamental_div_mod(q5, 0x100);
        vstd::arithmetic::div_mod::lemma_fundamental_div_mod(q6, 0x100);
        vstd::arithmetic::div_mod::lemma_div_is_ordered(
            vi,
            0xffff_ffff_ffff_ffff,
            0x100_0000_0000_0000,
        );
        assert(q7 == b7);
        assert(v == b0 + 0x100 * b1 + 0x1_0000 * b2 + 0x100_0000 * b3 + 0x1_0000_0000 * b4
            + 0x100_0000_0000 * b5 + 0x1_0000_0000_0000 * b6 + 0x100_0000_0000_0000 * b7);
    }
}

} // verus!
