//! Image repair: making a raw memory capture self-consistent.
//!
//! A loaded module addresses its sections by virtual offset from its base,
//! while the on-disk file addresses them by file offset. A raw memory copy
//! therefore carries section location fields that describe the original file
//! layout, not the bytes actually captured. Repair rewrites those fields so
//! the dump parses as an image of the captured layout: in a PE image every
//! section's file offset and file size are set from its virtual offset and
//! virtual size and the declared load address is set to the captured base;
//! in an ELF image every section's address field is set from its offset
//! field (the observed direction for that format, deliberately not unified
//! with the PE direction). Dispatch is by the magic signature at the start
//! of the buffer, and every field access is bounds-checked first.

use vstd::prelude::*;

use crate::bytes::{le_u16_at, le_u32_at, le_u64_at, put_u32_le, put_u64_le, u16_le, u32_le, u64_le};
use crate::error::Error;

verus! {

pub const ELFMAG0: u8 = 0x7f;

pub const ELFMAG1: u8 = 0x45;

pub const ELFMAG2: u8 = 0x4c;

pub const ELFMAG3: u8 = 0x46;

/// Whether the buffer starts with the ELF magic signature.
pub open spec fn is_elf_image(s: Seq<u8>) -> bool {
    s.len() >= 4 && s[0] == 0x7f && s[1] == 0x45 && s[2] == 0x4c && s[3] == 0x46
}

/// Whether the buffer starts with the PE family's old-style header magic.
pub open spec fn is_pe_image(s: Seq<u8>) -> bool {
    s.len() >= 2 && s[0] == 0x4d && s[1] == 0x5a
}

// --- ELF layout -----------------------------------------------------------

/// Offset of the section-header table, from the file header.
pub open spec fn elf_shoff(s: Seq<u8>) -> int {
    u64_le(s, 40)
}

/// Number of section headers, from the file header.
pub open spec fn elf_shnum(s: Seq<u8>) -> int {
    u16_le(s, 60)
}

/// Offset of section header `i` inside the buffer.
pub open spec fn elf_section_off(s: Seq<u8>, i: int) -> int {
    elf_shoff(s) + 64 * i
}

/// The `address` field of section header `i`.
pub open spec fn elf_sh_addr(s: Seq<u8>, i: int) -> int {
    u64_le(s, elf_section_off(s, i) + 16)
}

/// The `offset` field of section header `i`.
pub open spec fn elf_sh_offset(s: Seq<u8>, i: int) -> int {
    u64_le(s, elf_section_off(s, i) + 24)
}

/// The conditions under which ELF repair succeeds: the file header fits, and
/// either no section table is declared or the whole declared table lies
/// inside the buffer. Only insufficient length fails.
pub open spec fn elf_repair_ok(s: Seq<u8>) -> bool {
    &&& s.len() >= 64
    &&& (elf_shoff(s) == 0 || elf_shoff(s) + 64 * elf_shnum(s) <= s.len())
}

/// Whether byte `j` lies in the `address` field of one of the first `upto`
/// section headers — the only bytes ELF repair writes.
pub open spec fn elf_written_upto(s: Seq<u8>, upto: int, j: int) -> bool {
    exists|k: int|
        0 <= k < upto && #[trigger] elf_section_off(s, k) + 16 <= j < elf_section_off(s, k) + 24
}

/// Whether byte `j` is written at all by ELF repair of `s`.
pub open spec fn elf_written(s: Seq<u8>, j: int) -> bool {
    elf_shoff(s) != 0 && elf_written_upto(s, elf_shnum(s), j)
}

/// Every section's `address` field equals its `offset` field.
pub open spec fn elf_sections_consistent(s: Seq<u8>) -> bool {
    forall|i: int| 0 <= i < elf_shnum(s) ==> elf_sh_addr(s, i) == elf_sh_offset(s, i)
}

/// How a repaired ELF buffer `s1` relates to its capture `s0`. With no
/// section table the buffer is unchanged. Otherwise each section's `address`
/// field — located by the captured geometry, which repair reads exactly once
/// — now holds the captured `offset` field, and nothing else changed. When
/// the captured table lies beyond the file header (every structurally valid
/// image), the header is untouched and the result is self-consistent; a
/// declared table overlapping the header is still repaired, but its writes
/// may alias the header's own geometry fields, so nothing more is claimed of
/// the result's header.
pub open spec fn elf_repaired(s0: Seq<u8>, s1: Seq<u8>) -> bool {
    &&& s1.len() == s0.len()
    &&& is_elf_image(s1)
    &&& if elf_shoff(s0) == 0 {
        s1 == s0
    } else {
        &&& forall|i: int|
            0 <= i < elf_shnum(s0) ==> u64_le(s1, elf_section_off(s0, i) + 16) == elf_sh_offset(
                s0,
                i,
            )
        &&& forall|j: int| 0 <= j < s0.len() && !elf_written(s0, j) ==> s1[j] == s0[j]
        &&& (elf_shoff(s0) >= 64 ==> {
            &&& elf_shoff(s1) == elf_shoff(s0)
            &&& elf_shnum(s1) == elf_shnum(s0)
            &&& elf_sections_consistent(s1)
        })
    }
}

// --- PE layout ------------------------------------------------------------

/// Offset of the new-style header, read from the old-style header.
pub open spec fn pe_nt_off(s: Seq<u8>) -> int {
    u32_le(s, 0x3c)
}

/// Number of section headers, from the file header.
pub open spec fn pe_num_sections(s: Seq<u8>) -> int {
    u16_le(s, pe_nt_off(s) + 6)
}

/// The build timestamp field of the file header, seconds since the epoch.
pub open spec fn pe_timestamp(s: Seq<u8>) -> int {
    u32_le(s, pe_nt_off(s) + 8)
}

/// Declared size of the optional header, from the file header.
pub open spec fn pe_opt_header_size(s: Seq<u8>) -> int {
    u16_le(s, pe_nt_off(s) + 20)
}

/// The declared load address field of the optional header.
pub open spec fn pe_image_base(s: Seq<u8>) -> int {
    u64_le(s, pe_nt_off(s) + 48)
}

/// Offset of the section-header table inside the buffer.
pub open spec fn pe_section_table_off(s: Seq<u8>) -> int {
    pe_nt_off(s) + 24 + pe_opt_header_size(s)
}

/// Offset of section header `i` inside the buffer.
pub open spec fn pe_section_off(s: Seq<u8>, i: int) -> int {
    pe_section_table_off(s) + 40 * i
}

/// The virtual-size field of section header `i`.
pub open spec fn pe_section_virtual_size(s: Seq<u8>, i: int) -> int {
    u32_le(s, pe_section_off(s, i) + 8)
}

/// The virtual-offset field of section header `i`.
pub open spec fn pe_section_virtual_address(s: Seq<u8>, i: int) -> int {
    u32_le(s, pe_section_off(s, i) + 12)
}

/// The file-size field of section header `i`.
pub open spec fn pe_section_raw_size(s: Seq<u8>, i: int) -> int {
    u32_le(s, pe_section_off(s, i) + 16)
}

/// The file-offset field of section header `i`.
pub open spec fn pe_section_raw_ptr(s: Seq<u8>, i: int) -> int {
    u32_le(s, pe_section_off(s, i) + 20)
}

/// The conditions under which PE repair succeeds: the old-style header fits,
/// the new-style header fits up to the end of its load-address field, and
/// the whole declared section table lies inside the buffer. Only
/// insufficient length fails.
pub open spec fn pe_repair_ok(s: Seq<u8>) -> bool {
    &&& s.len() >= 0x40
    &&& pe_nt_off(s) + 56 <= s.len()
    &&& pe_section_table_off(s) + 40 * pe_num_sections(s) <= s.len()
}

/// Whether byte `j` lies in the file-offset or file-size field of one of the
/// first `upto` section headers.
pub open spec fn pe_sections_written_upto(s: Seq<u8>, upto: int, j: int) -> bool {
    exists|k: int|
        0 <= k < upto && #[trigger] pe_section_off(s, k) + 16 <= j < pe_section_off(s, k) + 24
}

/// Whether byte `j` is written at all by PE repair of `s`: the load-address
/// field, or a section's file-offset or file-size field.
pub open spec fn pe_written(s: Seq<u8>, j: int) -> bool {
    ||| pe_nt_off(s) + 48 <= j < pe_nt_off(s) + 56
    ||| pe_sections_written_upto(s, pe_num_sections(s), j)
}

/// Every section's file-offset field equals its virtual-offset field and its
/// file-size field equals its virtual-size field.
pub open spec fn pe_sections_consistent(s: Seq<u8>) -> bool {
    forall|i: int|
        0 <= i < pe_num_sections(s) ==> {
            &&& pe_section_raw_ptr(s, i) == pe_section_virtual_address(s, i)
            &&& pe_section_raw_size(s, i) == pe_section_virtual_size(s, i)
        }
}

/// How a repaired PE buffer `s1` relates to its capture `s0` and the base
/// address `base` at which the bytes were resident. Repair reads the
/// geometry exactly once and writes only the load-address field and the
/// sections' file fields, all located by the captured geometry; no other
/// byte changes. When the new-style header lies beyond the old-style header
/// and the optional header reaches past the load-address field (every
/// structurally valid image), the headers' geometry is untouched, the load
/// address now reads `base`, each section's file fields hold its captured
/// virtual fields, and the result is self-consistent; with degenerate
/// geometry the writes may alias the very fields they are computed from, so
/// nothing more is claimed.
pub open spec fn pe_repaired(s0: Seq<u8>, s1: Seq<u8>, base: int) -> bool {
    &&& s1.len() == s0.len()
    &&& is_pe_image(s1)
    &&& forall|j: int| 0 <= j < s0.len() && !pe_written(s0, j) ==> s1[j] == s0[j]
    &&& (pe_nt_off(s0) >= 0x40 && pe_opt_header_size(s0) >= 32 ==> {
        &&& pe_nt_off(s1) == pe_nt_off(s0)
        &&& pe_num_sections(s1) == pe_num_sections(s0)
        &&& pe_opt_header_size(s1) == pe_opt_header_size(s0)
        &&& pe_image_base(s1) == base
        &&& forall|i: int|
            0 <= i < pe_num_sections(s0) ==> {
                &&& pe_section_raw_ptr(s1, i) == pe_section_virtual_address(s0, i)
                &&& pe_section_raw_size(s1, i) == pe_section_virtual_size(s0, i)
                &&& pe_section_virtual_address(s1, i) == pe_section_virtual_address(s0, i)
                &&& pe_section_virtual_size(s1, i) == pe_section_virtual_size(s0, i)
            }
        &&& pe_sections_consistent(s1)
    })
}

/// Which repair, if any, applies to a captured buffer: the one selected by
/// the magic signature at its start, provided that format's bounds checks
/// pass.
pub open spec fn repair_applies(s: Seq<u8>) -> bool {
    if is_elf_image(s) {
        elf_repair_ok(s)
    } else if is_pe_image(s) {
        pe_repair_ok(s)
    } else {
        false
    }
}

// --- unchanged-range helpers ----------------------------------------------

proof fn lemma_u16_unchanged(s0: Seq<u8>, s1: Seq<u8>, off: int)
    requires
        s1.len() == s0.len(),
        0 <= off,
        off + 2 <= s0.len(),
        forall|t: int| off <= t < off + 2 ==> s1[t] == s0[t],
    ensures
        u16_le(s1, off) == u16_le(s0, off),
{
}

proof fn lemma_u32_unchanged(s0: Seq<u8>, s1: Seq<u8>, off: int)
    requires
        s1.len() == s0.len(),
        0 <= off,
        off + 4 <= s0.len(),
        forall|t: int| off <= t < off + 4 ==> s1[t] == s0[t],
    ensures
        u32_le(s1, off) == u32_le(s0, off),
{
}

proof fn lemma_u64_unchanged(s0: Seq<u8>, s1: Seq<u8>, off: int)
    requires
        s1.len() == s0.len(),
        0 <= off,
        off + 8 <= s0.len(),
        forall|t: int| off <= t < off + 8 ==> s1[t] == s0[t],
    ensures
        u64_le(s1, off) == u64_le(s0, off),
{
}

// --- ELF header views ------------------------------------------------------

/// The ELF file header, decoded from the start of a captured buffer.
#[allow(non_camel_case_types)]
#[derive(Clone, Copy, Debug)]
pub struct Elf64_Ehdr {
    pub e_type: u16,
    pub e_machine: u16,
    pub e_version: u32,
    pub e_entry: u64,
    pub e_phoff: u64,
    pub e_shoff: u64,
    pub e_flags: u32,
    pub e_ehsize: u16,
    pub e_phentsize: u16,
    pub e_phnum: u16,
    pub e_shentsize: u16,
    pub e_shnum: u16,
    pub e_shstrndx: u16,
}

impl Elf64_Ehdr {
    /// Decodes the file header fields that follow the 16 identification
    /// bytes at the start of the buffer.
    pub fn parse(data: &Vec<u8>) -> (r: Self)
        requires
            data@.len() >= 64,
        ensures
            r.e_type == u16_le(data@, 16),
            r.e_machine == u16_le(data@, 18),
            r.e_version == u32_le(data@, 20),
            r.e_entry == u64_le(data@, 24),
            r.e_phoff == u64_le(data@, 32),
            r.e_shoff == elf_shoff(data@),
            r.e_flags == u32_le(data@, 48),
            r.e_ehsize == u16_le(data@, 52),
            r.e_phentsize == u16_le(data@, 54),
            r.e_phnum == u16_le(data@, 56),
            r.e_shentsize == u16_le(data@, 58),
            r.e_shnum == elf_shnum(data@),
            r.e_shstrndx == u16_le(data@, 62),
    {
        Elf64_Ehdr {
            e_type: le_u16_at(data, 16),
            e_machine: le_u16_at(data, 18),
            e_version: le_u32_at(data, 20),
            e_entry: le_u64_at(data, 24),
            e_phoff: le_u64_at(data, 32),
            e_shoff: le_u64_at(data, 40),
            e_flags: le_u32_at(data, 48),
            e_ehsize: le_u16_at(data, 52),
            e_phentsize: le_u16_at(data, 54),
            e_phnum: le_u16_at(data, 56),
            e_shentsize: le_u16_at(data, 58),
            e_shnum: le_u16_at(data, 60),
            e_shstrndx: le_u16_at(data, 62),
        }
    }
}

/// One ELF section header, decoded from a captured buffer.
#[allow(non_camel_case_types)]
#[derive(Clone, Copy, Debug)]
pub struct Elf64_Shdr {
    pub sh_name: u32,
    pub sh_type: u32,
    pub sh_flags: u64,
    pub sh_addr: u64,
    pub sh_offset: u64,
    pub sh_size: u64,
    pub sh_link: u32,
    pub sh_info: u32,
    pub sh_addralign: u64,
    pub sh_entsize: u64,
}

impl Elf64_Shdr {
    /// Decodes the section header that starts at byte `off`.
    pub fn parse(data: &Vec<u8>, off: usize) -> (r: Self)
        requires
            off + 64 <= data.len(),
        ensures
            r.sh_name == u32_le(data@, off as int),
            r.sh_type == u32_le(data@, off + 4),
            r.sh_flags == u64_le(data@, off + 8),
            r.sh_addr == u64_le(data@, off + 16),
            r.sh_offset == u64_le(data@, off + 24),
            r.sh_size == u64_le(data@, off + 32),
            r.sh_link == u32_le(data@, off + 40),
            r.sh_info == u32_le(data@, off + 44),
            r.sh_addralign == u64_le(data@, off + 48),
            r.sh_entsize == u64_le(data@, off + 56),
    {
        Elf64_Shdr {
            sh_name: le_u32_at(data, off),
            sh_type: le_u32_at(data, off + 4),
            sh_flags: le_u64_at(data, off + 8),
            sh_addr: le_u64_at(data, off + 16),
            sh_offset: le_u64_at(data, off + 24),
            sh_size: le_u64_at(data, off + 32),
            sh_link: le_u32_at(data, off + 40),
            sh_info: le_u32_at(data, off + 44),
            sh_addralign: le_u64_at(data, off + 48),
            sh_entsize: le_u64_at(data, off + 56),
        }
    }
}

// --- repair ----------------------------------------------------------------

/// Repairs a captured image in place so its section location fields describe
/// the captured (memory) layout. The format is chosen by the magic signature
/// at the start of the buffer; a buffer carrying neither signature, or one
/// whose declared headers do not fit inside it, is refused as `InvalidImage`
/// and left untouched. `allocation_base` is the address at which the bytes
/// were resident; only the PE path records it.
pub fn fix_image(allocation_base: usize, data: &mut Vec<u8>) -> (r: Result<(), Error>)
    ensures
        final(data)@.len() == old(data)@.len(),
        r is Ok <==> repair_applies(old(data)@),
        r is Err ==> r == Err::<(), Error>(Error::InvalidImage) && final(data)@ == old(data)@,
        r is Ok && is_elf_image(old(data)@) ==> elf_repaired(old(data)@, final(data)@),
        r is Ok && !is_elf_image(old(data)@) ==> pe_repaired(
            old(data)@,
            final(data)@,
            allocation_base as int,
        ),
{
    if data.len() >= 4 && data[0] == ELFMAG0 && data[1] == ELFMAG1 && data[2] == ELFMAG2
        && data[3] == ELFMAG3 {
        fix_image_elf(data)
    } else if data.len() >= 2 && data[0] == 0x4d && data[1] == 0x5a {
        fix_image_pe(allocation_base, data)
    } else {
        Err(Error::InvalidImage)
    }
}

fn fix_image_elf(data: &mut Vec<u8>) -> (r: Result<(), Error>)
    requires
        is_elf_image(old(data)@),
    ensures
        final(data)@.len() == old(data)@.len(),
        r is Ok <==> elf_repair_ok(old(data)@),
        r is Err ==> r == Err::<(), Error>(Error::InvalidImage) && final(data)@ == old(data)@,
        r is Ok ==> elf_repaired(old(data)@, final(data)@),
{
    let n = data.len();
    if n < 64 {
        return Err(Error::InvalidImage);
    }
    let ehdr = Elf64_Ehdr::parse(data);
    if ehdr.e_shoff == 0 {
        return Ok(());
    }
    if ehdr.e_shoff > n as u64 {
        return Err(Error::InvalidImage);
    }
    if (ehdr.e_shnum as u64) * 64 > n as u64 - ehdr.e_shoff {
        return Err(Error::InvalidImage);
    }
    let shoff = ehdr.e_shoff as usize;
    let shnum = ehdr.e_shnum as usize;
    let ghost s0 = old(data)@;
    let mut i: usize = 0;
    while i < shnum
        invariant
            data@.len() == s0.len(),
            n == s0.len(),
            i <= shnum,
            shoff as int == elf_shoff(s0),
            shnum as int == elf_shnum(s0),
            1 <= shoff,
            shoff + 64 * shnum <= n,
            forall|j: int|
                0 <= j < s0.len() && !elf_written_upto(s0, i as int, j) ==> data@[j] == s0[j],
            forall|k: int|
                0 <= k < i ==> u64_le(data@, elf_section_off(s0, k) + 16) == elf_sh_offset(s0, k),
        decreases shnum - i,
    {
        let off = shoff + 64 * i;
        proof {
            assert(off + 64 <= n) by {
                assert(64 * (i as int) + 64 <= 64 * (shnum as int));
            }
            // The offset field this iteration reads was not written yet.
            assert forall|t: int| off + 24 <= t < off + 32 implies data@[t] == s0[t] by {
                assert(!elf_written_upto(s0, i as int, t)) by {
                    assert forall|k: int| 0 <= k < i implies !(#[trigger] elf_section_off(s0, k) + 16 <= t
                        < elf_section_off(s0, k) + 24) by {
                        assert(64 * k + 24 <= 64 * (i as int) - 40);
                    }
                }
            }
            lemma_u64_unchanged(s0, data@, off + 24);
        }
        let shdr = Elf64_Shdr::parse(data, off);
        let ghost before = data@;
        put_u64_le(data, off + 16, shdr.sh_offset);
        proof {
            assert forall|j: int|
                0 <= j < s0.len() && !elf_written_upto(s0, i + 1, j) implies data@[j] == s0[j] by {
                assert(!(elf_section_off(s0, i as int) + 16 <= j < elf_section_off(s0, i as int)
                    + 24));
                assert(!elf_written_upto(s0, i as int, j)) by {
                    assert forall|k: int| 0 <= k < i implies !(#[trigger] elf_section_off(s0, k) + 16 <= j
                        < elf_section_off(s0, k) + 24) by {
                        assert(elf_written_upto(s0, i + 1, j) || !(#[trigger] elf_section_off(s0, k) + 16 <= j
                            < elf_section_off(s0, k) + 24));
                    }
                }
            }
            assert forall|k: int| 0 <= k < i + 1 implies u64_le(data@, elf_section_off(s0, k) + 16)
                == elf_sh_offset(s0, k) by {
                if k < i {
                    assert forall|t: int|
                        elf_section_off(s0, k) + 16 <= t < elf_section_off(s0, k) + 24 implies data@[t]
                        == before[t] by {
                        assert(64 * k + 24 <= 64 * (i as int) - 40);
                    }
                    lemma_u64_unchanged(before, data@, elf_section_off(s0, k) + 16);
                } else {
                    assert(u64_le(data@, off + 16) == shdr.sh_offset);
                }
            }
        }
        i = i + 1;
    }
    proof {
        // The magic bytes are never written: every write lands at or beyond
        // the declared table offset plus 16.
        assert forall|j: int| 0 <= j < 4 implies data@[j] == s0[j] by {
            assert(!elf_written_upto(s0, shnum as int, j)) by {
                assert forall|k: int| 0 <= k < shnum implies !(#[trigger] elf_section_off(s0, k) + 16 <= j
                    < elf_section_off(s0, k) + 24) by {
                    assert(elf_section_off(s0, k) + 16 >= shoff + 16);
                }
            }
        }
        assert(is_elf_image(data@));
        if shoff >= 64 {
            // The table lies beyond the file header, so the whole header —
            // the geometry fields included — is untouched.
            assert forall|j: int| 0 <= j < 64 implies data@[j] == s0[j] by {
                assert(!elf_written_upto(s0, shnum as int, j)) by {
                    assert forall|k: int| 0 <= k < shnum implies !(#[trigger] elf_section_off(s0, k)
                        + 16 <= j < elf_section_off(s0, k) + 24) by {
                        assert(elf_section_off(s0, k) + 16 >= shoff + 16);
                    }
                }
            }
            lemma_u64_unchanged(s0, data@, 40);
            lemma_u16_unchanged(s0, data@, 60);
            assert(elf_shoff(data@) == elf_shoff(s0));
            assert(elf_shnum(data@) == elf_shnum(s0));
            assert forall|k: int| 0 <= k < elf_shnum(s0) implies elf_sh_offset(data@, k)
                == elf_sh_offset(s0, k) by {
                assert forall|t: int|
                    elf_section_off(s0, k) + 24 <= t < elf_section_off(s0, k) + 32 implies data@[t]
                    == s0[t] by {
                    assert(!elf_written_upto(s0, shnum as int, t)) by {
                        assert forall|m: int| 0 <= m < shnum implies !(#[trigger] elf_section_off(s0, m) + 16 <= t
                            < elf_section_off(s0, m) + 24) by {
                            if m < k {
                                assert(64 * m + 24 <= 64 * k);
                            } else if m > k {
                                assert(64 * m + 16 >= 64 * k + 80);
                            }
                        }
                    }
                }
                lemma_u64_unchanged(s0, data@, elf_section_off(s0, k) + 24);
            }
            assert forall|k: int| 0 <= k < elf_shnum(data@) implies elf_sh_addr(data@, k)
                == elf_sh_offset(data@, k) by {
                assert(elf_section_off(data@, k) == elf_section_off(s0, k));
                assert(u64_le(data@, elf_section_off(s0, k) + 16) == elf_sh_offset(s0, k));
                assert(elf_sh_offset(data@, k) == elf_sh_offset(s0, k));
            }
            assert(elf_sections_consistent(data@));
        }
    }
    Ok(())
}

fn fix_image_pe(allocation_base: usize, data: &mut Vec<u8>) -> (r: Result<(), Error>)
    requires
        is_pe_image(old(data)@),
    ensures
        final(data)@.len() == old(data)@.len(),
        r is Ok <==> pe_repair_ok(old(data)@),
        r is Err ==> r == Err::<(), Error>(Error::InvalidImage) && final(data)@ == old(data)@,
        r is Ok ==> pe_repaired(old(data)@, final(data)@, allocation_base as int),
{
    let n = data.len();
    if n < 0x40 {
        return Err(Error::InvalidImage);
    }
    let lfanew = le_u32_at(data, 0x3c);
    let nt64 = lfanew as u64;
    if nt64 + 56 > n as u64 {
        return Err(Error::InvalidImage);
    }
    let nt = lfanew as usize;
    let nsec = le_u16_at(data, nt + 6);
    let soh = le_u16_at(data, nt + 20);
    let tbl64 = nt64 + 24 + soh as u64;
    if tbl64 + 40 * (nsec as u64) > n as u64 {
        return Err(Error::InvalidImage);
    }
    let tbl = tbl64 as usize;
    let nsec = nsec as usize;
    let ghost s0 = old(data)@;
    let ghost wf_geom = pe_nt_off(s0) >= 0x40 && pe_opt_header_size(s0) >= 32;
    put_u64_le(data, nt + 48, allocation_base as u64);
    let mut i: usize = 0;
    while i < nsec
        invariant
            data@.len() == s0.len(),
            n == s0.len(),
            i <= nsec,
            nt as int == pe_nt_off(s0),
            nsec as int == pe_num_sections(s0),
            tbl as int == pe_section_table_off(s0),
            tbl + 40 * nsec <= n,
            nt + 56 <= n,
            wf_geom == (pe_nt_off(s0) >= 0x40 && pe_opt_header_size(s0) >= 32),
            wf_geom ==> 0x40 <= nt && nt + 56 <= tbl,
            wf_geom ==> u64_le(data@, nt + 48) == allocation_base,
            forall|j: int|
                0 <= j < s0.len() && !(nt + 48 <= j < nt + 56) && !pe_sections_written_upto(
                    s0,
                    i as int,
                    j,
                ) ==> data@[j] == s0[j],
            wf_geom ==> forall|k: int|
                0 <= k < i ==> {
                    &&& u32_le(data@, pe_section_off(s0, k) + 16) == pe_section_virtual_size(s0, k)
                    &&& u32_le(data@, pe_section_off(s0, k) + 20) == pe_section_virtual_address(
                        s0,
                        k,
                    )
                },
        decreases nsec - i,
    {
        let off = tbl + 40 * i;
        proof {
            assert(off + 40 <= n) by {
                assert(40 * (i as int) + 40 <= 40 * (nsec as int));
            }
            if wf_geom {
                // The virtual fields this iteration reads were not written
                // yet: they lie beyond the load-address field and before any
                // file field written so far.
                assert forall|t: int| off + 8 <= t < off + 16 implies data@[t] == s0[t] by {
                    assert(!(nt + 48 <= t < nt + 56));
                    assert(!pe_sections_written_upto(s0, i as int, t)) by {
                        assert forall|k: int| 0 <= k < i implies !(#[trigger] pe_section_off(s0, k) + 16 <= t
                            < pe_section_off(s0, k) + 24) by {
                            assert(40 * k + 24 <= 40 * (i as int) - 16);
                        }
                    }
                }
                lemma_u32_unchanged(s0, data@, off + 8);
                lemma_u32_unchanged(s0, data@, off + 12);
            }
        }
        let vsize = le_u32_at(data, off + 8);
        let vaddr = le_u32_at(data, off + 12);
        let ghost before = data@;
        put_u32_le(data, off + 16, vsize);
        put_u32_le(data, off + 20, vaddr);
        proof {
            if wf_geom {
                assert(u64_le(data@, nt + 48) == allocation_base) by {
                    assert forall|t: int| nt + 48 <= t < nt + 56 implies data@[t] == before[t] by {
                        assert(t < tbl <= off + 16);
                    }
                    lemma_u64_unchanged(before, data@, nt + 48);
                }
            }
            assert forall|j: int|
                0 <= j < s0.len() && !(nt + 48 <= j < nt + 56) && !pe_sections_written_upto(
                    s0,
                    i + 1,
                    j,
                ) implies data@[j] == s0[j] by {
                assert(!(pe_section_off(s0, i as int) + 16 <= j < pe_section_off(s0, i as int)
                    + 24));
                assert(!pe_sections_written_upto(s0, i as int, j)) by {
                    assert forall|k: int| 0 <= k < i implies !(#[trigger] pe_section_off(s0, k) + 16 <= j
                        < pe_section_off(s0, k) + 24) by {
                        assert(pe_sections_written_upto(s0, i + 1, j) || !(pe_section_off(s0, k)
                            + 16 <= j < pe_section_off(s0, k) + 24));
                    }
                }
            }
            if wf_geom {
                assert forall|k: int| 0 <= k < i + 1 implies {
                    &&& u32_le(data@, pe_section_off(s0, k) + 16) == pe_section_virtual_size(s0, k)
                    &&& u32_le(data@, pe_section_off(s0, k) + 20) == pe_section_virtual_address(
                        s0,
                        k,
                    )
                } by {
                    if k < i {
                        assert forall|t: int|
                            pe_section_off(s0, k) + 16 <= t < pe_section_off(s0, k)
                                + 24 implies data@[t] == before[t] by {
                            assert(40 * k + 24 <= 40 * (i as int) - 16);
                        }
                        lemma_u32_unchanged(before, data@, pe_section_off(s0, k) + 16);
                        lemma_u32_unchanged(before, data@, pe_section_off(s0, k) + 20);
                    } else {
                        assert(u32_le(data@, off + 16) == vsize);
                        assert(u32_le(data@, off + 20) == vaddr);
                    }
                }
            }
        }
        i = i + 1;
    }
    proof {
        // Bytes of the old-style header and of the file header up to the
        // optional header were never written.
        assert forall|j: int| 0 <= j < nt + 24 implies data@[j] == s0[j] by {
            assert(!(nt + 48 <= j < nt + 56));
            assert(!pe_sections_written_upto(s0, nsec as int, j)) by {
                assert forall|k: int| 0 <= k < nsec implies !(#[trigger] pe_section_off(s0, k) + 16 <= j
                    < pe_section_off(s0, k) + 24) by {
                    assert(pe_section_off(s0, k) + 16 >= tbl + 16);
                }
            }
        }
        assert(is_pe_image(data@));
        assert(wf_geom == (0x40 <= nt && 32 <= soh));
    }
    if 0x40 <= nt && 32 <= soh {
    proof {
        assert(wf_geom);
        lemma_u32_unchanged(s0, data@, 0x3c);
        assert(pe_nt_off(data@) == pe_nt_off(s0));
        lemma_u16_unchanged(s0, data@, nt + 6);
        lemma_u16_unchanged(s0, data@, nt + 20);
        assert(pe_num_sections(data@) == pe_num_sections(s0));
        assert(pe_opt_header_size(data@) == pe_opt_header_size(s0));
        assert(pe_image_base(data@) == allocation_base);
        assert forall|k: int| 0 <= k < pe_num_sections(s0) implies {
            &&& pe_section_virtual_size(data@, k) == pe_section_virtual_size(s0, k)
            &&& pe_section_virtual_address(data@, k) == pe_section_virtual_address(s0, k)
        } by {
            assert forall|t: int|
                pe_section_off(s0, k) + 8 <= t < pe_section_off(s0, k) + 16 implies data@[t]
                == s0[t] by {
                assert(!(nt + 48 <= t < nt + 56));
                assert(!pe_sections_written_upto(s0, nsec as int, t)) by {
                    assert forall|m: int| 0 <= m < nsec implies !(#[trigger] pe_section_off(s0, m) + 16 <= t
                        < pe_section_off(s0, m) + 24) by {
                        if m < k {
                            assert(40 * m + 24 <= 40 * k);
                        } else if m > k {
                            assert(40 * m + 16 >= 40 * k + 56);
                        }
                    }
                }
            }
            lemma_u32_unchanged(s0, data@, pe_section_off(s0, k) + 8);
            lemma_u32_unchanged(s0, data@, pe_section_off(s0, k) + 12);
        }
        assert forall|k: int| 0 <= k < pe_num_sections(data@) implies {
            &&& pe_section_raw_ptr(data@, k) == pe_section_virtual_address(data@, k)
            &&& pe_section_raw_size(data@, k) == pe_section_virtual_size(data@, k)
        } by {
            assert(pe_section_off(data@, k) == pe_section_off(s0, k));
            assert(u32_le(data@, pe_section_off(s0, k) + 16) == pe_section_virtual_size(s0, k));
            assert(u32_le(data@, pe_section_off(s0, k) + 20) == pe_section_virtual_address(s0, k));
            assert(pe_section_virtual_size(data@, k) == pe_section_virtual_size(s0, k));
            assert(pe_section_virtual_address(data@, k) == pe_section_virtual_address(s0, k));
        }
        assert(pe_sections_consistent(data@));
    }
    }
    Ok(())
}

/// Reads the build timestamp out of a PE capture's file header: the seconds
/// since the epoch recorded when the module was built. Refused as
/// `InvalidImage` when the headers do not fit inside the buffer.
pub fn pe_build_timestamp(data: &Vec<u8>) -> (r: Result<u32, Error>)
    ensures
        r is Ok <==> data@.len() >= 0x40 && pe_nt_off(data@) + 12 <= data@.len(),
        r is Ok ==> r->Ok_0 == pe_timestamp(data@),
        r is Err ==> r == Err::<u32, Error>(Error::InvalidImage),
{
    let n = data.len();
    if n < 0x40 {
        return Err(Error::InvalidImage);
    }
    let lfanew = le_u32_at(data, 0x3c);
    if lfanew as u64 + 12 > n as u64 {
        return Err(Error::InvalidImage);
    }
    Ok(le_u32_at(data, lfanew as usize + 8))
}

} // verus!
