use memdump::error::Error;
use memdump::image::{fix_image, pe_build_timestamp, Elf64_Ehdr, Elf64_Shdr};

fn rd_u16(d: &[u8], off: usize) -> u16 {
    d[off] as u16 | (d[off + 1] as u16) << 8
}

fn rd_u32(d: &[u8], off: usize) -> u32 {
    (d[off] as u32) | (d[off + 1] as u32) << 8 | (d[off + 2] as u32) << 16
        | (d[off + 3] as u32) << 24
}

fn rd_u64(d: &[u8], off: usize) -> u64 {
    let mut v: u64 = 0;
    for k in 0..8 {
        v |= (d[off + k] as u64) << (8 * k);
    }
    v
}

fn wr_u16(d: &mut [u8], off: usize, v: u16) {
    d[off] = v as u8;
    d[off + 1] = (v >> 8) as u8;
}

fn wr_u32(d: &mut [u8], off: usize, v: u32) {
    for k in 0..4 {
        d[off + k] = (v >> (8 * k)) as u8;
    }
}

fn wr_u64(d: &mut [u8], off: usize, v: u64) {
    for k in 0..8 {
        d[off + k] = (v >> (8 * k)) as u8;
    }
}

/// A minimal PE capture: old-style header at 0, new-style header at 0x40, a
/// 240-byte optional header, and `nsec` section headers.
fn sample_pe(nsec: u16, timestamp: u32, len: usize) -> Vec<u8> {
    let mut d = vec![0u8; len];
    d[0] = 0x4d;
    d[1] = 0x5a;
    wr_u32(&mut d, 0x3c, 0x40);
    wr_u16(&mut d, 0x40 + 6, nsec);
    wr_u32(&mut d, 0x40 + 8, timestamp);
    wr_u16(&mut d, 0x40 + 20, 240);
    d
}

const PE_TBL: usize = 0x40 + 24 + 240;

#[test]
fn pe_repair_rewrites_every_section_and_the_load_address() {
    let mut d = sample_pe(2, 0, 0x400);
    // section 0: virtual size 0x1111 at virtual offset 0x2000, stale file fields
    wr_u32(&mut d, PE_TBL + 8, 0x1111);
    wr_u32(&mut d, PE_TBL + 12, 0x2000);
    wr_u32(&mut d, PE_TBL + 16, 0x9999);
    wr_u32(&mut d, PE_TBL + 20, 0x8888);
    // section 1
    wr_u32(&mut d, PE_TBL + 40 + 8, 0x0222);
    wr_u32(&mut d, PE_TBL + 40 + 12, 0x5000);
    wr_u32(&mut d, PE_TBL + 40 + 16, 0x7777);
    wr_u32(&mut d, PE_TBL + 40 + 20, 0x6666);
    let mut v = d.clone();
    let r = fix_image(0xdead_b000, &mut v);
    assert!(r.is_ok());
    assert_eq!(v.len(), d.len());
    // for every section: file offset == virtual offset, file size == virtual size
    for s in 0..2 {
        let off = PE_TBL + 40 * s;
        assert_eq!(rd_u32(&v, off + 20), rd_u32(&v, off + 12));
        assert_eq!(rd_u32(&v, off + 16), rd_u32(&v, off + 8));
        // the virtual fields themselves are untouched
        assert_eq!(rd_u32(&v, off + 8), rd_u32(&d, off + 8));
        assert_eq!(rd_u32(&v, off + 12), rd_u32(&d, off + 12));
    }
    assert_eq!(rd_u32(&v, PE_TBL + 20), 0x2000);
    assert_eq!(rd_u32(&v, PE_TBL + 16), 0x1111);
    assert_eq!(rd_u32(&v, PE_TBL + 40 + 20), 0x5000);
    assert_eq!(rd_u32(&v, PE_TBL + 40 + 16), 0x0222);
    // the optional header's load address is the captured base
    assert_eq!(rd_u64(&v, 0x40 + 48), 0xdead_b000);
    // a byte outside every written field is untouched
    assert_eq!(v[0x100], d[0x100]);
}

#[test]
fn pe_repair_refuses_a_truncated_section_table() {
    // two sections declared, but the buffer ends inside the table
    let mut d = sample_pe(2, 0, PE_TBL + 40);
    let before = d.clone();
    assert_eq!(fix_image(0, &mut d), Err(Error::InvalidImage));
    assert_eq!(d, before);
}

#[test]
fn pe_timestamp_is_read_from_the_file_header() {
    let d = sample_pe(0, 1_234_567, 0x400);
    assert_eq!(pe_build_timestamp(&d), Ok(1_234_567));
    let short = vec![0u8; 0x10];
    assert_eq!(pe_build_timestamp(&short), Err(Error::InvalidImage));
}

/// A minimal ELF capture with a section table right after the file header.
fn sample_elf(shnum: u16, len: usize) -> Vec<u8> {
    let mut d = vec![0u8; len];
    d[0] = 0x7f;
    d[1] = 0x45;
    d[2] = 0x4c;
    d[3] = 0x46;
    wr_u64(&mut d, 40, 64);
    wr_u16(&mut d, 60, shnum);
    d
}

#[test]
fn elf_repair_sets_every_address_from_its_offset() {
    let mut d = sample_elf(2, 64 + 128);
    wr_u64(&mut d, 64 + 16, 0xaaaa);
    wr_u64(&mut d, 64 + 24, 0x1000);
    wr_u64(&mut d, 64 + 64 + 16, 0xbbbb);
    wr_u64(&mut d, 64 + 64 + 24, 0x2000);
    let old = d.clone();
    assert!(fix_image(0x1000, &mut d).is_ok());
    // for every section: address == the captured offset value
    assert_eq!(rd_u64(&d, 64 + 16), 0x1000);
    assert_eq!(rd_u64(&d, 64 + 64 + 16), 0x2000);
    // the offset fields themselves are untouched
    assert_eq!(rd_u64(&d, 64 + 24), rd_u64(&old, 64 + 24));
    assert_eq!(rd_u64(&d, 64 + 64 + 24), rd_u64(&old, 64 + 64 + 24));
    // and address == offset holds of the result
    assert_eq!(rd_u64(&d, 64 + 16), rd_u64(&d, 64 + 24));
    assert_eq!(rd_u64(&d, 64 + 64 + 16), rd_u64(&d, 64 + 64 + 24));
}

#[test]
fn elf_repair_with_zero_table_offset_changes_nothing() {
    let mut d = sample_elf(3, 256);
    wr_u64(&mut d, 40, 0);
    let before = d.clone();
    assert!(fix_image(0, &mut d).is_ok());
    assert_eq!(d, before);
}

#[test]
fn elf_repair_accepts_a_table_inside_the_header() {
    // a declared table that starts inside the 64-byte file header is still
    // repaired: the geometry is read once, so every write is well-defined
    let mut d = sample_elf(1, 128);
    wr_u64(&mut d, 40, 32);
    let old = d.clone();
    assert!(fix_image(0, &mut d).is_ok());
    // the entry's address field took the captured offset field's value
    assert_eq!(rd_u64(&d, 32 + 16), rd_u64(&old, 32 + 24));
    // nothing outside that one field changed
    assert_eq!(&d[..48], &old[..48]);
    assert_eq!(&d[56..], &old[56..]);
}

#[test]
fn pe_repair_accepts_unusual_header_geometry() {
    // a new-style header inside the old-style header's span: only the buffer
    // length gates the repair
    let mut d = vec![0u8; 0x200];
    d[0] = 0x4d;
    d[1] = 0x5a;
    wr_u32(&mut d, 0x3c, 0x10);
    wr_u16(&mut d, 0x10 + 20, 240);
    assert!(fix_image(0x7000, &mut d).is_ok());
    assert_eq!(rd_u64(&d, 0x10 + 48), 0x7000);
    // an optional header shorter than the load-address field: the section's
    // file fields still end up holding its virtual fields
    let mut d = vec![0u8; 0x200];
    d[0] = 0x4d;
    d[1] = 0x5a;
    wr_u32(&mut d, 0x3c, 0x40);
    wr_u16(&mut d, 0x40 + 6, 1);
    wr_u16(&mut d, 0x40 + 20, 8);
    wr_u32(&mut d, 0x60 + 8, 0x1234);
    wr_u32(&mut d, 0x60 + 12, 0x5000);
    assert!(fix_image(0x7000, &mut d).is_ok());
    assert_eq!(rd_u32(&d, 0x60 + 16), 0x1234);
    assert_eq!(rd_u32(&d, 0x60 + 20), 0x5000);
}

#[test]
fn elf_repair_refuses_bad_input() {
    // too short to hold a file header
    let mut short = vec![0x7f, 0x45, 0x4c, 0x46, 0, 0];
    assert_eq!(fix_image(0, &mut short), Err(Error::InvalidImage));
    // a declared table that overruns the buffer
    let mut over = sample_elf(9, 128);
    let before = over.clone();
    assert_eq!(fix_image(0, &mut over), Err(Error::InvalidImage));
    assert_eq!(over, before);
    // neither magic signature
    let mut junk = vec![1u8; 128];
    assert_eq!(fix_image(0, &mut junk), Err(Error::InvalidImage));
}

#[test]
fn elf_headers_decode_their_fields() {
    let mut d = sample_elf(5, 256);
    wr_u16(&mut d, 16, 3);
    wr_u64(&mut d, 24, 0x4321);
    let ehdr = Elf64_Ehdr::parse(&d);
    assert_eq!(ehdr.e_type, 3);
    assert_eq!(ehdr.e_entry, 0x4321);
    assert_eq!(ehdr.e_shoff, 64);
    assert_eq!(ehdr.e_shnum, 5);
    wr_u64(&mut d, 64 + 24, 0x1000);
    wr_u64(&mut d, 64 + 32, 0x222);
    let shdr = Elf64_Shdr::parse(&d, 64);
    assert_eq!(shdr.sh_offset, 0x1000);
    assert_eq!(shdr.sh_size, 0x222);
}

#[test]
fn byte_writers_round_trip() {
    let mut v = vec![0u8; 16];
    memdump::bytes::put_u32_le(&mut v, 2, 0xdead_beef);
    assert_eq!(memdump::bytes::le_u32_at(&v, 2), 0xdead_beef);
    memdump::bytes::put_u64_le(&mut v, 8, 0x0123_4567_89ab_cdef);
    assert_eq!(memdump::bytes::le_u64_at(&v, 8), 0x0123_4567_89ab_cdef);
    assert_eq!(v[0], 0);
    assert_eq!(memdump::bytes::le_u16_at(&v, 2), 0xbeef);
}
