//! The segment loader end to end: building ELF64 images as raw bytes,
//! parsing their headers, and loading their LOAD segments into a window of
//! model memory.

use bootcore::elf::{
    get_pt_load_first_end, load, parse_ehdr, parse_phdrs, kernel_entry_address, ElfStatus,
    ELF64_R_INFO, ELF64_R_SYM, ELF64_R_TYPE, PT_LOAD, PT_NOTE,
};
use bootcore::memory::PhysMemory;

fn put_u16(image: &mut Vec<u8>, off: usize, v: u16) {
    let b = v.to_le_bytes();
    for i in 0..2 {
        image[off + i] = b[i];
    }
}

fn put_u32(image: &mut Vec<u8>, off: usize, v: u32) {
    let b = v.to_le_bytes();
    for i in 0..4 {
        image[off + i] = b[i];
    }
}

fn put_u64(image: &mut Vec<u8>, off: usize, v: u64) {
    let b = v.to_le_bytes();
    for i in 0..8 {
        image[off + i] = b[i];
    }
}

/// An image with a 64-byte file header, `phnum` program headers right after
/// it, and room for segment data.
fn empty_image(phnum: u16, total: usize) -> Vec<u8> {
    let mut image = vec![0u8; total];
    put_u64(&mut image, 24, 0xdead_beef); // declared entry point
    put_u64(&mut image, 32, 64); // program header table offset
    put_u16(&mut image, 54, 56); // entry size
    put_u16(&mut image, 56, phnum);
    image
}

fn set_phdr(image: &mut Vec<u8>, idx: usize, p_type: u32, offset: u64, vaddr: u64, filesz: u64, memsz: u64) {
    let base = 64 + 56 * idx;
    put_u32(image, base, p_type);
    put_u64(image, base + 8, offset);
    put_u64(image, base + 16, vaddr);
    put_u64(image, base + 32, filesz);
    put_u64(image, base + 40, memsz);
}

#[test]
fn parse_rejects_short_image() {
    let image = vec![0u8; 63];
    assert!(matches!(parse_ehdr(&image), Err(ElfStatus::Invalid)));
}

#[test]
fn parse_reads_declared_fields() {
    let image = empty_image(2, 64 + 2 * 56);
    let h = parse_ehdr(&image).unwrap();
    assert_eq!(h.e_entry, 0xdead_beef);
    assert_eq!(h.e_phoff, 64);
    assert_eq!(h.e_phentsize, 56);
    assert_eq!(h.e_phnum, 2);
    let phdrs = parse_phdrs(&image, &h).unwrap();
    assert_eq!(phdrs.len(), 2);
}

#[test]
fn parse_rejects_table_out_of_bounds() {
    let mut image = empty_image(2, 64 + 56); // room for one entry only
    put_u16(&mut image, 56, 2);
    let h = parse_ehdr(&image).unwrap();
    assert!(matches!(parse_phdrs(&image, &h), Err(ElfStatus::Invalid)));
}

/// One LOAD segment of 100 file bytes and 132 memory bytes at an absolute
/// address: after loading, the first 100 bytes equal the image's pattern
/// and the zero-fill covers the 32 bytes after the (already aligned) end.
#[test]
fn load_copies_pattern_and_zero_fills() {
    let base: u64 = 0x0010_0000;
    let data_off: usize = 64 + 56;
    let mut image = empty_image(1, data_off + 100);
    set_phdr(&mut image, 0, PT_LOAD, data_off as u64, base, 100, 132);
    for i in 0..100 {
        image[data_off + i] = (7 + 3 * i) as u8;
    }
    let h = parse_ehdr(&image).unwrap();
    let phdrs = parse_phdrs(&image, &h).unwrap();
    let mut mem = PhysMemory::new(base, 4096);
    // scribble over the window first so the zero-fill is visible
    for a in 0..4096u64 {
        mem.write_u8(base + a, 0xAA);
    }
    load(&image, &phdrs, &mut mem).unwrap();
    for i in 0..100u64 {
        assert_eq!(mem.read_u8(base + i), (7 + 3 * i as usize) as u8);
    }
    // 100 is already 4-byte aligned, so the tail starts right there
    for i in 100..132u64 {
        assert_eq!(mem.read_u8(base + i), 0);
    }
    // past the segment nothing was touched
    assert_eq!(mem.read_u8(base + 132), 0xAA);
}

#[test]
fn load_aligns_zero_fill_start() {
    let base: u64 = 0x2000;
    let data_off: usize = 64 + 56;
    let mut image = empty_image(1, data_off + 10);
    // file size 10: the tail starts at the 4-byte-aligned address 12
    set_phdr(&mut image, 0, PT_LOAD, data_off as u64, base, 10, 40);
    for i in 0..10 {
        image[data_off + i] = 0x55;
    }
    let h = parse_ehdr(&image).unwrap();
    let phdrs = parse_phdrs(&image, &h).unwrap();
    let mut mem = PhysMemory::new(base, 256);
    for a in 0..256u64 {
        mem.write_u8(base + a, 0xAA);
    }
    load(&image, &phdrs, &mut mem).unwrap();
    for i in 0..10u64 {
        assert_eq!(mem.read_u8(base + i), 0x55);
    }
    // the two bytes in the alignment gap keep their old value
    assert_eq!(mem.read_u8(base + 10), 0xAA);
    assert_eq!(mem.read_u8(base + 11), 0xAA);
    // thirty zero bytes from the aligned start
    for i in 12..42u64 {
        assert_eq!(mem.read_u8(base + i), 0);
    }
    assert_eq!(mem.read_u8(base + 42), 0xAA);
}

/// Only LOAD entries are mapped; other segment types leave memory alone.
#[test]
fn load_skips_non_load_segments() {
    let base: u64 = 0x4000;
    let data_off: usize = 64 + 2 * 56;
    let mut image = empty_image(2, data_off + 64);
    set_phdr(&mut image, 0, PT_NOTE, data_off as u64, base, 32, 32);
    set_phdr(&mut image, 1, PT_LOAD, (data_off + 32) as u64, base + 64, 16, 16);
    for i in 0..64 {
        image[data_off + i] = 0x11 + i as u8;
    }
    let h = parse_ehdr(&image).unwrap();
    let phdrs = parse_phdrs(&image, &h).unwrap();
    let mut mem = PhysMemory::new(base, 512);
    load(&image, &phdrs, &mut mem).unwrap();
    // the NOTE segment's target range stayed zero
    for i in 0..32u64 {
        assert_eq!(mem.read_u8(base + i), 0);
    }
    // the LOAD segment landed
    for i in 0..16u64 {
        assert_eq!(mem.read_u8(base + 64 + i), 0x11 + 32 + i as u8);
    }
}

#[test]
fn pt_load_span_over_mixed_table() {
    let mut image = empty_image(3, 64 + 3 * 56);
    set_phdr(&mut image, 0, PT_NOTE, 0, 0x100, 8, 8);
    set_phdr(&mut image, 1, PT_LOAD, 0, 0x4000, 8, 0x20);
    set_phdr(&mut image, 2, PT_LOAD, 0, 0x1000, 8, 0x10);
    let h = parse_ehdr(&image).unwrap();
    let phdrs = parse_phdrs(&image, &h).unwrap();
    let (first, end) = get_pt_load_first_end(&phdrs).unwrap();
    assert_eq!(first, 0x1000);
    assert_eq!(end, 0x4020);
}

#[test]
fn pt_load_span_of_empty_table() {
    let image = empty_image(0, 64);
    let h = parse_ehdr(&image).unwrap();
    let phdrs = parse_phdrs(&image, &h).unwrap();
    let (first, end) = get_pt_load_first_end(&phdrs).unwrap();
    assert_eq!(first, u64::MAX);
    assert_eq!(end, 0);
}

/// The entry address read back out of loaded memory is the one the image
/// declared.
#[test]
fn entry_address_of_loaded_image() {
    let base: u64 = 0x0010_0000;
    let data_off: usize = 64 + 56;
    let mut image = empty_image(1, data_off);
    // load the header itself to the base, as a flat image would be
    set_phdr(&mut image, 0, PT_LOAD, 0, base, (data_off) as u64, (data_off) as u64);
    let h = parse_ehdr(&image).unwrap();
    let phdrs = parse_phdrs(&image, &h).unwrap();
    let mut mem = PhysMemory::new(base, 4096);
    load(&image, &phdrs, &mut mem).unwrap();
    assert_eq!(kernel_entry_address(&mem, base), 0xdead_beef);
}

#[test]
fn relocation_info_packing() {
    assert_eq!(ELF64_R_SYM(0x0000_0005_0000_0008), 5);
    assert_eq!(ELF64_R_TYPE(0x0000_0005_0000_0008), 8);
    assert_eq!(ELF64_R_INFO(5, 8), 0x0000_0005_0000_0008);
    assert_eq!(ELF64_R_INFO(ELF64_R_SYM(0x1234_5678_9abc_def0), ELF64_R_TYPE(0x1234_5678_9abc_def0)), 0x1234_5678_9abc_def0);
}
