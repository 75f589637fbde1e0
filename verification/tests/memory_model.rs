//! The physical-memory window and the little-endian byte readers.

use bootcore::bytes::{align4_up, read_u16_le, read_u32_le, read_u64_le};
use bootcore::memory::PhysMemory;
use bootcore::uefi::pages_needed;

#[test]
fn window_starts_zeroed() {
    let mem = PhysMemory::new(0x1000, 16);
    assert_eq!(mem.base(), 0x1000);
    assert_eq!(mem.len(), 16);
    for i in 0..16u64 {
        assert_eq!(mem.read_u8(0x1000 + i), 0);
    }
}

#[test]
fn write_and_read_back() {
    let mut mem = PhysMemory::new(0x1000, 16);
    mem.write_u8(0x1005, 0xAB);
    assert_eq!(mem.read_u8(0x1005), 0xAB);
    assert_eq!(mem.read_u8(0x1004), 0);
    assert_eq!(mem.read_u8(0x1006), 0);
}

#[test]
fn copy_into_window() {
    let mut mem = PhysMemory::new(0x2000, 32);
    let src = vec![1u8, 2, 3, 4, 5, 6];
    mem.copy_from(&src, 2, 0x2010, 3);
    assert_eq!(mem.read_u8(0x2010), 3);
    assert_eq!(mem.read_u8(0x2011), 4);
    assert_eq!(mem.read_u8(0x2012), 5);
    assert_eq!(mem.read_u8(0x200F), 0);
    assert_eq!(mem.read_u8(0x2013), 0);
}

#[test]
fn zero_fill_range() {
    let mut mem = PhysMemory::new(0, 8);
    for a in 0..8u64 {
        mem.write_u8(a, 0xFF);
    }
    mem.zero_fill(2, 4);
    assert_eq!(mem.read_u8(1), 0xFF);
    for a in 2..6u64 {
        assert_eq!(mem.read_u8(a), 0);
    }
    assert_eq!(mem.read_u8(6), 0xFF);
}

#[test]
fn little_endian_reads() {
    let b = vec![0x01u8, 0x02, 0x03, 0x04, 0x05, 0x06, 0x07, 0x08];
    assert_eq!(read_u16_le(&b, 0), 0x0201);
    assert_eq!(read_u32_le(&b, 0), 0x0403_0201);
    assert_eq!(read_u32_le(&b, 4), 0x0807_0605);
    assert_eq!(read_u64_le(&b, 0), 0x0807_0605_0403_0201);
}

#[test]
fn read_u64_from_window() {
    let mut mem = PhysMemory::new(0x100, 16);
    for i in 0..8u64 {
        mem.write_u8(0x104 + i, (i + 1) as u8);
    }
    assert_eq!(mem.read_u64_le(0x104), 0x0807_0605_0403_0201);
}

#[test]
fn alignment_rounds_up_to_four() {
    assert_eq!(align4_up(0), 0);
    assert_eq!(align4_up(1), 4);
    assert_eq!(align4_up(4), 4);
    assert_eq!(align4_up(110), 112);
}

#[test]
fn page_count_covers_bytes() {
    assert_eq!(pages_needed(0), 0);
    assert_eq!(pages_needed(1), 1);
    assert_eq!(pages_needed(0x1000), 1);
    assert_eq!(pages_needed(0x1001), 2);
    assert_eq!(pages_needed(10 * 0x1000), 10);
}
