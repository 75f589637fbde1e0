//! Little-endian views over byte buffers, and the 4-byte alignment helper
//! used by the segment loader.

use vstd::prelude::*;

verus! {

/// The 4-byte-aligned address at or above `addr`.
pub open spec fn spec_align4_up(addr: int) -> int {
    ((addr + 3) / 4) * 4
}

/// Round an address up to the next multiple of four; segment tails are
/// zero-filled starting from a 4-byte-aligned address.
pub fn align4_up(addr: u64) -> (r: u64)
    requires
        addr + 3 <= u64::MAX,
    ensures
        r == spec_align4_up(addr as int),
{
    let r = (addr + 3) & !0b11;
    proof {
        let s = (addr + 3) as u64;
        assert(s & !0b11u64 == (s / 4) * 4) by (bit_vector);
    }
    r
}

/// The value of the two bytes at `off`, read little-endian.
pub open spec fn spec_le_u16(b: Seq<u8>, off: int) -> int {
    b[off] + 0x100 * b[off + 1]
}

/// The value of the four bytes at `off`, read little-endian.
pub open spec fn spec_le_u32(b: Seq<u8>, off: int) -> int {
    b[off] + 0x100 * b[off + 1] + 0x1_0000 * b[off + 2] + 0x100_0000 * b[off + 3]
}

/// The value of the eight bytes at `off`, read little-endian.
pub open spec fn spec_le_u64(b: Seq<u8>, off: int) -> int {
    b[off] + 0x100 * b[off + 1] + 0x1_0000 * b[off + 2] + 0x100_0000 * b[off + 3]
        + 0x1_0000_0000 * b[off + 4] + 0x100_0000_0000 * b[off + 5] + 0x1_0000_0000_0000 * b[off
        + 6] + 0x100_0000_0000_0000 * b[off + 7]
}

pub fn read_u16_le(b: &Vec<u8>, off: usize) -> (r: u16)
    requires
        off + 2 <= b.len(),
    ensures
        r == spec_le_u16(b@, off as int),
{
    (b[off] as u16) + 0x100 * (b[off + 1] as u16)
}

pub fn read_u32_le(b: &Vec<u8>, off: usize) -> (r: u32)
    requires
        off + 4 <= b.len(),
    ensures
        r == spec_le_u32(b@, off as int),
{
    (b[off] as u32) + 0x100 * (b[off + 1] as u32) + 0x1_0000 * (b[off + 2] as u32) + 0x100_0000
        * (b[off + 3] as u32)
}

pub fn read_u64_le(b: &Vec<u8>, off: usize) -> (r: u64)
    requires
        off + 8 <= b.len(),
    ensures
        r == spec_le_u64(b@, off as int),
{
    (b[off] as u64) + 0x100 * (b[off + 1] as u64) + 0x1_0000 * (b[off + 2] as u64) + 0x100_0000
        * (b[off + 3] as u64) + 0x1_0000_0000 * (b[off + 4] as u64) + 0x100_0000_0000 * (b[off
        + 5] as u64) + 0x1_0000_0000_0000 * (b[off + 6] as u64) + 0x100_0000_0000_0000 * (b[off
        + 7] as u64)
}

} // verus!
