//! A model of a window of physical memory: a base address and the bytes of
//! the window. The segment loader copies and zero-fills through it, and the
//! hand-off reads the kernel entry field back out of it.

use vstd::prelude::*;

use crate::bytes::spec_le_u64;

verus! {

/// The window of physical memory that the loader writes into:
/// byte `i` of `bytes` holds the contents of address `base + i`.
pub struct PhysMemory {
    base: u64,
    bytes: Vec<u8>,
}

impl PhysMemory {
    /// The lowest address of the window.
    pub closed spec fn spec_base(&self) -> int {
        self.base as int
    }

    /// The contents of the window, lowest address first.
    pub closed spec fn contents(&self) -> Seq<u8> {
        self.bytes@
    }

    /// The window's addresses do not wrap around the 64-bit address space,
    /// and its size fits the machine (it is held in one allocation).
    pub open spec fn wf(&self) -> bool {
        &&& self.spec_base() + self.contents().len() <= u64::MAX + 1
        &&& self.contents().len() <= usize::MAX
    }

    /// `addr` lies inside the window.
    pub open spec fn spec_contains(&self, addr: int) -> bool {
        self.spec_base() <= addr < self.spec_base() + self.contents().len()
    }

    /// The byte stored at address `addr`.
    pub open spec fn spec_at(&self, addr: int) -> u8 {
        self.contents()[addr - self.spec_base()]
    }

    /// A fresh window of `size` zero bytes starting at `base`.
    pub fn new(base: u64, size: usize) -> (r: PhysMemory)
        requires
            base + size <= u64::MAX + 1,
        ensures
            r.wf(),
            r.spec_base() == base,
            r.contents() =~= Seq::new(size as nat, |i: int| 0u8),
    {
        let mut bytes: Vec<u8> = Vec::new();
        let mut i: usize = 0;
        while i < size
            invariant
                i <= size,
                bytes@ =~= Seq::new(i as nat, |j: int| 0u8),
            decreases size - i,
        {
            bytes.push(0u8);
            i = i + 1;
        }
        PhysMemory { base, bytes }
    }

    pub fn base(&self) -> (r: u64)
        ensures
            r == self.spec_base(),
    {
        self.base
    }

    pub fn len(&self) -> (r: usize)
        ensures
            r == self.contents().len(),
    {
        self.bytes.len()
    }

    pub fn read_u8(&self, addr: u64) -> (r: u8)
        requires
            self.spec_contains(addr as int),
        ensures
            r == self.spec_at(addr as int),
    {
        let n = self.bytes.len();
        let off = (addr - self.base) as usize;
        self.bytes[off]
    }

    pub fn write_u8(&mut self, addr: u64, v: u8)
        requires
            old(self).spec_contains(addr as int),
        ensures
            final(self).spec_base() == old(self).spec_base(),
            final(self).contents() =~= old(self).contents().update(
                addr - old(self).spec_base(),
                v,
            ),
    {
        let n = self.bytes.len();
        let i = (addr - self.base) as usize;
        self.bytes.set(i, v);
    }

    /// Copy `count` bytes of `src` starting at `src_off` to the addresses
    /// starting at `dst`. Only the destination range changes.
    pub fn copy_from(&mut self, src: &Vec<u8>, src_off: usize, dst: u64, count: usize)
        requires
            src_off + count <= src.len(),
            dst + count <= u64::MAX + 1,
            old(self).spec_contains(dst as int) || count == 0,
            old(self).spec_base() <= dst,
            dst + count <= old(self).spec_base() + old(self).contents().len(),
        ensures
            final(self).spec_base() == old(self).spec_base(),
            final(self).contents().len() == old(self).contents().len(),
            forall|a: int|
                dst <= a < dst + count ==> final(self).spec_at(a) == src@[src_off + (a - dst)],
            forall|a: int|
                final(self).spec_contains(a) && !(dst <= a < dst + count)
                    ==> final(self).spec_at(a) == old(self).spec_at(a),
    {
        let mut i: usize = 0;
        while i < count
            invariant
                i <= count,
                src_off + count <= src.len(),
                dst + count <= u64::MAX + 1,
                self.spec_base() == old(self).spec_base(),
                self.spec_base() <= dst,
                dst + count <= self.spec_base() + self.contents().len(),
                self.contents().len() == old(self).contents().len(),
                forall|a: int| dst <= a < dst + i ==> self.spec_at(a) == src@[src_off + (a - dst)],
                forall|a: int|
                    self.spec_contains(a) && !(dst <= a < dst + i) ==> self.spec_at(a) == old(
                        self,
                    ).spec_at(a),
            decreases count - i,
        {
            let addr = dst + i as u64;
            let ghost pre = *self;
            self.write_u8(addr, src[src_off + i]);
            i = i + 1;
            proof {
                assert forall|a: int| dst <= a < dst + i implies self.spec_at(a) == src@[src_off
                    + (a - dst)] by {
                    if a < addr {
                        assert(pre.spec_at(a) == src@[src_off + (a - dst)]);
                    }
                }
                assert forall|a: int|
                    self.spec_contains(a) && !(dst <= a < dst + i) implies self.spec_at(a) == old(
                        self,
                    ).spec_at(a) by {
                    assert(pre.spec_at(a) == old(self).spec_at(a));
                }
            }
        }
    }

    /// Set `count` bytes starting at address `dst` to zero. Only that range
    /// changes.
    pub fn zero_fill(&mut self, dst: u64, count: usize)
        requires
            dst + count <= u64::MAX + 1,
            old(self).spec_base() <= dst,
            dst + count <= old(self).spec_base() + old(self).contents().len(),
        ensures
            final(self).spec_base() == old(self).spec_base(),
            final(self).contents().len() == old(self).contents().len(),
            forall|a: int| dst <= a < dst + count ==> final(self).spec_at(a) == 0u8,
            forall|a: int|
                final(self).spec_contains(a) && !(dst <= a < dst + count)
                    ==> final(self).spec_at(a) == old(self).spec_at(a),
    {
        let mut i: usize = 0;
        while i < count
            invariant
                i <= count,
                dst + count <= u64::MAX + 1,
                self.spec_base() == old(self).spec_base(),
                self.spec_base() <= dst,
                dst + count <= self.spec_base() + self.contents().len(),
                self.contents().len() == old(self).contents().len(),
                forall|a: int| dst <= a < dst + i ==> self.spec_at(a) == 0u8,
                forall|a: int|
                    self.spec_contains(a) && !(dst <= a < dst + i) ==> self.spec_at(a) == old(
                        self,
                    ).spec_at(a),
            decreases count - i,
        {
            let addr = dst + i as u64;
            let ghost pre = *self;
            self.write_u8(addr, 0u8);
            i = i + 1;
            proof {
                assert forall|a: int| dst <= a < dst + i implies self.spec_at(a) == 0u8 by {
                    if a < addr {
                        assert(pre.spec_at(a) == 0u8);
                    }
                }
                assert forall|a: int|
                    self.spec_contains(a) && !(dst <= a < dst + i) implies self.spec_at(a) == old(
                        self,
                    ).spec_at(a) by {
                    assert(pre.spec_at(a) == old(self).spec_at(a));
                }
            }
        }
    }

    /// Read the eight bytes at `addr` as a little-endian 64-bit value.
    pub fn read_u64_le(&self, addr: u64) -> (r: u64)
        requires
            self.wf(),
            self.spec_base() <= addr,
            addr + 8 <= self.spec_base() + self.contents().len(),
        ensures
            r == spec_le_u64(self.contents(), addr - self.spec_base()),
    {
        let b0 = self.read_u8(addr) as u64;
        let b1 = self.read_u8(addr + 1) as u64;
        let b2 = self.read_u8(addr + 2) as u64;
        let b3 = self.read_u8(addr + 3) as u64;
        let b4 = self.read_u8(addr + 4) as u64;
        let b5 = self.read_u8(addr + 5) as u64;
        let b6 = self.read_u8(addr + 6) as u64;
        let b7 = self.read_u8(addr + 7) as u64;
        b0 + 0x100 * b1 + 0x1_0000 * b2 + 0x100_0000 * b3 + 0x1_0000_0000 * b4 + 0x100_0000_0000
            * b5 + 0x1_0000_0000_0000 * b6 + 0x100_0000_0000_0000 * b7
    }
}

} // verus!
