//! ELF64 program-header parsing and the segment loader: every LOAD entry of
//! the program header table is copied from the image to its physical address
//! and its uninitialized tail is zero-filled from the next 4-byte-aligned
//! address.

#![allow(nonstandard_style)]

use vstd::prelude::*;

use crate::bytes::{read_u16_le, read_u32_le, read_u64_le, align4_up, spec_align4_up, spec_le_u16,
    spec_le_u32, spec_le_u64};
use crate::memory::PhysMemory;

verus! {

pub const EI_NIDENT: usize = 16;

pub const PT_NULL: u32 = 0;

pub const PT_LOAD: u32 = 1;

pub const PT_DYNAMIC: u32 = 2;

pub const PT_INTERP: u32 = 3;

pub const PT_NOTE: u32 = 4;

pub const PT_SHLIB: u32 = 5;

pub const PT_PHDR: u32 = 6;

pub const PT_TLS: u32 = 7;

pub const R_X86_64_RELATIVE: u32 = 8;

/// Size in bytes of the ELF64 file header.
pub const EHDR_SIZE: usize = 64;

/// Size in bytes of one ELF64 program header table entry.
pub const PHDR_SIZE: usize = 56;

#[derive(Clone, Copy, Debug)]
pub struct Elf64_Ehdr {
    pub e_ident: [u8; 16],
    pub e_type: u16,
    pub e_machine: u16,
    pub e_version: u32,
    pub e_entry: u64,
    pub e_phoff: u64,
    pub e_shoff: u64,
    pub e_flags: u32,
    pub e_ehsize: u16,
    pub e_phentsize: u16,
    pub e_phnum: u16,
    pub e_shentsize: u16,
    pub e_shnum: u16,
    pub e_shstrndx: u16,
}

#[derive(Clone, Copy, Debug)]
pub struct Elf64_Phdr {
    pub p_type: u32,
    pub p_flags: u32,
    pub p_offset: u64,
    pub p_vaddr: u64,
    pub p_paddr: u64,
    pub p_filesz: u64,
    pub p_memsz: u64,
    pub p_align: u64,
}

/// A dynamic-section entry; the value field holds either a value or an
/// address, both 64 bits wide.
#[derive(Clone, Copy, Debug)]
pub struct Elf64_Dyn {
    pub d_tag: i64,
    pub d_un: u64,
}

#[derive(Clone, Copy, Debug)]
pub struct Elf64_Rela {
    pub r_offset: u64,
    pub r_info: u64,
    pub r_addend: i64,
}

#[derive(Clone, Copy, Debug, PartialEq, Eq, Structural)]
pub enum ElfStatus {
    Invalid,
    NotElf,
}

/// The symbol index packed in the upper half of a relocation info word.
pub fn ELF64_R_SYM(i: u64) -> (r: u32)
    ensures
        r == i as int / 0x1_0000_0000,
{
    proof {
        assert((i >> 32u64) == i / 0x1_0000_0000 && i / 0x1_0000_0000 <= 0xffff_ffff)
            by (bit_vector);
    }
    (i >> 32) as u32
}

/// The relocation type packed in the lower half of a relocation info word.
pub fn ELF64_R_TYPE(i: u64) -> (r: u32)
    ensures
        r == i as int % 0x1_0000_0000,
{
    proof {
        assert((i & 0xffff_ffff) == i % 0x1_0000_0000 && i % 0x1_0000_0000 <= 0xffff_ffff)
            by (bit_vector);
    }
    (i & 0xffffffff) as u32
}

/// Pack a symbol index and a relocation type into one info word.
pub fn ELF64_R_INFO(s: u32, t: u32) -> (r: u64)
    ensures
        r == s * 0x1_0000_0000 + t,
{
    proof {
        let s64 = s as u64;
        assert((s64 << 32u64) == s64 * 0x1_0000_0000 && s64 * 0x1_0000_0000 <= 0xffff_ffff_0000_0000)
            by (bit_vector)
            requires
                s64 <= 0xffff_ffff,
        ;
    }
    ((s as u64) << 32) + (t as u64)
}

/// The file header that the byte image declares, field by field.
pub open spec fn ehdr_matches(h: Elf64_Ehdr, b: Seq<u8>) -> bool {
    &&& h.e_ident@ =~= b.subrange(0, 16)
    &&& h.e_type == spec_le_u16(b, 16)
    &&& h.e_machine == spec_le_u16(b, 18)
    &&& h.e_version == spec_le_u32(b, 20)
    &&& h.e_entry == spec_le_u64(b, 24)
    &&& h.e_phoff == spec_le_u64(b, 32)
    &&& h.e_shoff == spec_le_u64(b, 40)
    &&& h.e_flags == spec_le_u32(b, 48)
    &&& h.e_ehsize == spec_le_u16(b, 52)
    &&& h.e_phentsize == spec_le_u16(b, 54)
    &&& h.e_phnum == spec_le_u16(b, 56)
    &&& h.e_shentsize == spec_le_u16(b, 58)
    &&& h.e_shnum == spec_le_u16(b, 60)
    &&& h.e_shstrndx == spec_le_u16(b, 62)
}

/// Read the fixed-layout file header out of the front of the image.
/// Fails exactly when the image is too short to hold one.
pub fn parse_ehdr(image: &Vec<u8>) -> (r: Result<Elf64_Ehdr, ElfStatus>)
    ensures
        r is Ok <==> image.len() >= EHDR_SIZE,
        r matches Ok(h) ==> ehdr_matches(h, image@),
        r matches Err(e) ==> e == ElfStatus::Invalid,
{
    if image.len() < EHDR_SIZE {
        return Err(ElfStatus::Invalid);
    }
    let mut ident: [u8; 16] = [0; 16];
    let mut i: usize = 0;
    while i < 16
        invariant
            i <= 16,
            image.len() >= 64,
            forall|j: int| 0 <= j < i ==> ident@[j] == image@[j],
        decreases 16 - i,
    {
        ident[i] = image[i];
        i = i + 1;
    }
    let h = Elf64_Ehdr {
        e_ident: ident,
        e_type: read_u16_le(image, 16),
        e_machine: read_u16_le(image, 18),
        e_version: read_u32_le(image, 20),
        e_entry: read_u64_le(image, 24),
        e_phoff: read_u64_le(image, 32),
        e_shoff: read_u64_le(image, 40),
        e_flags: read_u32_le(image, 48),
        e_ehsize: read_u16_le(image, 52),
        e_phentsize: read_u16_le(image, 54),
        e_phnum: read_u16_le(image, 56),
        e_shentsize: read_u16_le(image, 58),
        e_shnum: read_u16_le(image, 60),
        e_shstrndx: read_u16_le(image, 62),
    };
    proof {
        assert(h.e_ident@ =~= image@.subrange(0, 16));
    }
    Ok(h)
}

/// The program header entry that the bytes at `off` declare.
pub open spec fn phdr_matches(p: Elf64_Phdr, b: Seq<u8>, off: int) -> bool {
    &&& p.p_type == spec_le_u32(b, off)
    &&& p.p_flags == spec_le_u32(b, off + 4)
    &&& p.p_offset == spec_le_u64(b, off + 8)
    &&& p.p_vaddr == spec_le_u64(b, off + 16)
    &&& p.p_paddr == spec_le_u64(b, off + 24)
    &&& p.p_filesz == spec_le_u64(b, off + 32)
    &&& p.p_memsz == spec_le_u64(b, off + 40)
    &&& p.p_align == spec_le_u64(b, off + 48)
}

fn parse_phdr_at(image: &Vec<u8>, off: usize) -> (p: Elf64_Phdr)
    requires
        off + PHDR_SIZE <= image.len(),
    ensures
        phdr_matches(p, image@, off as int),
{
    Elf64_Phdr {
        p_type: read_u32_le(image, off),
        p_flags: read_u32_le(image, off + 4),
        p_offset: read_u64_le(image, off + 8),
        p_vaddr: read_u64_le(image, off + 16),
        p_paddr: read_u64_le(image, off + 24),
        p_filesz: read_u64_le(image, off + 32),
        p_memsz: read_u64_le(image, off + 40),
        p_align: read_u64_le(image, off + 48),
    }
}

/// The header's program header table lies inside the image: the declared
/// entry size is the ELF64 one and count times size fits below the image end.
pub open spec fn phdr_table_in_bounds(h: Elf64_Ehdr, image_len: int) -> bool {
    &&& h.e_phentsize == PHDR_SIZE
    &&& h.e_phoff + PHDR_SIZE * h.e_phnum <= image_len
}

/// Read the whole program header table that `h` declares, validating its
/// bounds against the image first. Fails exactly when the declared table
/// does not lie inside the image.
pub fn parse_phdrs(image: &Vec<u8>, h: &Elf64_Ehdr) -> (r: Result<Vec<Elf64_Phdr>, ElfStatus>)
    ensures
        r is Ok <==> phdr_table_in_bounds(*h, image.len() as int),
        r matches Ok(v) ==> {
            &&& v@.len() == h.e_phnum
            &&& forall|j: int|
                0 <= j < v@.len() ==> phdr_matches(
                    #[trigger] v@[j],
                    image@,
                    h.e_phoff + PHDR_SIZE * j,
                )
        },
        r matches Err(e) ==> e == ElfStatus::Invalid,
{
    if h.e_phentsize as usize != PHDR_SIZE {
        return Err(ElfStatus::Invalid);
    }
    let n = h.e_phnum as u64;
    if h.e_phoff > image.len() as u64 || PHDR_SIZE as u64 * n > image.len() as u64 - h.e_phoff {
        return Err(ElfStatus::Invalid);
    }
    let off0 = h.e_phoff as usize;
    let mut v: Vec<Elf64_Phdr> = Vec::new();
    let mut j: usize = 0;
    while j < h.e_phnum as usize
        invariant
            j <= h.e_phnum,
            v@.len() == j,
            off0 == h.e_phoff,
            h.e_phoff + PHDR_SIZE * h.e_phnum <= image.len(),
            forall|k: int|
                0 <= k < j ==> phdr_matches(#[trigger] v@[k], image@, h.e_phoff + PHDR_SIZE * k),
        decreases h.e_phnum - j,
    {
        let p = parse_phdr_at(image, off0 + PHDR_SIZE * j);
        v.push(p);
        j = j + 1;
    }
    Ok(v)
}

/// The entry is one the loader maps.
pub open spec fn is_load(p: Elf64_Phdr) -> bool {
    p.p_type == PT_LOAD
}

/// First address past the copied bytes of a segment.
pub open spec fn seg_copy_end(p: Elf64_Phdr) -> int {
    p.p_vaddr + p.p_filesz
}

/// First address of the zero-filled tail: the copied bytes' end rounded up
/// to 4-byte alignment.
pub open spec fn seg_zero_start(p: Elf64_Phdr) -> int {
    spec_align4_up(p.p_vaddr + p.p_filesz)
}

/// First address past the zero-filled tail.
pub open spec fn seg_zero_end(p: Elf64_Phdr) -> int {
    seg_zero_start(p) + (p.p_memsz - p.p_filesz)
}

/// The loader writes address `a` on behalf of segment `p`.
pub open spec fn seg_touches(p: Elf64_Phdr, a: int) -> bool {
    (p.p_vaddr <= a < seg_copy_end(p)) || (seg_zero_start(p) <= a < seg_zero_end(p))
}

/// Some LOAD entry of the table writes address `a`.
pub open spec fn table_touches(phs: Seq<Elf64_Phdr>, a: int) -> bool {
    exists|j: int| 0 <= j < phs.len() && is_load(#[trigger] phs[j]) && seg_touches(phs[j], a)
}

/// A LOAD entry the loader can map: its sizes are consistent, its file bytes
/// lie inside the image, and everything it writes lies inside the memory
/// window.
pub open spec fn seg_ok(p: Elf64_Phdr, image_len: int, mem_base: int, mem_len: int) -> bool {
    &&& p.p_filesz <= p.p_memsz
    &&& p.p_offset + p.p_filesz <= image_len
    &&& p.p_vaddr + p.p_memsz + 3 <= u64::MAX
    &&& mem_base <= p.p_vaddr
    &&& seg_zero_end(p) <= mem_base + mem_len
}

/// The ranges written for two distinct LOAD entries never overlap.
pub open spec fn segs_disjoint(phs: Seq<Elf64_Phdr>) -> bool {
    forall|i: int, j: int|
        0 <= i < phs.len() && 0 <= j < phs.len() && i != j && is_load(#[trigger] phs[i]) && is_load(
            #[trigger] phs[j],
        ) ==> seg_zero_end(phs[i]) <= phs[j].p_vaddr || seg_zero_end(phs[j]) <= phs[i].p_vaddr
}

/// Memory holds segment `p` as loaded from `image`: the copied bytes equal
/// the image bytes at the segment's file offset, and the aligned tail is
/// zero.
pub open spec fn seg_loaded(mem: PhysMemory, image: Seq<u8>, p: Elf64_Phdr) -> bool {
    &&& forall|a: int|
        p.p_vaddr <= a < seg_copy_end(p) ==> #[trigger] mem.spec_at(a) == image[p.p_offset + (a
            - p.p_vaddr)]
    &&& forall|a: int| seg_zero_start(p) <= a < seg_zero_end(p) ==> #[trigger] mem.spec_at(a) == 0u8
}

proof fn lemma_align4_up_bounds(x: int)
    requires
        x >= 0,
    ensures
        x <= spec_align4_up(x) <= x + 3,
{
    vstd::arithmetic::div_mod::lemma_fundamental_div_mod(x + 3, 4);
    vstd::arithmetic::div_mod::lemma_mod_bound(x + 3, 4);
}

/// Map every LOAD entry of the table: copy `p_filesz` bytes from the image
/// at `p_offset` to the physical address `p_vaddr`, then zero-fill
/// `p_memsz - p_filesz` bytes from the next 4-byte-aligned address. Entries
/// of any other type are not touched, and neither is any address outside the
/// written ranges.
pub fn load(image: &Vec<u8>, phdrs: &Vec<Elf64_Phdr>, mem: &mut PhysMemory) -> (r: Result<
    (),
    ElfStatus,
>)
    requires
        old(mem).wf(),
        forall|j: int|
            0 <= j < phdrs@.len() && is_load(#[trigger] phdrs@[j]) ==> seg_ok(
                phdrs@[j],
                image.len() as int,
                old(mem).spec_base(),
                old(mem).contents().len() as int,
            ),
        segs_disjoint(phdrs@),
    ensures
        r is Ok,
        final(mem).spec_base() == old(mem).spec_base(),
        final(mem).contents().len() == old(mem).contents().len(),
        forall|j: int|
            0 <= j < phdrs@.len() && is_load(#[trigger] phdrs@[j]) ==> seg_loaded(
                *final(mem),
                image@,
                phdrs@[j],
            ),
        forall|a: int|
            final(mem).spec_contains(a) && !table_touches(phdrs@, a) ==> final(mem).spec_at(a)
                == old(mem).spec_at(a),
{
    let n = phdrs.len();
    let mut k: usize = 0;
    while k < n
        invariant
            n == phdrs@.len(),
            k <= n,
            mem.wf(),
            mem.spec_base() == old(mem).spec_base(),
            mem.contents().len() == old(mem).contents().len(),
            forall|j: int|
                0 <= j < phdrs@.len() && is_load(#[trigger] phdrs@[j]) ==> seg_ok(
                    phdrs@[j],
                    image.len() as int,
                    mem.spec_base(),
                    mem.contents().len() as int,
                ),
            segs_disjoint(phdrs@),
            forall|j: int|
                0 <= j < k && is_load(#[trigger] phdrs@[j]) ==> seg_loaded(*mem, image@, phdrs@[j]),
            forall|a: int|
                mem.spec_contains(a) && !table_touches(phdrs@.take(k as int), a)
                    ==> mem.spec_at(a) == old(mem).spec_at(a),
        decreases n - k,
    {
        let p = phdrs[k];
        if p.p_type == PT_LOAD {
            proof {
                assert(seg_ok(phdrs@[k as int], image.len() as int, mem.spec_base(),
                    mem.contents().len() as int));
                lemma_align4_up_bounds(p.p_vaddr + p.p_filesz);
                assert(image.len() <= usize::MAX);
                assert(mem.contents().len() <= usize::MAX);
                assert(p.p_filesz <= usize::MAX);
                assert(p.p_offset <= usize::MAX);
                assert(p.p_memsz - p.p_filesz <= usize::MAX);
            }
            let ghost pre = *mem;
            mem.copy_from(image, p.p_offset as usize, p.p_vaddr, p.p_filesz as usize);
            let zero_start = align4_up(p.p_vaddr + p.p_filesz);
            let ghost mid = *mem;
            mem.zero_fill(zero_start, (p.p_memsz - p.p_filesz) as usize);
            proof {
                lemma_load_step(phdrs@, k as int, image@, pre, mid, *mem, *old(mem));
            }
        } else {
            proof {
                assert(phdrs@.take(k as int + 1) =~= phdrs@.take(k as int).push(phdrs@[k as int]));
                assert forall|a: int|
                    mem.spec_contains(a) && !table_touches(phdrs@.take(k as int + 1), a) implies
                    mem.spec_at(a) == old(mem).spec_at(a) by {
                    assert(!table_touches(phdrs@.take(k as int), a)) by {
                        if table_touches(phdrs@.take(k as int), a) {
                            let j = choose|j: int|
                                0 <= j < phdrs@.take(k as int).len() && is_load(
                                    #[trigger] phdrs@.take(k as int)[j],
                                ) && seg_touches(phdrs@.take(k as int)[j], a);
                            assert(phdrs@.take(k as int + 1)[j] == phdrs@.take(k as int)[j]);
                        }
                    }
                }
            }
        }
        k = k + 1;
    }
    proof {
        assert(phdrs@.take(n as int) =~= phdrs@);
    }
    Ok(())
}

/// One loader step preserves what earlier steps established: segment `k` is
/// now loaded, earlier LOAD segments stay loaded, and addresses untouched by
/// the first `k + 1` entries keep their original bytes.
proof fn lemma_load_step(
    phs: Seq<Elf64_Phdr>,
    k: int,
    image: Seq<u8>,
    pre: PhysMemory,
    mid: PhysMemory,
    post: PhysMemory,
    orig: PhysMemory,
)
    requires
        0 <= k < phs.len(),
        is_load(phs[k]),
        forall|j: int|
            0 <= j < phs.len() && is_load(#[trigger] phs[j]) ==> seg_ok(
                phs[j],
                image.len() as int,
                pre.spec_base(),
                pre.contents().len() as int,
            ),
        segs_disjoint(phs),
        // what held before this step
        forall|j: int| 0 <= j < k && is_load(#[trigger] phs[j]) ==> seg_loaded(pre, image, phs[j]),
        forall|a: int|
            pre.spec_contains(a) && !table_touches(phs.take(k), a) ==> pre.spec_at(a)
                == orig.spec_at(a),
        // the copy
        mid.spec_base() == pre.spec_base(),
        mid.contents().len() == pre.contents().len(),
        forall|a: int|
            phs[k].p_vaddr <= a < seg_copy_end(phs[k]) ==> #[trigger] mid.spec_at(a)
                == image[phs[k].p_offset + (a - phs[k].p_vaddr)],
        forall|a: int|
            mid.spec_contains(a) && !(phs[k].p_vaddr <= a < seg_copy_end(phs[k]))
                ==> #[trigger] mid.spec_at(a) == pre.spec_at(a),
        // the zero fill
        post.spec_base() == mid.spec_base(),
        post.contents().len() == mid.contents().len(),
        forall|a: int|
            seg_zero_start(phs[k]) <= a < seg_zero_end(phs[k]) ==> #[trigger] post.spec_at(a)
                == 0u8,
        forall|a: int|
            post.spec_contains(a) && !(seg_zero_start(phs[k]) <= a < seg_zero_end(phs[k]))
                ==> #[trigger] post.spec_at(a) == mid.spec_at(a),
    ensures
        forall|j: int|
            0 <= j < k + 1 && is_load(#[trigger] phs[j]) ==> seg_loaded(post, image, phs[j]),
        forall|a: int|
            post.spec_contains(a) && !table_touches(phs.take(k + 1), a) ==> post.spec_at(a)
                == orig.spec_at(a),
{
    lemma_align4_up_bounds(phs[k].p_vaddr + phs[k].p_filesz);
    assert forall|j: int| 0 <= j < k + 1 && is_load(#[trigger] phs[j]) implies seg_loaded(
        post,
        image,
        phs[j],
    ) by {
        if j == k {
            assert forall|a: int| phs[k].p_vaddr <= a < seg_copy_end(phs[k]) implies
                #[trigger] post.spec_at(a) == image[phs[k].p_offset + (a - phs[k].p_vaddr)] by {
                assert(post.spec_at(a) == mid.spec_at(a));
            }
        } else {
            assert(seg_loaded(pre, image, phs[j]));
            assert(seg_zero_end(phs[j]) <= phs[k].p_vaddr || seg_zero_end(phs[k])
                <= phs[j].p_vaddr);
            lemma_align4_up_bounds(phs[j].p_vaddr + phs[j].p_filesz);
            assert forall|a: int| phs[j].p_vaddr <= a < seg_copy_end(phs[j]) implies
                #[trigger] post.spec_at(a) == image[phs[j].p_offset + (a - phs[j].p_vaddr)] by {
                assert(pre.spec_at(a) == image[phs[j].p_offset + (a - phs[j].p_vaddr)]);
                assert(pre.spec_contains(a));
                assert(mid.spec_at(a) == pre.spec_at(a));
                assert(post.spec_at(a) == mid.spec_at(a));
            }
            assert forall|a: int| seg_zero_start(phs[j]) <= a < seg_zero_end(phs[j]) implies
                #[trigger] post.spec_at(a) == 0u8 by {
                assert(pre.spec_at(a) == 0u8);
                assert(pre.spec_contains(a));
                assert(mid.spec_at(a) == pre.spec_at(a));
                assert(post.spec_at(a) == mid.spec_at(a));
            }
        }
    }
    assert forall|a: int| post.spec_contains(a) && !table_touches(phs.take(k + 1), a) implies
        post.spec_at(a) == orig.spec_at(a) by {
        assert(phs.take(k + 1)[k] == phs[k]);
        assert(!seg_touches(phs[k], a));
        assert(!table_touches(phs.take(k), a)) by {
            if table_touches(phs.take(k), a) {
                let j = choose|j: int|
                    0 <= j < phs.take(k).len() && is_load(#[trigger] phs.take(k)[j]) && seg_touches(
                        phs.take(k)[j],
                        a,
                    );
                assert(phs.take(k + 1)[j] == phs.take(k)[j]);
            }
        }
        assert(mid.spec_at(a) == pre.spec_at(a));
        assert(post.spec_at(a) == mid.spec_at(a));
    }
}

/// The lowest LOAD virtual address among the first `n` entries, or the
/// largest 64-bit value when none is LOAD.
pub open spec fn first_load_addr(phs: Seq<Elf64_Phdr>, n: int) -> int
    decreases n,
{
    if n <= 0 {
        u64::MAX as int
    } else {
        let prev = first_load_addr(phs, n - 1);
        if is_load(phs[n - 1]) && phs[n - 1].p_vaddr < prev {
            phs[n - 1].p_vaddr as int
        } else {
            prev
        }
    }
}

/// The highest LOAD segment end (virtual address plus memory size) among the
/// first `n` entries, or zero when none is LOAD.
pub open spec fn last_load_end(phs: Seq<Elf64_Phdr>, n: int) -> int
    decreases n,
{
    if n <= 0 {
        0
    } else {
        let prev = last_load_end(phs, n - 1);
        if is_load(phs[n - 1]) && phs[n - 1].p_vaddr + phs[n - 1].p_memsz > prev {
            phs[n - 1].p_vaddr + phs[n - 1].p_memsz
        } else {
            prev
        }
    }
}

/// The span of the LOAD segments: the lowest LOAD virtual address and the
/// highest LOAD end address over the whole table.
pub fn get_pt_load_first_end(phdrs: &Vec<Elf64_Phdr>) -> (r: Result<(u64, u64), ElfStatus>)
    requires
        forall|j: int|
            0 <= j < phdrs@.len() && is_load(#[trigger] phdrs@[j]) ==> phdrs@[j].p_vaddr
                + phdrs@[j].p_memsz <= u64::MAX,
    ensures
        r matches Ok(fe) && fe.0 == first_load_addr(phdrs@, phdrs@.len() as int) && fe.1
            == last_load_end(phdrs@, phdrs@.len() as int),
{
    let mut first: u64 = u64::MAX;
    let mut end: u64 = 0;
    let n = phdrs.len();
    let mut k: usize = 0;
    while k < n
        invariant
            n == phdrs@.len(),
            k <= n,
            first == first_load_addr(phdrs@, k as int),
            end == last_load_end(phdrs@, k as int),
            forall|j: int|
                0 <= j < phdrs@.len() && is_load(#[trigger] phdrs@[j]) ==> phdrs@[j].p_vaddr
                    + phdrs@[j].p_memsz <= u64::MAX,
        decreases n - k,
    {
        let p = phdrs[k];
        if p.p_type == PT_LOAD {
            if p.p_vaddr < first {
                first = p.p_vaddr;
            }
            if p.p_vaddr + p.p_memsz > end {
                end = p.p_vaddr + p.p_memsz;
            }
        }
        k = k + 1;
    }
    Ok((first, end))
}

/// Offset from the image start of the header's declared entry-point field.
pub const ENTRY_POINT_OFFSET: u64 = 24;

/// The declared entry point of a loaded image: the 64-bit little-endian
/// value stored at the fixed entry-field offset past `image_base`. The
/// hand-off jumps to the address read here.
pub fn kernel_entry_address(mem: &PhysMemory, image_base: u64) -> (r: u64)
    requires
        mem.wf(),
        mem.spec_base() <= image_base,
        image_base + ENTRY_POINT_OFFSET + 8 <= mem.spec_base() + mem.contents().len(),
    ensures
        r == spec_le_u64(mem.contents(), image_base + ENTRY_POINT_OFFSET - mem.spec_base()),
{
    mem.read_u64_le(image_base + ENTRY_POINT_OFFSET)
}

} // verus!
