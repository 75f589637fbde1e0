//! The diagnostic memory-map log: one header line, then one row per memory
//! descriptor with index, type, type name, physical start, page count and
//! attribute, the numeric fields in hexadecimal.

use vstd::prelude::*;

use crate::uefi::{descriptor_at, spec_memory_type_name, EfiMemoryDescriptor,
    get_memory_map_unicode, parse_memory_descriptor};

verus! {

/// The digit character for one value below sixteen.
pub open spec fn digit_char(d: int) -> char {
    if d == 0 {
        '0'
    } else if d == 1 {
        '1'
    } else if d == 2 {
        '2'
    } else if d == 3 {
        '3'
    } else if d == 4 {
        '4'
    } else if d == 5 {
        '5'
    } else if d == 6 {
        '6'
    } else if d == 7 {
        '7'
    } else if d == 8 {
        '8'
    } else if d == 9 {
        '9'
    } else if d == 10 {
        'a'
    } else if d == 11 {
        'b'
    } else if d == 12 {
        'c'
    } else if d == 13 {
        'd'
    } else if d == 14 {
        'e'
    } else {
        'f'
    }
}

/// The decimal digits of `n`, most significant first, no leading zeros.
pub open spec fn dec_chars(n: int) -> Seq<char>
    decreases n,
{
    if n < 10 {
        seq![digit_char(n)]
    } else {
        dec_chars(n / 10) + seq![digit_char(n % 10)]
    }
}

/// The lower-case hexadecimal digits of `n`, most significant first, no
/// leading zeros.
pub open spec fn hex_chars(n: int) -> Seq<char>
    decreases n,
{
    if n < 16 {
        seq![digit_char(n)]
    } else {
        hex_chars(n / 16) + seq![digit_char(n % 16)]
    }
}

fn digit_char_of(d: u64) -> (r: char)
    requires
        d < 16,
    ensures
        r == digit_char(d as int),
{
    match d {
        0 => '0',
        1 => '1',
        2 => '2',
        3 => '3',
        4 => '4',
        5 => '5',
        6 => '6',
        7 => '7',
        8 => '8',
        9 => '9',
        10 => 'a',
        11 => 'b',
        12 => 'c',
        13 => 'd',
        14 => 'e',
        _ => 'f',
    }
}

/// Render `n` in decimal.
pub fn dec_chars_u64(n: u64) -> (r: Vec<char>)
    ensures
        r@ == dec_chars(n as int),
    decreases n,
{
    if n < 10 {
        let mut v: Vec<char> = Vec::new();
        v.push(digit_char_of(n));
        proof {
            assert(v@ =~= dec_chars(n as int));
        }
        v
    } else {
        let mut v = dec_chars_u64(n / 10);
        v.push(digit_char_of(n % 10));
        proof {
            assert(v@ =~= dec_chars(n as int));
        }
        v
    }
}

/// Render `n` in lower-case hexadecimal.
pub fn hex_chars_u64(n: u64) -> (r: Vec<char>)
    ensures
        r@ == hex_chars(n as int),
    decreases n,
{
    if n < 16 {
        let mut v: Vec<char> = Vec::new();
        v.push(digit_char_of(n));
        proof {
            assert(v@ =~= hex_chars(n as int));
        }
        v
    } else {
        let mut v = hex_chars_u64(n / 16);
        v.push(digit_char_of(n % 16));
        proof {
            assert(v@ =~= hex_chars(n as int));
        }
        v
    }
}

/// Append the characters of `s` to `v`.
pub fn push_str_chars(v: &mut Vec<char>, s: &str)
    ensures
        final(v)@ == old(v)@ + s@,
{
    let n = s.unicode_len();
    let mut i: usize = 0;
    proof {
        assert(s@.take(0) =~= Seq::<char>::empty());
        assert(v@ =~= v@ + s@.take(0));
    }
    while i < n
        invariant
            i <= n,
            n == s@.len(),
            v@ == old(v)@ + s@.take(i as int),
        decreases n - i,
    {
        let c = s.get_char(i);
        proof {
            assert((old(v)@ + s@.take(i as int)).push(c) =~= old(v)@ + s@.take(i as int + 1));
        }
        v.push(c);
        i = i + 1;
    }
    proof {
        assert(s@.take(n as int) =~= s@);
    }
}

/// Append the characters of `w` to `v`.
fn push_chars(v: &mut Vec<char>, w: &Vec<char>)
    ensures
        final(v)@ == old(v)@ + w@,
{
    let n = w.len();
    let mut i: usize = 0;
    proof {
        assert(w@.take(0) =~= Seq::<char>::empty());
        assert(v@ =~= v@ + w@.take(0));
    }
    while i < n
        invariant
            i <= n,
            n == w@.len(),
            v@ == old(v)@ + w@.take(i as int),
        decreases n - i,
    {
        proof {
            assert((old(v)@ + w@.take(i as int)).push(w@[i as int]) =~= old(v)@ + w@.take(
                i as int + 1));
        }
        v.push(w[i]);
        i = i + 1;
    }
    proof {
        assert(w@.take(n as int) =~= w@);
    }
}

/// The log's header line.
pub open spec fn report_header() -> Seq<char> {
    "Index,\tType,\tType(name),\tPhysicalStart,\tNumberOfPages,\tAttribute\n"@
}

/// One log row: index in decimal, then the type in hexadecimal, its name,
/// and physical start, page count and attribute in hexadecimal, the fields
/// separated by comma-tab, the numbers after `0x`.
pub open spec fn report_row(index: int, d: EfiMemoryDescriptor) -> Seq<char> {
    dec_chars(index) + ",\t0x"@ + hex_chars(d.memory_type as int) + ",\t"@
        + spec_memory_type_name(d.memory_type) + ",\t0x"@ + hex_chars(d.physical_start as int)
        + ",\t0x"@ + hex_chars(d.number_of_pages as int) + ",\t0x"@ + hex_chars(
        d.attribute as int,
    ) + "\n"@
}

/// The rows for the descriptors at `offset`, `offset + descriptor_size`,
/// and so on below `map_size`, numbered from `index`.
pub open spec fn report_rows(
    map: Seq<u8>,
    map_size: int,
    descriptor_size: int,
    index: int,
    offset: int,
) -> Seq<char>
    decreases map_size + descriptor_size - offset when descriptor_size > 0
{
    if offset >= map_size {
        Seq::empty()
    } else {
        report_row(index, descriptor_at(map, offset)) + report_rows(
            map,
            map_size,
            descriptor_size,
            index + 1,
            offset + descriptor_size,
        )
    }
}

/// Between two multiples of `d` lies at least one whole step.
proof fn lemma_multiple_step(a: int, b: int, d: int)
    requires
        d > 0,
        a % d == 0,
        b % d == 0,
        a < b,
    ensures
        a + d <= b,
{
    vstd::arithmetic::div_mod::lemma_fundamental_div_mod(a, d);
    vstd::arithmetic::div_mod::lemma_fundamental_div_mod(b, d);
    assert(a == d * (a / d));
    assert(b == d * (b / d));
    assert(a / d < b / d) by (nonlinear_arith)
        requires
            d > 0,
            a == d * (a / d),
            b == d * (b / d),
            a < b,
    ;
    assert(d * (a / d) + d <= d * (b / d)) by (nonlinear_arith)
        requires
            d > 0,
            a / d < b / d,
    ;
}

/// Build one descriptor's log row.
pub fn format_report_row(index: u64, d: &EfiMemoryDescriptor) -> (r: Vec<char>)
    ensures
        r@ == report_row(index as int, *d),
{
    let mut v: Vec<char> = Vec::new();
    let w = dec_chars_u64(index);
    push_chars(&mut v, &w);
    push_str_chars(&mut v, ",\t0x");
    let w = hex_chars_u64(d.memory_type as u64);
    push_chars(&mut v, &w);
    push_str_chars(&mut v, ",\t");
    push_str_chars(&mut v, get_memory_map_unicode(d.memory_type));
    push_str_chars(&mut v, ",\t0x");
    let w = hex_chars_u64(d.physical_start);
    push_chars(&mut v, &w);
    push_str_chars(&mut v, ",\t0x");
    let w = hex_chars_u64(d.number_of_pages);
    push_chars(&mut v, &w);
    push_str_chars(&mut v, ",\t0x");
    let w = hex_chars_u64(d.attribute);
    push_chars(&mut v, &w);
    push_str_chars(&mut v, "\n");
    proof {
        assert(v@ =~= report_row(index as int, *d));
    }
    v
}

/// Build the whole memory-map log: the header, then one row per
/// descriptor-stride slot of the raw buffer below `map_size`. Writing the
/// result to the log file is the caller's part.
pub fn memory_map_report(map: &Vec<u8>, map_size: usize, descriptor_size: usize) -> (r: Vec<char>)
    requires
        descriptor_size >= 40,
        map_size <= map.len(),
        map_size % descriptor_size == 0,
        map_size < u64::MAX,
    ensures
        r@ == report_header() + report_rows(
            map@,
            map_size as int,
            descriptor_size as int,
            0,
            0,
        ),
{
    let mut v: Vec<char> = Vec::new();
    push_str_chars(&mut v, "Index,\tType,\tType(name),\tPhysicalStart,\tNumberOfPages,\tAttribute\n");
    let mut index: u64 = 0;
    let mut offset: usize = 0;
    proof {
        assert(v@ =~= report_header());
        vstd::arithmetic::div_mod::lemma_mod_self_0(descriptor_size as int);
        vstd::arithmetic::div_mod::lemma_small_mod(0, descriptor_size as nat);
    }
    while offset < map_size
        invariant
            descriptor_size >= 40,
            map_size <= map.len(),
            (map_size as int) % (descriptor_size as int) == 0,
            map_size < u64::MAX,
            (offset as int) % (descriptor_size as int) == 0,
            offset <= map_size,
            index as int * 40 <= offset as int,
            index < u64::MAX,
            v@ + report_rows(map@, map_size as int, descriptor_size as int, index as int,
                offset as int) == report_header() + report_rows(map@, map_size as int,
                descriptor_size as int, 0, 0),
        decreases map_size - offset,
    {
        proof {
            lemma_multiple_step(offset as int, map_size as int, descriptor_size as int);
        }
        let d = parse_memory_descriptor(map, offset);
        let row = format_report_row(index, &d);
        let ghost pre = v@;
        push_chars(&mut v, &row);
        proof {
            assert(v@ + report_rows(map@, map_size as int, descriptor_size as int,
                index as int + 1, offset as int + descriptor_size) =~= pre + report_rows(map@,
                map_size as int, descriptor_size as int, index as int, offset as int));
            assert(((offset + descriptor_size) as int) % (descriptor_size as int) == 0) by {
                vstd::arithmetic::div_mod::lemma_mod_add_multiples_vanish(
                    offset as int,
                    descriptor_size as int,
                );
            }
        }
        index = index + 1;
        offset = offset + descriptor_size;
    }
    proof {
        assert(report_rows(map@, map_size as int, descriptor_size as int, index as int,
            offset as int) =~= Seq::<char>::empty());
        assert(v@ =~= v@ + Seq::<char>::empty());
    }
    v
}

} // verus!
