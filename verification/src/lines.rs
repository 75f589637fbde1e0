//! Fixed-capacity console line buffers, held in `heapless` strings. The
//! console's contracts speak of a buffer's characters and of its UTF-8 byte
//! length through the names below; the wrappers state what the `heapless`
//! operations do to them.

use vstd::prelude::*;

verus! {

#[verifier::external_type_specification]
#[verifier::external_body]
pub struct ExHeaplessString<const N: usize>(heapless::String<N>);

/// The characters a line buffer holds, in order.
pub uninterp spec fn line_chars(s: heapless::String<80>) -> Seq<char>;

/// The number of UTF-8 bytes a line buffer holds; its capacity bounds this,
/// not the character count.
pub uninterp spec fn line_byte_len(s: heapless::String<80>) -> int;

/// Bytes of the UTF-8 encoding of one character, by code point range.
pub open spec fn utf8_len(c: char) -> int {
    if (c as int) < 0x80 {
        1
    } else if (c as int) < 0x800 {
        2
    } else if (c as int) < 0x10000 {
        3
    } else {
        4
    }
}

/// Bytes of the UTF-8 encoding of a character sequence.
pub open spec fn utf8_len_of(cs: Seq<char>) -> int
    decreases cs.len(),
{
    if cs.len() == 0 {
        0
    } else {
        utf8_len_of(cs.drop_last()) + utf8_len(cs.last())
    }
}

/// Appending a character adds exactly its own bytes.
pub proof fn lemma_utf8_len_of_push(cs: Seq<char>, c: char)
    ensures
        utf8_len_of(cs.push(c)) == utf8_len_of(cs) + utf8_len(c),
{
    assert(cs.push(c).drop_last() =~= cs);
    assert(cs.push(c).last() == c);
}

/// The encoding starts with the first character's bytes.
pub proof fn lemma_utf8_len_of_cons(cs: Seq<char>)
    requires
        cs.len() > 0,
    ensures
        utf8_len_of(cs) == utf8_len(cs[0]) + utf8_len_of(cs.subrange(1, cs.len() as int)),
    decreases cs.len(),
{
    if cs.len() == 1 {
        assert(cs.drop_last() =~= Seq::<char>::empty());
        assert(cs.subrange(1, cs.len() as int) =~= Seq::<char>::empty());
    } else {
        lemma_utf8_len_of_cons(cs.drop_last());
        assert(cs.drop_last()[0] == cs[0]);
        assert(cs.drop_last().subrange(1, cs.drop_last().len() as int) =~= cs.subrange(
            1,
            cs.len() as int,
        ).drop_last());
        assert(cs.subrange(1, cs.len() as int).last() == cs.last());
    }
}

/// An encoding is at least one byte per character.
pub proof fn lemma_utf8_len_of_ge_len(cs: Seq<char>)
    ensures
        utf8_len_of(cs) >= cs.len(),
    decreases cs.len(),
{
    if cs.len() > 0 {
        lemma_utf8_len_of_ge_len(cs.drop_last());
    }
}

/// Relies on heapless::String::new: a fresh string is empty.
#[verifier::external_body]
pub(crate) fn line_new() -> (s: heapless::String<80>)
    ensures
        line_chars(s) == Seq::<char>::empty(),
        line_byte_len(s) == 0,
{
    heapless::String::new()
}

/// Relies on heapless::String::push: appends the character when its UTF-8
/// bytes fit the remaining capacity, and otherwise fails leaving the string
/// unchanged.
#[verifier::external_body]
pub(crate) fn line_push(s: &mut heapless::String<80>, c: char) -> (r: Result<(), ()>)
    ensures
        r is Ok <==> line_byte_len(*old(s)) + utf8_len(c) <= 80,
        r is Ok ==> line_chars(*final(s)) == line_chars(*old(s)).push(c) && line_byte_len(
            *final(s),
        ) == line_byte_len(*old(s)) + utf8_len(c),
        r is Err ==> *final(s) == *old(s),
{
    s.push(c)
}

/// Relies on heapless::String's Clone: the copy holds the same bytes.
#[verifier::external_body]
pub(crate) fn line_clone(s: &heapless::String<80>) -> (t: heapless::String<80>)
    ensures
        line_chars(t) == line_chars(*s),
        line_byte_len(t) == line_byte_len(*s),
{
    s.clone()
}

/// Relies on heapless::String::as_str: the string's characters, in order.
#[verifier::external_body]
pub(crate) fn line_to_chars(s: &heapless::String<80>) -> (v: Vec<char>)
    ensures
        v@ == line_chars(*s),
{
    s.as_str().chars().collect()
}

} // verus!
