//! Texts, their UTF-8 form and their parts.

use vstd::prelude::*;
use vstd::utf8::*;

verus! {

/// The number of bytes that the first `count` characters of a text take up.
pub open spec fn byte_offset(text: Seq<char>, count: int) -> int {
    encode_utf8(text.take(count)).len() as int
}

/// The part of a text between two byte positions. There is one if the positions are in order
/// and neither falls inside a character.
pub open spec fn slice_of(text: Seq<char>, start: int, end: int) -> Option<Seq<char>> {
    let bytes = encode_utf8(text);
    if start <= end && is_char_boundary(bytes, start) && is_char_boundary(bytes, end) {
        Some(decode_utf8(bytes.subrange(start, end)))
    } else {
        None
    }
}

/// Texts with one UTF-8 form are one text.
pub proof fn lemma_utf8_injective(a: Seq<char>, b: Seq<char>)
    requires
        encode_utf8(a) == encode_utf8(b),
    ensures
        a == b,
{
    encode_utf8_decode_utf8(a);
    encode_utf8_decode_utf8(b);
}

/// The UTF-8 form of two texts in a row.
pub proof fn lemma_utf8_concat(a: Seq<char>, b: Seq<char>)
    ensures
        encode_utf8(a + b) == encode_utf8(a) + encode_utf8(b),
    decreases a.len(),
{
    if a.len() == 0 {
        assert(a + b =~= b);
    } else {
        assert((a + b).drop_first() =~= a.drop_first() + b);
        lemma_utf8_concat(a.drop_first(), b);
        assert(encode_utf8(a + b) =~= encode_utf8(a) + encode_utf8(b));
    }
}

/// Where a text is cut between two characters, the byte position of the cut is a boundary.
pub proof fn lemma_cut_is_boundary(a: Seq<char>, b: Seq<char>)
    ensures
        is_char_boundary(encode_utf8(a + b), encode_utf8(a).len() as int),
    decreases a.len(),
{
    encode_utf8_valid_utf8(a + b);
    if a.len() == 0 {
        is_char_boundary_start_end_of_seq(encode_utf8(a + b));
    } else {
        assert((a + b).drop_first() =~= a.drop_first() + b);
        lemma_utf8_concat(a, b);
        encode_utf8_first_scalar(a + b);
        lemma_cut_is_boundary(a.drop_first(), b);
        assert(pop_first_scalar(encode_utf8(a + b)) =~= encode_utf8((a + b).drop_first()));
    }
}

/// The characters between two positions are the part of the text between their byte offsets.
pub proof fn lemma_slice_at_offsets(text: Seq<char>, from: int, to: int)
    requires
        0 <= from <= to <= text.len(),
    ensures
        byte_offset(text, from) <= byte_offset(text, to) <= encode_utf8(text).len(),
        slice_of(text, byte_offset(text, from), byte_offset(text, to)) == Some(
            text.subrange(from, to),
        ),
{
    let head = text.take(from);
    let part = text.subrange(from, to);
    let tail = text.skip(to);
    assert(text =~= head + (part + tail));
    assert(text =~= (head + part) + tail);
    assert(text.take(to) =~= head + part);
    lemma_utf8_concat(head, part + tail);
    lemma_utf8_concat(head, part);
    lemma_utf8_concat(head + part, tail);
    lemma_cut_is_boundary(head, part + tail);
    lemma_cut_is_boundary(head + part, tail);
    assert(encode_utf8(text).subrange(byte_offset(text, from), byte_offset(text, to))
        =~= encode_utf8(part));
    encode_utf8_decode_utf8(part);
}

/// One more character takes up the bytes of its UTF-8 form.
pub proof fn lemma_byte_offset_step(text: Seq<char>, count: int)
    requires
        0 <= count < text.len(),
    ensures
        byte_offset(text, count + 1) == byte_offset(text, count) + encode_scalar(
            text[count] as u32,
        ).len(),
        byte_offset(text, count + 1) <= encode_utf8(text).len(),
{
    let last = seq![text[count]];
    assert(text.take(count + 1) =~= text.take(count) + last);
    assert(text =~= text.take(count + 1) + text.skip(count + 1));
    lemma_utf8_concat(text.take(count), last);
    lemma_utf8_concat(text.take(count + 1), text.skip(count + 1));
    reveal_with_fuel(encode_utf8, 2);
    assert(last.drop_first() =~= Seq::<char>::empty());
    assert(encode_utf8(last) =~= encode_scalar(text[count] as u32));
}

/// A text has at most as many characters as bytes, and at least one if it has a byte.
pub proof fn lemma_utf8_len(text: Seq<char>)
    ensures
        text.len() <= encode_utf8(text).len(),
        encode_utf8(text).len() == 0 <==> text.len() == 0,
    decreases text.len(),
{
    if text.len() > 0 {
        lemma_utf8_len(text.drop_first());
    }
}

/// The number of bytes of a text.
pub fn byte_len(text: &str) -> (len: usize)
    ensures
        len == encode_utf8(text@).len(),
{
    text.as_bytes().len()
}

/// The number of bytes that a character takes up.
pub fn char_width(c: char) -> (width: usize)
    ensures
        width == encode_scalar(c as u32).len(),
{
    let scalar: u32 = c as u32;
    if scalar < 0x80 {
        1
    } else if scalar < 0x800 {
        2
    } else if scalar < 0x10000 {
        3
    } else {
        4
    }
}

/// Whether two texts are the same.
pub fn same_text(a: &str, b: &str) -> (same: bool)
    ensures
        same == (a@ == b@),
{
    let a_bytes = a.as_bytes();
    let b_bytes = b.as_bytes();
    if a_bytes.len() != b_bytes.len() {
        return false;
    }
    let mut i: usize = 0;
    while i < a_bytes.len()
        invariant
            i <= a_bytes.len(),
            a_bytes@.len() == b_bytes@.len(),
            a_bytes@ == encode_utf8(a@),
            b_bytes@ == encode_utf8(b@),
            forall|k: int| 0 <= k < i ==> a_bytes@[k] == b_bytes@[k],
        decreases a_bytes.len() - i,
    {
        if a_bytes[i] != b_bytes[i] {
            return false;
        }
        i += 1;
    }
    proof {
        assert(a_bytes@ =~= b_bytes@);
        lemma_utf8_injective(a@, b@);
    }
    true
}

/// The part of `text` between two byte positions, or nothing where [`slice_of`] has nothing.
pub fn slice(text: &str, start: usize, end: usize) -> (part: Option<&str>)
    ensures
        match part {
            Some(part) => slice_of(text@, start as int, end as int) == Some(part@),
            None => slice_of(text@, start as int, end as int) is None,
        },
{
    proof {
        encode_utf8_valid_utf8(text@);
    }
    if start <= end && text.is_char_boundary(start) && text.is_char_boundary(end) {
        let (head, _) = text.split_at(end);
        proof {
            lemma_boundary_of_prefix(encode_utf8(text@), start as int, end as int);
        }
        let (_, part) = head.split_at(start);
        proof {
            assert(encode_utf8(part@) =~= encode_utf8(text@).subrange(start as int, end as int));
            encode_utf8_decode_utf8(part@);
        }
        Some(part)
    } else {
        None
    }
}

/// Calls [`String::from_utf8`], which takes bytes for a text if they are valid UTF-8.
#[verifier::external_body]
pub(crate) fn text_from_utf8(bytes: Vec<u8>) -> (text: Option<String>)
    ensures
        match text {
            Some(text) => valid_utf8(bytes@) && text@ == decode_utf8(bytes@),
            None => !valid_utf8(bytes@),
        },
{
    match String::from_utf8(bytes) {
        Ok(text) => Some(text),
        Err(_) => None,
    }
}

/// What lies between two boundaries of a text is a text.
pub proof fn lemma_part_is_valid(bytes: Seq<u8>, start: int, end: int)
    requires
        valid_utf8(bytes),
        is_char_boundary(bytes, start),
        is_char_boundary(bytes, end),
        start <= end,
    ensures
        0 <= start <= end <= bytes.len(),
        valid_utf8(bytes.subrange(start, end)),
{
    lemma_boundary_of_prefix(bytes, start, end);
    let prefix = bytes.subrange(0, end);
    valid_utf8_split(prefix, start);
    assert(prefix.subrange(start, prefix.len() as int) =~= bytes.subrange(start, end));
}

/// A boundary of a text is a boundary of each prefix that is cut at or behind it.
proof fn lemma_boundary_of_prefix(bytes: Seq<u8>, index: int, end: int)
    requires
        valid_utf8(bytes),
        is_char_boundary(bytes, index),
        is_char_boundary(bytes, end),
        0 <= index <= end,
    ensures
        end <= bytes.len(),
        valid_utf8(bytes.subrange(0, end)),
        is_char_boundary(bytes.subrange(0, end), index),
{
    let prefix = bytes.subrange(0, end);
    valid_utf8_split(bytes, end);
    if index < end {
        is_char_boundary_iff_not_is_continuation_byte(bytes, index);
        is_char_boundary_iff_not_is_continuation_byte(prefix, index);
    } else {
        is_char_boundary_start_end_of_seq(prefix);
    }
}

} // verus!
