//! Byte ranges into a text, and the part of a text that a range covers.

use vstd::prelude::*;
use vstd::string::*;
use vstd::utf8::*;

verus! {

/// A half-open range `start..end` of byte offsets into the UTF-8 encoding
/// of a text.
#[derive(Clone, Copy, Debug, PartialEq, Eq)]
pub struct TextRange {
    pub start: u32,
    pub end: u32,
}

/// The range lies inside `text` and both of its ends fall between two
/// characters.
pub open spec fn range_in_text(text: Seq<char>, range: TextRange) -> bool {
    let bytes = encode_utf8(text);
    &&& range.start <= range.end <= bytes.len()
    &&& is_char_boundary(bytes, range.start as int)
    &&& is_char_boundary(bytes, range.end as int)
}

/// The characters of `text` whose encoding occupies the bytes of `range`.
pub open spec fn text_at(text: Seq<char>, range: TextRange) -> Seq<char> {
    decode_utf8(encode_utf8(text).subrange(range.start as int, range.end as int))
}

/// In valid UTF-8 an index that is a character boundary of the whole is
/// also one of the part that starts at an earlier boundary.
proof fn lemma_boundary_of_tail(bytes: Seq<u8>, start: int, end: int)
    requires
        valid_utf8(bytes),
        0 <= start <= end <= bytes.len(),
        is_char_boundary(bytes, start),
        is_char_boundary(bytes, end),
    ensures
        valid_utf8(bytes.subrange(start, bytes.len() as int)),
        is_char_boundary(bytes.subrange(start, bytes.len() as int), end - start),
{
    let tail = bytes.subrange(start, bytes.len() as int);
    valid_utf8_split(bytes, start);
    if end == bytes.len() {
        is_char_boundary_start_end_of_seq(tail);
    } else {
        is_char_boundary_iff_not_is_continuation_byte(bytes, end);
        is_char_boundary_iff_not_is_continuation_byte(tail, end - start);
        assert(tail[end - start] == bytes[end]);
    }
}

/// What a range covers is a part of the text as it stands: the text is
/// what precedes the range, what the range covers and what follows it, and
/// what precedes it and what it covers take up its bytes exactly.
pub proof fn lemma_text_at_is_part(text: Seq<char>, range: TextRange)
    requires
        range_in_text(text, range),
    ensures
        exists|before: Seq<char>, after: Seq<char>|
            {
                &&& text == before + text_at(text, range) + after
                &&& encode_utf8(before).len() == range.start
                &&& encode_utf8(text_at(text, range)).len() == range.end - range.start
            },
{
    let bytes = encode_utf8(text);
    let start = range.start as int;
    let end = range.end as int;
    let head = bytes.subrange(0, start);
    let tail = bytes.subrange(start, bytes.len() as int);
    let part = bytes.subrange(start, end);
    let rest = bytes.subrange(end, bytes.len() as int);
    encode_utf8_valid_utf8(text);
    encode_utf8_decode_utf8(text);
    lemma_boundary_of_tail(bytes, start, end);
    valid_utf8_split(bytes, start);
    decode_utf8_split(bytes, start);
    valid_utf8_split(tail, end - start);
    decode_utf8_split(tail, end - start);
    assert(tail.subrange(0, end - start) =~= part);
    assert(tail.subrange(end - start, tail.len() as int) =~= rest);
    decode_utf8_encode_utf8(head);
    decode_utf8_encode_utf8(part);
    let before = decode_utf8(head);
    let after = decode_utf8(rest);
    assert(text =~= before + text_at(text, range) + after);
}

/// Whether `range` can be cut out of `source`.
pub fn contains_range(source: &str, range: TextRange) -> (b: bool)
    ensures
        b == range_in_text(source@, range),
{
    proof {
        encode_utf8_valid_utf8(source@);
    }
    let len = source.as_bytes().len();
    range.start <= range.end && range.end as usize <= len && source.is_char_boundary(
        range.start as usize,
    ) && source.is_char_boundary(range.end as usize)
}

/// The part of `source` that `range` covers, as written.
pub fn slice(source: &str, range: TextRange) -> (s: String)
    requires
        range_in_text(source@, range),
    ensures
        s@ == text_at(source@, range),
{
    let ghost bytes = encode_utf8(source@);
    proof {
        encode_utf8_valid_utf8(source@);
        lemma_boundary_of_tail(bytes, range.start as int, range.end as int);
    }
    let (_, tail) = source.split_at(range.start as usize);
    let (part, _) = tail.split_at((range.end - range.start) as usize);
    proof {
        assert(part.spec_bytes() =~= bytes.subrange(range.start as int, range.end as int));
        encode_utf8_decode_utf8(part@);
    }
    part.to_owned()
}

} // verus!
