//! Byte offsets of code points.
//!
//! A pretoken's offset counts bytes while the scanner counts code points. The
//! two are tied by the UTF-8 encoding of the input.

use vstd::prelude::*;
use vstd::utf8::{encode_scalar, encode_utf8};

verus! {

/// The number of bytes that `chars` takes in UTF-8.
pub open spec fn byte_len(chars: Seq<char>) -> int {
    encode_utf8(chars).len() as int
}

/// The byte offset in `text` of the code point with index `i`.
pub open spec fn byte_offset(text: Seq<char>, i: int) -> int {
    byte_len(text.take(i))
}

/// A code point takes between one and four bytes.
pub proof fn lemma_scalar_len(c: char)
    ensures
        1 <= encode_scalar(c as u32).len() <= 4,
{
}

/// The encoding of a concatenation is the concatenation of the encodings.
pub proof fn lemma_encode_concat(a: Seq<char>, b: Seq<char>)
    ensures
        encode_utf8(a + b) == encode_utf8(a) + encode_utf8(b),
    decreases a.len(),
{
    if a.len() == 0 {
        assert(a + b == b);
        assert(encode_utf8(a) + encode_utf8(b) == encode_utf8(b));
    } else {
        lemma_encode_concat(a.drop_first(), b);
        assert((a + b).drop_first() == a.drop_first() + b);
        assert(encode_utf8(a + b) == encode_scalar(a[0] as u32) + (encode_utf8(a.drop_first())
            + encode_utf8(b)));
    }
}

/// No text takes fewer bytes than it has code points.
pub proof fn lemma_byte_len_lower(chars: Seq<char>)
    ensures
        chars.len() <= byte_len(chars),
    decreases chars.len(),
{
    if chars.len() > 0 {
        lemma_scalar_len(chars[0]);
        lemma_byte_len_lower(chars.drop_first());
    }
}

/// The bytes of a span lie in the input's encoding between the span's byte
/// offsets.
pub proof fn lemma_span_bytes(text: Seq<char>, start: int, end: int)
    requires
        0 <= start <= end <= text.len(),
    ensures
        0 <= byte_offset(text, start) <= byte_offset(text, end) <= byte_len(text),
        byte_offset(text, end) == byte_offset(text, start) + byte_len(text.subrange(start, end)),
        encode_utf8(text).subrange(byte_offset(text, start), byte_offset(text, end))
            == encode_utf8(text.subrange(start, end)),
        start < end ==> byte_offset(text, start) < byte_offset(text, end),
{
    let head = text.take(start);
    let mid = text.subrange(start, end);
    let tail = text.skip(end);
    assert(text.take(end) == head + mid);
    assert(text == text.take(end) + tail);
    lemma_encode_concat(head, mid);
    lemma_encode_concat(text.take(end), tail);
    lemma_byte_len_lower(mid);
    assert(encode_utf8(text).subrange(byte_offset(text, start), byte_offset(text, end))
        == encode_utf8(mid));
}

} // verus!
