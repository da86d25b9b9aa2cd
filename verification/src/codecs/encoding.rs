use vstd::prelude::*;
use vstd::utf8::char_is_scalar;
use vstd::utf8::char_u32_cast;
use vstd::utf8::encode_scalar;
use vstd::utf8::encode_utf8;
use vstd::utf8::has_width_1_encoding;

verus! {

/// Whether `c` is an ASCII character, which UTF-8 encodes as the one byte of its own number.
pub open spec fn is_ascii_char(c: char) -> bool {
    (c as u32) < 0x80
}

/// Whether `x` occurs nowhere in `s`.
pub open spec fn lacks<T>(s: Seq<T>, x: T) -> bool {
    forall|i: int| 0 <= i < s.len() ==> s[i] != x
}

proof fn lemma_one_byte_scalar(v: u32)
    by (bit_vector)
    requires
        v <= 0x7F,
    ensures
        (v & 0x7F) as u8 == v as u8,
        ((v & 0x7F) as u8) as u32 == v,
{
}

proof fn lemma_high_bytes(v: u32)
    by (bit_vector)
    ensures
        0xC0u8 | ((v >> 6) & 0x1F) as u8 >= 0x80,
        0xE0u8 | ((v >> 12) & 0x0F) as u8 >= 0x80,
        0xF0u8 | ((v >> 18) & 0x7) as u8 >= 0x80,
        0x80u8 | (v & 0x3F) as u8 >= 0x80,
        0x80u8 | ((v >> 6) & 0x3F) as u8 >= 0x80,
        0x80u8 | ((v >> 12) & 0x3F) as u8 >= 0x80,
{
}

/// The encoding of one character is one to four bytes: the character's own number where
/// it is ASCII, and bytes that are no ASCII characters where it is not.
pub proof fn lemma_encode_scalar_bytes(c: char)
    ensures
        1 <= encode_scalar(c as u32).len() <= 4,
        is_ascii_char(c) ==> encode_scalar(c as u32) == seq![(c as u32) as u8] && ((c as u32) as u8)
            as u32 == c as u32,
        !is_ascii_char(c) ==> forall|i: int|
            0 <= i < encode_scalar(c as u32).len() ==> #[trigger] encode_scalar(c as u32)[i] >= 0x80,
{
    let v = c as u32;
    char_is_scalar(c);
    lemma_high_bytes(v);
    if has_width_1_encoding(v) {
        lemma_one_byte_scalar(v);
        assert(encode_scalar(v) =~= seq![v as u8]);
    }
}

/// The encoding of two texts in a row is the two encodings in a row.
pub proof fn lemma_encode_concat(a: Seq<char>, b: Seq<char>)
    ensures
        encode_utf8(a + b) == encode_utf8(a) + encode_utf8(b),
    decreases a.len(),
{
    if a.len() == 0 {
        assert(a + b =~= b);
        assert(encode_utf8(a) + encode_utf8(b) =~= encode_utf8(b));
    } else {
        assert((a + b).drop_first() =~= a.drop_first() + b);
        lemma_encode_concat(a.drop_first(), b);
        assert(encode_utf8(a + b) =~= encode_utf8(a) + encode_utf8(b));
    }
}

/// An ASCII character that a text lacks is a byte that the text's encoding lacks.
pub proof fn lemma_encode_lacks(text: Seq<char>, c: char)
    requires
        is_ascii_char(c),
        lacks(text, c),
    ensures
        lacks(encode_utf8(text), (c as u32) as u8),
    decreases text.len(),
{
    if text.len() > 0 {
        let rest = text.drop_first();
        assert forall|i: int| 0 <= i < rest.len() implies rest[i] != c by {
            assert(rest[i] == text[i + 1]);
        }
        lemma_encode_lacks(rest, c);
        lemma_encode_scalar_bytes(text[0]);
        lemma_encode_scalar_bytes(c);
        let head = encode_scalar(text[0] as u32);
        assert(text[0] != c);
        char_u32_cast(text[0], text[0] as u32);
        char_u32_cast(c, c as u32);
        assert(text[0] as u32 != c as u32);
        assert forall|i: int| 0 <= i < encode_utf8(text).len() implies encode_utf8(text)[i] != (
        c as u32) as u8 by {
            if i < head.len() {
                assert(encode_utf8(text)[i] == head[i]);
            } else {
                assert(encode_utf8(text)[i] == encode_utf8(rest)[i - head.len()]);
            }
        }
    }
}

/// The encoding of a text that does not end with a given ASCII character does not end
/// with that character's byte.
pub proof fn lemma_encode_last(text: Seq<char>, c: char)
    requires
        text.len() > 0,
        is_ascii_char(c),
        text.last() != c,
    ensures
        encode_utf8(text).len() > 0,
        encode_utf8(text).last() != (c as u32) as u8,
{
    let front = text.drop_last();
    let tail = seq![text.last()];
    assert(text =~= front + tail);
    lemma_encode_concat(front, tail);
    lemma_encode_scalar_bytes(text.last());
    assert(tail.drop_first() =~= Seq::<char>::empty());
    assert(encode_utf8(tail.drop_first()) =~= Seq::<u8>::empty());
    assert(tail[0] == text.last());
    assert(encode_utf8(tail) =~= encode_scalar(text.last() as u32));
    lemma_encode_lacks(tail, c);
    assert(encode_utf8(text).last() == encode_utf8(tail).last());
}

} // verus!
