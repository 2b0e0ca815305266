//! ASCII characters in UTF-8 text: a byte below 128 is always one whole
//! character, so text can be searched for an ASCII character byte by byte.

use vstd::prelude::*;
use vstd::utf8::*;

verus! {

/// `c` is an ASCII character.
pub open spec fn is_ascii_char(c: char) -> bool {
    (c as u32) < 0x80
}

/// An ASCII character is encoded as the one byte of its code, and the
/// encoding of any other character starts with a byte of 128 or more.
pub proof fn lemma_encode_scalar_first(c: char)
    ensures
        encode_scalar(c as u32).len() >= 1,
        is_ascii_char(c) ==> encode_scalar(c as u32) == seq![(c as u32) as u8],
        !is_ascii_char(c) ==> encode_scalar(c as u32)[0] >= 0x80,
{
    let v = c as u32;
    char_is_scalar(c);
    if has_width_1_encoding(v) {
        assert((v & 0x7F) as u8 == v as u8) by (bit_vector)
            requires
                v <= 0x7F,
        ;
    } else if has_width_2_encoding(v) {
        assert((0xC0 | ((v >> 6) & 0x1F) as u8) >= 0x80) by (bit_vector);
    } else if has_width_3_encoding(v) {
        assert((0xE0 | ((v >> 12) & 0x0F) as u8) >= 0x80) by (bit_vector);
    } else {
        assert((0xF0 | ((v >> 18) & 0x7) as u8) >= 0x80) by (bit_vector);
    }
}

/// The encoding of a concatenation is the concatenation of the encodings.
pub proof fn lemma_encode_concat(a: Seq<char>, b: Seq<char>)
    ensures
        encode_utf8(a + b) == encode_utf8(a) + encode_utf8(b),
    decreases a.len(),
{
    if a.len() == 0 {
        assert(a + b =~= b);
        assert(encode_utf8(a) + encode_utf8(b) =~= encode_utf8(b));
    } else {
        assert((a + b).drop_first() =~= a.drop_first() + b);
        lemma_encode_concat(a.drop_first(), b);
        assert(encode_utf8(a + b) =~= encode_utf8(a) + encode_utf8(b));
    }
}

/// Text whose encoding starts with a byte below 128 starts with the ASCII
/// character of that code.
pub proof fn lemma_first_byte_ascii(s: Seq<char>)
    requires
        encode_utf8(s).len() > 0,
        encode_utf8(s)[0] < 0x80,
    ensures
        s.len() > 0,
        s[0] as u32 == encode_utf8(s)[0],
{
    lemma_encode_scalar_first(s[0]);
}

/// Every ASCII character of a text stands in its encoding as the byte of its
/// code.
pub proof fn lemma_ascii_char_in_encoding(s: Seq<char>, i: int) -> (j: int)
    requires
        0 <= i < s.len(),
        is_ascii_char(s[i]),
    ensures
        0 <= j < encode_utf8(s).len(),
        encode_utf8(s)[j] == s[i] as u32,
    decreases s.len(),
{
    lemma_encode_scalar_first(s[0]);
    if i == 0 {
        0
    } else {
        let j = lemma_ascii_char_in_encoding(s.drop_first(), i - 1);
        encode_scalar(s[0] as u32).len() + j
    }
}

} // verus!
