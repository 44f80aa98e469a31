//! Slicing the leading character off a string.

use vstd::prelude::*;
use vstd::string::StringSliceAdditionalSpecFns;
use vstd::utf8::*;

verus! {

/// True when `s` starts with a character that UTF-8 encodes in one byte.
pub open spec fn starts_with_single_byte_char(s: Seq<char>) -> bool {
    s.len() > 0 && (s[0] as u32) <= 0x7F
}

/// Cutting the encoding of `chars` after its first byte falls on a character
/// boundary, and the piece before the cut decodes to the first character.
proof fn lemma_cut_after_first_byte(chars: Seq<char>)
    requires
        starts_with_single_byte_char(chars),
    ensures
        is_char_boundary(encode_utf8(chars), 1),
        decode_utf8(encode_utf8(chars).subrange(0, 1)) == chars.subrange(0, 1),
{
    let bytes = encode_utf8(chars);
    encode_utf8_first_scalar(chars);
    encode_utf8_valid_utf8(chars);
    encode_utf8_decode_utf8(chars);
    assert(is_char_boundary(bytes, 1)) by {
        reveal_with_fuel(is_char_boundary, 2);
    }
    let head = bytes.subrange(0, 1);
    valid_utf8_split(bytes, 1);
    decode_utf8_split(bytes, 1);
    assert(decode_utf8(head).len() == 1) by {
        reveal_with_fuel(decode_utf8, 2);
        reveal_with_fuel(valid_utf8, 2);
    }
}

/// Returns the slice holding the first byte of `s`, which is its first
/// character.
///
/// The cut after one byte has to fall on a character boundary, so `s` must
/// start with a character that takes one byte.
pub fn first_word(s: &String) -> (word: &str)
    requires
        starts_with_single_byte_char(s@),
    ensures
        word@ == s@.subrange(0, 1),
{
    proof {
        lemma_cut_after_first_byte(s@);
    }
    let (head, _) = s.as_str().split_at(1);
    proof {
        encode_utf8_decode_utf8(head@);
    }
    head
}

} // verus!
