//! Facts about the UTF-8 encoding of a text that the functions on texts rest on.
use vstd::prelude::*;
use vstd::utf8::{encode_scalar, encode_utf8};

verus! {

/// A text has no more characters than its encoding has bytes.
pub proof fn lemma_chars_fit_in_bytes(s: Seq<char>)
    ensures
        s.len() <= encode_utf8(s).len(),
    decreases s.len(),
{
    if s.len() > 0 {
        lemma_chars_fit_in_bytes(s.drop_first());
    }
}

/// Two texts, one behind the other, are encoded as their encodings, one behind the other.
pub proof fn lemma_encoding_of_concat(a: Seq<char>, b: Seq<char>)
    ensures
        encode_utf8(a + b) == encode_utf8(a) + encode_utf8(b),
    decreases a.len(),
{
    if a.len() == 0 {
        assert(a + b =~= b);
        assert(encode_utf8(a) + encode_utf8(b) =~= encode_utf8(b));
    } else {
        lemma_encoding_of_concat(a.drop_first(), b);
        assert((a + b).drop_first() =~= a.drop_first() + b);
        assert(encode_scalar(a[0] as u32) + (encode_utf8(a.drop_first()) + encode_utf8(b))
            =~= (encode_scalar(a[0] as u32) + encode_utf8(a.drop_first())) + encode_utf8(b));
    }
}

/// The space is encoded as the one byte 0x20, and no other character has that byte
/// anywhere in its encoding.
pub proof fn lemma_space_byte(c: char)
    ensures
        encode_scalar(c as u32).len() >= 1,
        c == ' ' ==> encode_scalar(c as u32) == seq![0x20u8],
        c != ' ' ==> forall|i: int|
            0 <= i < encode_scalar(c as u32).len() ==> #[trigger] encode_scalar(c as u32)[i]
                != 0x20,
{
    let v: u32 = c as u32;
    assert(v <= 0x7f ==> ((v & 0x7f) as u8 == 0x20 <==> v == 0x20)) by (bit_vector);
    assert(0xC0u8 | ((v >> 6) & 0x1F) as u8 != 0x20) by (bit_vector);
    assert(0xE0u8 | ((v >> 12) & 0x0F) as u8 != 0x20) by (bit_vector);
    assert(0xF0u8 | ((v >> 18) & 0x7) as u8 != 0x20) by (bit_vector);
    assert(0x80u8 | (v & 0x3F) as u8 != 0x20) by (bit_vector);
    assert(0x80u8 | ((v >> 6) & 0x3F) as u8 != 0x20) by (bit_vector);
    assert(0x80u8 | ((v >> 12) & 0x3F) as u8 != 0x20) by (bit_vector);
    if c == ' ' {
        assert(encode_scalar(c as u32) =~= seq![0x20u8]);
    }
}

/// The encoding of a text without a space has no byte 0x20.
pub proof fn lemma_no_space_no_byte(s: Seq<char>)
    requires
        forall|j: int| 0 <= j < s.len() ==> #[trigger] s[j] != ' ',
    ensures
        forall|i: int| 0 <= i < encode_utf8(s).len() ==> #[trigger] encode_utf8(s)[i] != 0x20,
    decreases s.len(),
{
    if s.len() > 0 {
        let rest = s.drop_first();
        assert forall|j: int| 0 <= j < rest.len() implies #[trigger] rest[j] != ' ' by {
            assert(rest[j] == s[j + 1]);
        }
        lemma_no_space_no_byte(rest);
        lemma_space_byte(s[0]);
        let first = encode_scalar(s[0] as u32);
        assert forall|i: int| 0 <= i < encode_utf8(s).len() implies #[trigger] encode_utf8(s)[i]
            != 0x20 by {
            if i < first.len() {
                assert(encode_utf8(s)[i] == first[i]);
            } else {
                assert(encode_utf8(s)[i] == encode_utf8(rest)[i - first.len()]);
            }
        }
    }
}

} // verus!
