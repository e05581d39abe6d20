//! Functions on texts: their length, their first word, their words, and two ways to change
//! them.
use vstd::prelude::*;
use vstd::utf8::{
    encode_utf8, encode_utf8_decode_utf8, encode_utf8_valid_utf8,
    is_char_boundary_iff_is_leading_byte, is_leading_byte_width_1,
};
use crate::encoding::{
    lemma_chars_fit_in_bytes, lemma_encoding_of_concat, lemma_no_space_no_byte, lemma_space_byte,
};
use crate::white_space::{is_white_space, is_whitespace, trim_whitespace, trimmed};

verus! {

/// How many bytes the encoding of `s` has.
pub fn calculate_length(s: &String) -> (length: usize)
    ensures
        length == encode_utf8(s@).len(),
        s@.len() <= length,
{
    proof {
        lemma_chars_fit_in_bytes(s@);
    }
    s.as_str().as_bytes().len()
}

/// The text `, World!`.
pub open spec fn world_suffix() -> Seq<char> {
    seq![',', ' ', 'W', 'o', 'r', 'l', 'd', '!']
}

/// Puts `, World!` behind what `s` holds.
pub fn change_string(s: &mut String)
    ensures
        final(s)@ == old(s)@ + world_suffix(),
{
    proof {
        reveal_strlit(", World!");
        assert(", World!"@ =~= world_suffix());
    }
    s.append(", World!");
}

/// Where the first space of `s` stands; the length of `s` where it has none.
pub open spec fn first_space(s: Seq<char>) -> nat
    decreases s.len(),
{
    if s.len() == 0 || s.first() == ' ' {
        0
    } else {
        1 + first_space(s.drop_first())
    }
}

/// What `s` holds before its first space; all of `s` where it has none.
pub open spec fn first_word(s: Seq<char>) -> Seq<char> {
    s.take(first_space(s) as int)
}

/// No character of `s` before `first_space(s)` is a space, and the one there, if there is
/// one, is a space.
pub proof fn lemma_first_space(s: Seq<char>)
    ensures
        first_space(s) <= s.len(),
        forall|j: int| 0 <= j < first_space(s) ==> #[trigger] s[j] != ' ',
        first_space(s) < s.len() ==> s[first_space(s) as int] == ' ',
    decreases s.len(),
{
    if s.len() > 0 && s.first() != ' ' {
        let rest = s.drop_first();
        lemma_first_space(rest);
        assert forall|j: int| 0 <= j < first_space(s) implies #[trigger] s[j] != ' ' by {
            if j > 0 {
                assert(s[j] == rest[j - 1]);
            }
        }
    }
}

/// In the encoding of `s`, the first byte 0x20 stands where the encoding of `first_word(s)`
/// ends.
proof fn lemma_first_space_byte(s: Seq<char>)
    ensures
        encode_utf8(first_word(s)) == encode_utf8(s).subrange(
            0,
            encode_utf8(first_word(s)).len() as int,
        ),
        encode_utf8(first_word(s)).len() <= encode_utf8(s).len(),
        forall|i: int|
            0 <= i < encode_utf8(first_word(s)).len() ==> #[trigger] encode_utf8(s)[i] != 0x20,
        first_space(s) < s.len() ==> encode_utf8(first_word(s)).len() < encode_utf8(s).len()
            && encode_utf8(s)[encode_utf8(first_word(s)).len() as int] == 0x20,
        first_space(s) == s.len() ==> first_word(s) == s,
{
    let k: int = first_space(s) as int;
    lemma_first_space(s);
    let head = s.take(k);
    let tail = s.skip(k);
    assert(s =~= head + tail);
    lemma_encoding_of_concat(head, tail);
    lemma_no_space_no_byte(head);
    assert(encode_utf8(head) =~= encode_utf8(s).subrange(0, encode_utf8(head).len() as int));
    if k < s.len() {
        lemma_space_byte(tail[0]);
    } else {
        assert(head =~= s);
    }
}

/// The part of `s` before its first space; all of `s` where it has none.
pub fn get_first_word(s: &String) -> (word: &str)
    ensures
        word@ == first_word(s@),
        word@ == s@.take(word@.len() as int),
        forall|j: int| 0 <= j < word@.len() ==> #[trigger] word@[j] != ' ',
        word@.len() < s@.len() ==> s@[word@.len() as int] == ' ',
{
    let text = s.as_str();
    let bytes = text.as_bytes();
    let mut i: usize = 0;
    while i < bytes.len()
        invariant
            i <= bytes.len(),
            text@ == s@,
            bytes@ == encode_utf8(s@),
            forall|j: int| 0 <= j < i ==> #[trigger] bytes@[j] != 0x20,
        decreases bytes.len() - i,
    {
        if bytes[i] == 0x20 {
            proof {
                lemma_first_space(s@);
                lemma_first_space_byte(s@);
                encode_utf8_valid_utf8(s@);
                let p: int = encode_utf8(first_word(s@)).len() as int;
                assert(encode_utf8(s@)[i as int] == 0x20);
                if p < i {
                    assert(bytes@[p] != 0x20);
                }
                assert(i == p);
                assert(is_leading_byte_width_1(bytes@[i as int]));
                is_char_boundary_iff_is_leading_byte(bytes@, i as int);
            }
            let (head, _) = text.split_at(i);
            proof {
                encode_utf8_decode_utf8(head@);
                encode_utf8_decode_utf8(first_word(s@));
            }
            return head;
        }
        i += 1;
    }
    proof {
        lemma_first_space(s@);
        lemma_first_space_byte(s@);
    }
    text
}

/// The lowercase form of a text: what `str::to_lowercase` makes of it.
pub uninterp spec fn lowercase(text: Seq<char>) -> Seq<char>;

/// `str::to_lowercase` of the standard library. It returns a new text, the lowercase form
/// of the one it is given, by the case mappings of Unicode. Those fill tables, so the
/// contract gives the result a name, `lowercase`, and claims only that the result is that
/// function of the characters of `text`.
pub assume_specification[ str::to_lowercase ](text: &str) -> (lowered: String)
    ensures
        lowered@ == lowercase(text@),
;

/// `text` without the white space at its two ends, in lowercase.
pub fn process_text(text: &str) -> (processed: String)
    ensures
        processed@ == lowercase(trimmed(text@)),
{
    trim_whitespace(text).to_lowercase()
}

/// A word of `s` begins at `i`: the character there is no white space, and it is the first
/// of `s` or stands behind white space.
pub open spec fn starts_word(s: Seq<char>, i: int) -> bool {
    &&& 0 <= i < s.len()
    &&& !is_white_space(s[i])
    &&& (i == 0 || is_white_space(s[i - 1]))
}

/// How many words of `s` begin before `n`.
pub open spec fn words_before(s: Seq<char>, n: nat) -> nat
    decreases n,
{
    if n == 0 {
        0
    } else {
        words_before(s, (n - 1) as nat) + if starts_word(s, n - 1) {
            1nat
        } else {
            0nat
        }
    }
}

/// How many words `s` has, a word being a run of characters that are no white space, with
/// white space or an end of `s` on either side.
pub open spec fn word_count(s: Seq<char>) -> nat {
    words_before(s, s.len())
}

/// No more words begin before `n` than there are places before `n`.
proof fn lemma_words_before_bound(s: Seq<char>, n: nat)
    ensures
        words_before(s, n) <= n,
    decreases n,
{
    if n > 0 {
        lemma_words_before_bound(s, (n - 1) as nat);
    }
}

/// How many words `text` has.
pub fn count_words(text: &str) -> (count: usize)
    ensures
        count == word_count(text@),
{
    let bytes = text.as_bytes();
    proof {
        lemma_chars_fit_in_bytes(text@);
        assert(bytes@.len() == bytes.len());
    }
    let mut count: usize = 0;
    let mut in_word = false;
    for c in it: text.chars()
        invariant
            it.seq() == text@,
            text@.len() <= usize::MAX,
            count == words_before(text@, it.index() as nat),
            in_word == (it.index() > 0 && !is_white_space(text@[it.index() - 1])),
    {
        let white = is_whitespace(c);
        if !white && !in_word {
            proof {
                lemma_words_before_bound(text@, it.index() as nat);
            }
            count += 1;
        }
        in_word = !white;
    }
    count
}

} // verus!
