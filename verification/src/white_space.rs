//! The characters that count as white space, and a text without those round it.
use vstd::prelude::*;
use crate::encoding::lemma_chars_fit_in_bytes;

verus! {

/// `c` has the property White_Space of Unicode.
pub open spec fn is_white_space(c: char) -> bool {
    ||| '\u{9}' <= c <= '\u{d}'
    ||| c == ' '
    ||| c == '\u{85}'
    ||| c == '\u{a0}'
    ||| c == '\u{1680}'
    ||| '\u{2000}' <= c <= '\u{200a}'
    ||| c == '\u{2028}'
    ||| c == '\u{2029}'
    ||| c == '\u{202f}'
    ||| c == '\u{205f}'
    ||| c == '\u{3000}'
}

/// Whether `c` has the property White_Space of Unicode.
pub fn is_whitespace(c: char) -> (white: bool)
    ensures
        white == is_white_space(c),
{
    ('\u{9}' <= c && c <= '\u{d}') || c == ' ' || c == '\u{85}' || c == '\u{a0}' || c == '\u{1680}'
        || ('\u{2000}' <= c && c <= '\u{200a}') || c == '\u{2028}' || c == '\u{2029}' || c
        == '\u{202f}' || c == '\u{205f}' || c == '\u{3000}'
}

/// How many characters of white space `s` begins with.
pub open spec fn leading_white_space(s: Seq<char>) -> nat
    decreases s.len(),
{
    if s.len() > 0 && is_white_space(s.first()) {
        1 + leading_white_space(s.drop_first())
    } else {
        0
    }
}

/// How many characters of white space `s` ends with.
pub open spec fn trailing_white_space(s: Seq<char>) -> nat
    decreases s.len(),
{
    if s.len() > 0 && is_white_space(s.last()) {
        1 + trailing_white_space(s.drop_last())
    } else {
        0
    }
}

/// `s` without the white space that it begins with and the white space that it ends with.
pub open spec fn trimmed(s: Seq<char>) -> Seq<char> {
    let rest = s.skip(leading_white_space(s) as int);
    rest.take(rest.len() - trailing_white_space(rest))
}

/// The first `leading_white_space(s)` characters of `s` are white space, and the next one,
/// if there is one, is not.
pub proof fn lemma_leading_white_space(s: Seq<char>)
    ensures
        leading_white_space(s) <= s.len(),
        forall|j: int| 0 <= j < leading_white_space(s) ==> is_white_space(#[trigger] s[j]),
        leading_white_space(s) < s.len() ==> !is_white_space(s[leading_white_space(s) as int]),
    decreases s.len(),
{
    if s.len() > 0 && is_white_space(s.first()) {
        let rest = s.drop_first();
        lemma_leading_white_space(rest);
        assert forall|j: int| 0 <= j < leading_white_space(s) implies is_white_space(
            #[trigger] s[j],
        ) by {
            if j > 0 {
                assert(s[j] == rest[j - 1]);
            }
        }
    }
}

/// The last `trailing_white_space(s)` characters of `s` are white space, and the one before
/// them, if there is one, is not.
pub proof fn lemma_trailing_white_space(s: Seq<char>)
    ensures
        trailing_white_space(s) <= s.len(),
        forall|j: int|
            s.len() - trailing_white_space(s) <= j < s.len() ==> is_white_space(#[trigger] s[j]),
        trailing_white_space(s) < s.len() ==> !is_white_space(
            s[s.len() - trailing_white_space(s) - 1],
        ),
    decreases s.len(),
{
    if s.len() > 0 && is_white_space(s.last()) {
        let rest = s.drop_last();
        lemma_trailing_white_space(rest);
        assert forall|j: int|
            s.len() - trailing_white_space(s) <= j < s.len() implies is_white_space(
            #[trigger] s[j],
        ) by {
            if j < rest.len() {
                assert(s[j] == rest[j]);
            }
        }
    }
}

/// `trimmed(s)` is the part of `s` from its first character that is no white space to its
/// last one: what stands before it and behind it is white space, and it neither begins nor
/// ends with white space.
pub proof fn lemma_trimmed(s: Seq<char>)
    ensures
        ({
            let a: int = leading_white_space(s) as int;
            let b: int = a + trimmed(s).len();
            &&& 0 <= a <= b <= s.len()
            &&& trimmed(s) == s.subrange(a, b)
            &&& forall|j: int| 0 <= j < a ==> is_white_space(#[trigger] s[j])
            &&& forall|j: int| b <= j < s.len() ==> is_white_space(#[trigger] s[j])
            &&& a < b ==> !is_white_space(s[a]) && !is_white_space(s[b - 1])
        }),
{
    let a: int = leading_white_space(s) as int;
    lemma_leading_white_space(s);
    let rest = s.skip(a);
    lemma_trailing_white_space(rest);
    let b: int = a + trimmed(s).len();
    assert(trimmed(s) =~= s.subrange(a, b));
    assert forall|j: int| b <= j < s.len() implies is_white_space(#[trigger] s[j]) by {
        assert(s[j] == rest[j - a]);
    }
    if a < b {
        assert(rest[b - a - 1] == s[b - 1]);
        assert(rest[0] == s[a]);
    }
}

/// The only part of `s` between white space that neither begins nor ends with white space
/// is `trimmed(s)`.
pub proof fn lemma_trimmed_is_unique(s: Seq<char>, a: int, b: int)
    requires
        0 <= a <= b <= s.len(),
        forall|j: int| 0 <= j < a ==> is_white_space(#[trigger] s[j]),
        forall|j: int| b <= j < s.len() ==> is_white_space(#[trigger] s[j]),
        a < b ==> !is_white_space(s[a]) && !is_white_space(s[b - 1]),
    ensures
        trimmed(s) == s.subrange(a, b),
{
    lemma_trimmed(s);
    let a0: int = leading_white_space(s) as int;
    let b0: int = a0 + trimmed(s).len();
    if a < b {
        assert(a0 == a) by {
            if a0 < a {
                assert(is_white_space(s[a0]));
            }
            if a < a0 {
                assert(is_white_space(s[a]));
            }
        }
        assert(b0 == b) by {
            if b0 < b {
                assert(is_white_space(s[b - 1]));
            }
            if b < b0 {
                assert(is_white_space(s[b0 - 1]));
            }
        }
    } else {
        assert(a0 == b0) by {
            if a0 < b0 {
                assert(is_white_space(s[a0]));
            }
        }
        assert(s.subrange(a, b) =~= s.subrange(a0, b0));
    }
}

/// The part of `text` that is left when the white space at both ends is taken off.
pub fn trim_whitespace(text: &str) -> (inner: &str)
    ensures
        inner@ == trimmed(text@),
{
    let bytes = text.as_bytes();
    proof {
        lemma_chars_fit_in_bytes(text@);
        assert(bytes@.len() == bytes.len());
    }
    let mut i: usize = 0;
    let mut start: usize = 0;
    let mut end: usize = 0;
    for c in it: text.chars()
        invariant
            it.seq() == text@,
            text@.len() <= usize::MAX,
            i == it.index(),
            start <= end <= i,
            forall|j: int| 0 <= j < start ==> is_white_space(#[trigger] text@[j]),
            forall|j: int| end <= j < i ==> is_white_space(#[trigger] text@[j]),
            start < end ==> !is_white_space(text@[start as int]) && !is_white_space(
                text@[end - 1],
            ),
            start == end ==> start == i,
    {
        if is_whitespace(c) {
            if start == end {
                start = i + 1;
                end = i + 1;
            }
        } else {
            end = i + 1;
        }
        i += 1;
    }
    proof {
        lemma_trimmed_is_unique(text@, start as int, end as int);
    }
    text.substring_char(start, end)
}

} // verus!
