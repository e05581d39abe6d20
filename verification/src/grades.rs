//! Letter grades for scores.
//!
//! A score is a binary64 number of IEEE 754 and is taken here by its bit pattern, the `u64`
//! that `to_bits` gives for it. The bands are stated in the order of the numbers, which
//! `no_greater` writes down for patterns; `get_letter_grade` itself compares the patterns
//! as they are, which is proved to come to the same.
use vstd::prelude::*;

verus! {

/// The pattern in which only the sign bit is set.
pub const SIGN_BIT: u64 = 0x8000_0000_0000_0000;

/// The pattern of positive infinity: above it, with the sign bit left out, lie the NaNs.
pub const INFINITY: u64 = 0x7ff0_0000_0000_0000;

/// The pattern of 60, where the band of `D` begins.
pub const SCORE_60: u64 = 0x404e_0000_0000_0000;

/// The pattern of the binary64 number nearest to 69.9, where the band of `D` ends.
pub const SCORE_69_9: u64 = 0x4051_7999_9999_999a;

/// The pattern of 70, where the band of `C` begins.
pub const SCORE_70: u64 = 0x4051_8000_0000_0000;

/// The pattern of the binary64 number nearest to 79.9, where the band of `C` ends.
pub const SCORE_79_9: u64 = 0x4053_f999_9999_999a;

/// The pattern of 80, where the band of `B` begins.
pub const SCORE_80: u64 = 0x4054_0000_0000_0000;

/// The pattern of the binary64 number nearest to 89.9, where the band of `B` ends.
pub const SCORE_89_9: u64 = 0x4056_7999_9999_999a;

/// The pattern of 90, where the band of `A` begins.
pub const SCORE_90: u64 = 0x4056_8000_0000_0000;

/// The pattern of 100, where the band of `A` ends.
pub const SCORE_100: u64 = 0x4059_0000_0000_0000;

/// The weight of the lowest bit of the exponent in a pattern, 2 to the power 52.
pub const EXPONENT_UNIT: u64 = 0x10_0000_0000_0000;

/// The pattern `bits` without its sign bit.
pub open spec fn without_sign(bits: u64) -> int {
    if bits >= SIGN_BIT {
        bits - SIGN_BIT
    } else {
        bits as int
    }
}

/// `bits` is the pattern of a NaN, which compares with nothing.
pub open spec fn is_nan(bits: u64) -> bool {
    without_sign(bits) > INFINITY
}

/// An integer that grows as the number with the pattern `bits` grows. Without its sign a
/// larger number has the larger pattern; a set sign bit turns that order round, and both
/// zeros get 0.
pub open spec fn rank(bits: u64) -> int {
    if bits >= SIGN_BIT {
        -without_sign(bits)
    } else {
        without_sign(bits)
    }
}

/// The number with the pattern `a` is less than or equal to the one with the pattern `b`.
pub open spec fn no_greater(a: u64, b: u64) -> bool {
    !is_nan(a) && !is_nan(b) && rank(a) <= rank(b)
}

/// The exponent that a pattern holds. With an exponent `e` from 1 to 2046 the pattern is
/// that of the number `significand(bits)` times 2 to the power `e - 1075`, with the sign
/// that the sign bit gives.
pub open spec fn exponent(bits: u64) -> int {
    without_sign(bits) / (EXPONENT_UNIT as int)
}

/// The digits of such a number, with the leading one that the pattern leaves out.
pub open spec fn significand(bits: u64) -> int {
    EXPONENT_UNIT + without_sign(bits) % (EXPONENT_UNIT as int)
}

/// Each bound is the pattern of the number in its name. With the exponent 1028 a number is
/// its significand times 2 to the power -47, with 1029 times 2 to the power -46. The numbers
/// 69.9, 79.9 and 89.9 have no pattern of their own: their bounds are the numbers nearest
/// to them, which lie within half of 2 to the power -46 of them. That is stated in tenths:
/// ten times the significand is within 5 of 699, 799 or 899 times 2 to the power 46.
pub proof fn lemma_bounds_are_the_numbers()
    ensures
        exponent(SCORE_60) == 1028 && significand(SCORE_60) == 60 * 0x8000_0000_0000,
        exponent(SCORE_70) == 1029 && significand(SCORE_70) == 70 * 0x4000_0000_0000,
        exponent(SCORE_80) == 1029 && significand(SCORE_80) == 80 * 0x4000_0000_0000,
        exponent(SCORE_90) == 1029 && significand(SCORE_90) == 90 * 0x4000_0000_0000,
        exponent(SCORE_100) == 1029 && significand(SCORE_100) == 100 * 0x4000_0000_0000,
        exponent(SCORE_69_9) == 1029 && -5 <= 10 * significand(SCORE_69_9) - 699
            * 0x4000_0000_0000 <= 5,
        exponent(SCORE_79_9) == 1029 && -5 <= 10 * significand(SCORE_79_9) - 799
            * 0x4000_0000_0000 <= 5,
        exponent(SCORE_89_9) == 1029 && -5 <= 10 * significand(SCORE_89_9) - 899
            * 0x4000_0000_0000 <= 5,
{
}

/// The score with the pattern `bits` lies from `floor` to `ceiling`, both included.
pub open spec fn in_band(bits: u64, floor: u64, ceiling: u64) -> bool {
    no_greater(floor, bits) && no_greater(bits, ceiling)
}

/// The grade of the score with the pattern `score_bits`: the letter of the band that holds
/// it, and `F` for a score in no band.
pub open spec fn letter_grade(score_bits: u64) -> char {
    if in_band(score_bits, SCORE_90, SCORE_100) {
        'A'
    } else if in_band(score_bits, SCORE_80, SCORE_89_9) {
        'B'
    } else if in_band(score_bits, SCORE_70, SCORE_79_9) {
        'C'
    } else if in_band(score_bits, SCORE_60, SCORE_69_9) {
        'D'
    } else {
        'F'
    }
}

/// Between two numbers that are neither negative nor NaN lie the patterns between theirs.
pub proof fn lemma_band_is_range(bits: u64, floor: u64, ceiling: u64)
    requires
        floor <= INFINITY,
        ceiling <= INFINITY,
    ensures
        in_band(bits, floor, ceiling) <==> (floor <= bits <= ceiling || (floor == 0 && bits
            == SIGN_BIT)),
{
}

/// The grade of the score with the pattern `score_bits`.
pub fn get_letter_grade(score_bits: u64) -> (grade: char)
    ensures
        grade == letter_grade(score_bits),
        !no_greater(SCORE_60, score_bits) ==> grade == 'F',
{
    proof {
        lemma_band_is_range(score_bits, SCORE_90, SCORE_100);
        lemma_band_is_range(score_bits, SCORE_80, SCORE_89_9);
        lemma_band_is_range(score_bits, SCORE_70, SCORE_79_9);
        lemma_band_is_range(score_bits, SCORE_60, SCORE_69_9);
    }
    if SCORE_90 <= score_bits && score_bits <= SCORE_100 {
        'A'
    } else if SCORE_80 <= score_bits && score_bits <= SCORE_89_9 {
        'B'
    } else if SCORE_70 <= score_bits && score_bits <= SCORE_79_9 {
        'C'
    } else if SCORE_60 <= score_bits && score_bits <= SCORE_69_9 {
        'D'
    } else {
        'F'
    }
}

} // verus!
