//! Sums, quotients and remainders of `i32` numbers.
use vstd::prelude::*;

verus! {

/// `a` without its sign.
pub open spec fn magnitude(a: int) -> int {
    if a >= 0 {
        a
    } else {
        -a
    }
}

/// The quotient of `a` by `b`, rounded toward zero.
pub open spec fn truncated_quotient(a: int, b: int) -> int
    recommends
        b != 0,
{
    if a >= 0 {
        a / b
    } else {
        -((-a) / b)
    }
}

/// What is left of `a` when `truncated_quotient(a, b)` times `b` is taken from it.
pub open spec fn truncated_remainder(a: int, b: int) -> int
    recommends
        b != 0,
{
    if a >= 0 {
        a % b
    } else {
        -((-a) % b)
    }
}

/// Quotient times divisor plus remainder is the dividend; the remainder is nearer to zero
/// than the divisor and has the sign of the dividend; the quotient times the divisor is no
/// farther from zero than the dividend.
pub proof fn lemma_truncated_division(a: int, b: int)
    requires
        b != 0,
    ensures
        truncated_quotient(a, b) * b + truncated_remainder(a, b) == a,
        magnitude(truncated_remainder(a, b)) < magnitude(b),
        a >= 0 ==> truncated_remainder(a, b) >= 0,
        a <= 0 ==> truncated_remainder(a, b) <= 0,
        magnitude(truncated_quotient(a, b)) * magnitude(b) <= magnitude(a),
{
    let m: int = magnitude(a);
    assert(m == b * (m / b) + m % b && 0 <= m % b < magnitude(b)) by (nonlinear_arith)
        requires
            b != 0,
            m >= 0,
    ;
    assert(m == 0 ==> m % b == 0) by (nonlinear_arith)
        requires
            m == b * (m / b) + m % b,
            0 <= m % b < magnitude(b),
    ;
    assert((-(m / b)) * b == -((m / b) * b)) by (nonlinear_arith);
    assert(b * (m / b) == (m / b) * b) by (nonlinear_arith);
    assert(magnitude(m / b) * magnitude(b) <= m) by (nonlinear_arith)
        requires
            m == b * (m / b) + m % b,
            0 <= m % b < magnitude(b),
            m >= 0,
    ;
}

/// No other pair of numbers is related to dividend and divisor as the truncated quotient
/// and remainder are.
pub proof fn lemma_truncated_division_is_unique(a: int, b: int, q: int, r: int)
    requires
        b != 0,
        q * b + r == a,
        magnitude(r) < magnitude(b),
        a >= 0 ==> r >= 0,
        a <= 0 ==> r <= 0,
    ensures
        q == truncated_quotient(a, b),
        r == truncated_remainder(a, b),
{
    lemma_truncated_division(a, b);
    let q0: int = truncated_quotient(a, b);
    let r0: int = truncated_remainder(a, b);
    assert((q - q0) * b == r0 - r) by (nonlinear_arith)
        requires
            q * b + r == a,
            q0 * b + r0 == a,
    ;
    assert(q - q0 == 0) by (nonlinear_arith)
        requires
            (q - q0) * b == r0 - r,
            magnitude(r0 - r) < magnitude(b),
            b != 0,
    ;
}

/// The sum of `a` and `b`.
pub fn add_numbers(a: i32, b: i32) -> (sum: i32)
    requires
        i32::MIN <= a + b <= i32::MAX,
    ensures
        sum == a + b,
{
    a + b
}

/// The quotient of `dividend` by `divisor`, rounded toward zero, and the remainder that
/// goes with it.
pub fn divide_with_remainder(dividend: i32, divisor: i32) -> (result: (i32, i32))
    requires
        divisor != 0,
        !(dividend == i32::MIN && divisor == -1),
    ensures
        result.0 == truncated_quotient(dividend as int, divisor as int),
        result.1 == truncated_remainder(dividend as int, divisor as int),
        result.0 * divisor + result.1 == dividend,
        magnitude(result.1 as int) < magnitude(divisor as int),
        dividend >= 0 ==> result.1 >= 0,
        dividend <= 0 ==> result.1 <= 0,
{
    proof {
        let q: int = truncated_quotient(dividend as int, divisor as int);
        let r: int = truncated_remainder(dividend as int, divisor as int);
        lemma_truncated_division(dividend as int, divisor as int);
        assert(i32::MIN <= q <= i32::MAX) by (nonlinear_arith)
            requires
                magnitude(q) * magnitude(divisor as int) <= magnitude(dividend as int),
                magnitude(dividend as int) <= 0x8000_0000,
                divisor != 0,
                q * divisor + r == dividend,
                magnitude(r) < magnitude(divisor as int),
                !(dividend == i32::MIN && divisor == -1),
        ;
    }
    let quotient: i32 = dividend / divisor;
    let remainder: i32 = dividend % divisor;
    (quotient, remainder)
}

/// The larger of `a` and `b`.
pub fn larger_number(a: i32, b: i32) -> (larger: i32)
    ensures
        larger == if a > b { a } else { b },
        larger >= a,
        larger >= b,
{
    if a > b {
        a
    } else {
        b
    }
}

/// The sum of all the numbers of `s`.
pub open spec fn sum_of(s: Seq<i32>) -> int
    decreases s.len(),
{
    if s.len() == 0 {
        0
    } else {
        sum_of(s.drop_last()) + s.last()
    }
}

/// Every running total of `s`, taken from the left, is an `i32`.
pub open spec fn running_totals_fit(s: Seq<i32>) -> bool {
    forall|k: int| 0 <= k <= s.len() ==> i32::MIN <= #[trigger] sum_of(s.take(k)) <= i32::MAX
}

/// The sum of `numbers`, added up from the left; `None` where a running total is no `i32`.
pub fn checked_sum(numbers: &Vec<i32>) -> (total: Option<i32>)
    ensures
        total is Some <==> running_totals_fit(numbers@),
        total matches Some(sum) ==> sum == sum_of(numbers@),
{
    let mut total: i32 = 0;
    let mut i: usize = 0;
    while i < numbers.len()
        invariant
            i <= numbers.len(),
            total == sum_of(numbers@.take(i as int)),
            forall|k: int|
                0 <= k <= i ==> i32::MIN <= #[trigger] sum_of(numbers@.take(k)) <= i32::MAX,
        decreases numbers.len() - i,
    {
        proof {
            assert(numbers@.take(i + 1).drop_last() =~= numbers@.take(i as int));
            assert(sum_of(numbers@.take(i + 1)) == total + numbers[i as int]);
        }
        match total.checked_add(numbers[i]) {
            Some(next) => {
                total = next;
            },
            None => {
                return None;
            },
        }
        i += 1;
    }
    proof {
        assert(numbers@.take(i as int) =~= numbers@);
    }
    Some(total)
}

} // verus!
