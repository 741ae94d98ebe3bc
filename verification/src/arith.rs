//! Small integer operations shared by every planner, with their exact meaning.

use vstd::arithmetic::power2::is_pow2;
use vstd::prelude::*;

verus! {

/// The least `q` with `q * divisor >= value`.
pub open spec fn ceil_div(value: int, divisor: int) -> int {
    (value + divisor - 1) / divisor
}

/// The least multiple of four that is not below `value`.
pub open spec fn round_up_4(value: int) -> int {
    (value + 3) / 4 * 4
}

/// The smaller of two numbers.
pub open spec fn least(a: int, b: int) -> int {
    if a < b { a } else { b }
}

/// The larger of two numbers.
pub open spec fn greatest(a: int, b: int) -> int {
    if a < b { b } else { a }
}

/// `ceil_div` is the unique quotient that covers `value` without a spare divisor.
pub proof fn lemma_ceil_div(value: int, divisor: int)
    requires
        0 <= value,
        0 < divisor,
    ensures
        0 <= ceil_div(value, divisor) <= value,
        value <= ceil_div(value, divisor) * divisor < value + divisor,
        (ceil_div(value, divisor) == 0) == (value == 0),
{
    let q = ceil_div(value, divisor);
    vstd::arithmetic::div_mod::lemma_fundamental_div_mod(value + divisor - 1, divisor);
    vstd::arithmetic::div_mod::lemma_mod_bound(value + divisor - 1, divisor);
    assert(q * divisor == divisor * q) by (nonlinear_arith);
    assert(0 <= q <= value) by (nonlinear_arith)
        requires
            0 <= value,
            0 < divisor,
            value <= q * divisor < value + divisor,
    ;
    assert((q == 0) == (value == 0)) by (nonlinear_arith)
        requires
            0 <= value,
            0 < divisor,
            value <= q * divisor < value + divisor,
    ;
}

/// Division rounded up.
pub fn div_ceil_u32(value: u32, divisor: u32) -> (q: u32)
    requires
        divisor > 0,
    ensures
        q == ceil_div(value as int, divisor as int),
{
    proof {
        lemma_ceil_div(value as int, divisor as int);
        vstd::arithmetic::div_mod::lemma_fundamental_div_mod(value as int, divisor as int);
        vstd::arithmetic::div_mod::lemma_mod_bound(value as int, divisor as int);
        let q = value as int / divisor as int;
        let r = value as int % divisor as int;
        assert(divisor as int * q == q * divisor as int) by (nonlinear_arith);
        if r == 0 {
            vstd::arithmetic::div_mod::lemma_fundamental_div_mod_converse(
                value + divisor - 1, divisor as int, q, divisor - 1);
        } else {
            assert((q + 1) * divisor as int == q * divisor as int + divisor as int)
                by (nonlinear_arith);
            vstd::arithmetic::div_mod::lemma_fundamental_div_mod_converse(
                value + divisor - 1, divisor as int, q + 1, r - 1);
        }
    }
    if value % divisor == 0 {
        value / divisor
    } else {
        value / divisor + 1
    }
}

/// Division rounded up.
pub fn div_ceil_u64(value: u64, divisor: u64) -> (q: u64)
    requires
        divisor > 0,
    ensures
        q == ceil_div(value as int, divisor as int),
{
    proof {
        lemma_ceil_div(value as int, divisor as int);
        vstd::arithmetic::div_mod::lemma_fundamental_div_mod(value as int, divisor as int);
        vstd::arithmetic::div_mod::lemma_mod_bound(value as int, divisor as int);
        let q = value as int / divisor as int;
        let r = value as int % divisor as int;
        assert(divisor as int * q == q * divisor as int) by (nonlinear_arith);
        if r == 0 {
            vstd::arithmetic::div_mod::lemma_fundamental_div_mod_converse(
                value + divisor - 1, divisor as int, q, divisor - 1);
        } else {
            assert((q + 1) * divisor as int == q * divisor as int + divisor as int)
                by (nonlinear_arith);
            vstd::arithmetic::div_mod::lemma_fundamental_div_mod_converse(
                value + divisor - 1, divisor as int, q + 1, r - 1);
        }
    }
    if value % divisor == 0 {
        value / divisor
    } else {
        value / divisor + 1
    }
}

/// The smaller of two machine words.
pub fn min_u64(a: u64, b: u64) -> (m: u64)
    ensures
        m == least(a as int, b as int),
{
    if a < b {
        a
    } else {
        b
    }
}

/// The larger of two machine words.
pub fn max_u64(a: u64, b: u64) -> (m: u64)
    ensures
        m == greatest(a as int, b as int),
{
    if a < b {
        b
    } else {
        a
    }
}

/// The smaller of two machine words.
pub fn min_u32(a: u32, b: u32) -> (m: u32)
    ensures
        m == least(a as int, b as int),
{
    if a < b {
        a
    } else {
        b
    }
}

/// Whether `value` is a power of two.
pub fn is_power_of_two(value: u64) -> (r: bool)
    ensures
        r == is_pow2(value as int),
{
    proof {
        reveal(is_pow2);
    }
    if value == 0 {
        return false;
    }
    let mut rest: u64 = value;
    while rest > 1 && rest % 2 == 0
        invariant
            rest > 0,
            is_pow2(value as int) == is_pow2(rest as int),
        decreases rest,
    {
        proof {
            reveal(is_pow2);
        }
        rest = rest / 2;
    }
    rest == 1
}

/// A quotient that was rounded up covers the value, and one less does not.
pub proof fn law_rounded_up(value: u32, divisor: u32, q: u32, wide: u64, by: u64, p: u64)
    requires
        divisor > 0,
        by > 0,
        call_ensures(div_ceil_u32, (value, divisor), q),
        call_ensures(div_ceil_u64, (wide, by), p),
    ensures
        q * divisor >= value,
        q > 0 ==> (q - 1) * divisor < value,
        p * by >= wide,
        p > 0 ==> (p - 1) * by < wide,
{
    lemma_ceil_div(value as int, divisor as int);
    lemma_ceil_div(wide as int, by as int);
    assert((q - 1) * divisor == q * divisor - divisor) by (nonlinear_arith);
    assert((p - 1) * by == p * by - by) by (nonlinear_arith);
}

/// The smaller of two numbers is one of them and not above the other, the larger not below it.
pub proof fn law_extremes(a: u64, b: u64, low: u64, high: u64, c: u32, d: u32, small: u32)
    requires
        call_ensures(min_u64, (a, b), low),
        call_ensures(max_u64, (a, b), high),
        call_ensures(min_u32, (c, d), small),
    ensures
        low == a || low == b,
        low <= a && low <= b,
        high == a || high == b,
        high >= a && high >= b,
        small == c || small == d,
        small <= c && small <= d,
{
}

/// A power of two is one, or twice a power of two.
pub proof fn law_powers_of_two(value: u64, half: u64, r: bool, s: bool)
    requires
        call_ensures(is_power_of_two, (value,), r),
        call_ensures(is_power_of_two, (half,), s),
    ensures
        value == 0 ==> !r,
        value == 1 ==> r,
        value > 1 && value % 2 == 1 ==> !r,
        value == 2 * half && half > 0 ==> r == s,
{
    reveal(is_pow2);
}

} // verus!
