//! Fixed-point numbers.
//!
//! A score counts card-equivalents; it is held as a whole number of
//! millionths. Sums and products with whole numbers are exact, a division
//! rounds toward minus infinity.

use vstd::prelude::*;

verus! {

/// One card-equivalent, in millionths.
pub const UNIT: i128 = 1_000_000;

/// The smaller of two numbers.
pub open spec fn lesser(a: int, b: int) -> int {
    if a <= b {
        a
    } else {
        b
    }
}

/// The larger of two numbers.
pub open spec fn greater(a: int, b: int) -> int {
    if a >= b {
        a
    } else {
        b
    }
}

/// `v` moved into the range `lo..=hi`.
pub open spec fn clamped(v: int, lo: int, hi: int) -> int {
    if v < lo {
        lo
    } else if v > hi {
        hi
    } else {
        v
    }
}

/// The product of two fixed-point numbers, itself a fixed-point number.
pub open spec fn scaled(a: int, b: int) -> int {
    (a * b) / (UNIT as int)
}

/// The smaller of two scores.
pub fn min_score(a: i128, b: i128) -> (r: i128)
    ensures
        r == lesser(a as int, b as int),
{
    if a <= b {
        a
    } else {
        b
    }
}

/// The larger of two scores.
pub fn max_score(a: i128, b: i128) -> (r: i128)
    ensures
        r == greater(a as int, b as int),
{
    if a >= b {
        a
    } else {
        b
    }
}

/// `v` moved into the range `lo..=hi`.
pub fn clamp_score(v: i128, lo: i128, hi: i128) -> (r: i128)
    ensures
        r == clamped(v as int, lo as int, hi as int),
{
    if v < lo {
        lo
    } else if v > hi {
        hi
    } else {
        v
    }
}

/// `a / b`, rounded toward minus infinity.
pub fn div_floor(a: i128, b: i128) -> (r: i128)
    requires
        b > 0,
        a > i128::MIN,
    ensures
        r == (a as int) / (b as int),
{
    if a >= 0 {
        a / b
    } else {
        let m: i128 = -a - 1;
        let q: i128 = m / b;
        proof {
            let (ai, bi, mi, qi) = (a as int, b as int, m as int, q as int);
            assert(qi == mi / bi);
            assert(ai / bi == -qi - 1) by (nonlinear_arith)
                requires
                    bi > 0,
                    ai == -mi - 1,
                    mi >= 0,
                    qi == mi / bi,
            ;
            assert(qi <= mi) by (nonlinear_arith)
                requires
                    bi > 0,
                    mi >= 0,
                    qi == mi / bi,
            ;
        }
        -q - 1
    }
}

/// The product of two fixed-point numbers.
pub fn mul_scaled(a: i128, b: i128) -> (r: i128)
    requires
        i128::MIN < a * b <= i128::MAX,
    ensures
        r == scaled(a as int, b as int),
{
    div_floor(a * b, UNIT)
}

/// A product with a bounded number has a bounded magnitude.
pub proof fn lemma_product_bound(a: int, b: int, p: int, q: int)
    requires
        -p <= a <= p,
        -q <= b <= q,
        p >= 0,
        q >= 0,
    ensures
        -(p * q) <= a * b <= p * q,
{
    assert(-(p * q) <= a * b <= p * q) by (nonlinear_arith)
        requires
            -p <= a <= p,
            -q <= b <= q,
            p >= 0,
            q >= 0,
    ;
}

/// A floored quotient is no farther from zero than the dividend.
pub proof fn lemma_quotient_bound(a: int, b: int, m: int)
    requires
        b > 0,
        -m <= a <= m,
    ensures
        -m <= a / b <= m,
{
    assert(-m <= a / b <= m) by (nonlinear_arith)
        requires
            b > 0,
            -m <= a <= m,
    ;
}

/// The smaller of two numbers is one of them and exceeds neither, and the
/// larger is one of them and falls short of neither.
pub proof fn law_lesser_and_greater(a: int, b: int)
    ensures
        lesser(a, b) <= a && lesser(a, b) <= b,
        lesser(a, b) == a || lesser(a, b) == b,
        greater(a, b) >= a && greater(a, b) >= b,
        greater(a, b) == a || greater(a, b) == b,
{
}

/// A clamped number lies in the range, and a number that already did is
/// unchanged.
pub proof fn law_clamped_is_in_range(v: int, lo: int, hi: int)
    requires
        lo <= hi,
    ensures
        lo <= clamped(v, lo, hi) <= hi,
        lo <= v <= hi ==> clamped(v, lo, hi) == v,
        v <= lo ==> clamped(v, lo, hi) == lo,
        v >= hi ==> clamped(v, lo, hi) == hi,
{
}

/// A product is rounded down to the next millionth: times one it is the number
/// itself, and each whole number more adds the other factor once.
pub proof fn law_scaled_adds_whole_steps(a: int, b: int, k: int)
    ensures
        1_000_000 * scaled(a, b) <= a * b < 1_000_000 * (scaled(a, b) + 1),
        scaled(a + k * 1_000_000, b) == scaled(a, b) + k * b,
        scaled(a, 1_000_000) == a,
        scaled(0, b) == 0,
{
    assert((a + k * 1_000_000) * b == a * b + (k * b) * 1_000_000) by (nonlinear_arith);
    assert(0 * b == 0) by (nonlinear_arith);
}

} // verus!
