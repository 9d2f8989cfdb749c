//! Exact integer building blocks for the fixed-point pixel arithmetic:
//! round-half-up rational quantization, small fixed powers, and integer
//! fifth and eleventh roots (the gamma exponent 2.2 is the ratio 11/5).

use vstd::prelude::*;
use vstd::arithmetic::div_mod::{
    lemma_div_is_ordered, lemma_div_pos_is_pos, lemma_fundamental_div_mod_converse_div,
};
use vstd::arithmetic::mul::{lemma_mul_nonnegative, lemma_mul_upper_bound};

verus! {

/// Round-half-up division of `n` by `d` (for `d > 0`): the nearest integer to
/// the rational `n / d`, with halves rounded towards positive infinity.
pub open spec fn rdh(n: int, d: int) -> int {
    (2 * n + d) / (2 * d)
}

/// `rdh` is monotone in the numerator.
pub proof fn lemma_rdh_mono(n1: int, n2: int, d: int)
    requires
        d >= 1,
        n1 <= n2,
    ensures
        rdh(n1, d) <= rdh(n2, d),
{
    lemma_div_is_ordered(2 * n1 + d, 2 * n2 + d, 2 * d);
}

/// A numerator of exactly `m` times the denominator rounds to `m`.
pub proof fn lemma_rdh_exact(m: int, d: int)
    requires
        d >= 1,
    ensures
        rdh(m * d, d) == m,
{
    assert(2 * (m * d) + d == m * (2 * d) + d) by (nonlinear_arith);
    lemma_fundamental_div_mod_converse_div(2 * (m * d) + d, 2 * d, m, d);
}

/// If the numerator stays below `m` whole steps, so does the rounded value.
pub proof fn lemma_rdh_bound(n: int, d: int, m: int)
    requires
        d >= 1,
        0 <= n,
        n <= m * d,
    ensures
        0 <= rdh(n, d) <= m,
{
    lemma_rdh_mono(n, m * d, d);
    lemma_rdh_exact(m, d);
    lemma_div_pos_is_pos(2 * n + d, 2 * d);
}

/// If the numerator is at least `m` whole steps, so is the rounded value.
pub proof fn lemma_rdh_ge(n: int, d: int, m: int)
    requires
        d >= 1,
        n >= m * d,
    ensures
        rdh(n, d) >= m,
{
    lemma_rdh_mono(m * d, n, d);
    lemma_rdh_exact(m, d);
}

/// Executable round-half-up division on 64-bit operands.
pub fn rdh_u64(n: u64, d: u64) -> (r: u64)
    requires
        1 <= d < 0x4000000000000000,
        n < 0x4000000000000000,
    ensures
        r == rdh(n as int, d as int),
{
    (2 * n + d) / (2 * d)
}

/// Executable round-half-up division on 128-bit operands.
pub fn rdh_u128(n: u128, d: u128) -> (r: u128)
    requires
        1 <= d < 0x1000000000000000000000000000000,
        n < 0x40000000000000000000000000000000,
    ensures
        r == rdh(n as int, d as int),
{
    (2 * n + d) / (2 * d)
}

/// The fifth power.
pub open spec fn pow5(x: int) -> int {
    x * x * x * x * x
}

/// The eleventh power, phrased over the fifth power.
pub open spec fn pow11(x: int) -> int {
    pow5(x) * pow5(x) * x
}

/// The fifth power of a non-negative integer is non-negative.
pub proof fn lemma_pow5_nonneg(a: int)
    requires
        0 <= a,
    ensures
        0 <= pow5(a),
{
    lemma_mul_nonnegative(a, a);
    lemma_mul_nonnegative(a * a, a);
    lemma_mul_nonnegative(a * a * a, a);
    lemma_mul_nonnegative(a * a * a * a, a);
}

/// The fifth power is monotone on the non-negative integers.
pub proof fn lemma_pow5_mono(a: int, b: int)
    requires
        0 <= a <= b,
    ensures
        pow5(a) <= pow5(b),
{
    let a2 = a * a;
    let b2 = b * b;
    lemma_mul_upper_bound(a, b, a, b);
    lemma_mul_nonnegative(a, a);
    lemma_mul_nonnegative(b, b);
    let a4 = a2 * a2;
    let b4 = b2 * b2;
    lemma_mul_upper_bound(a2, b2, a2, b2);
    lemma_mul_nonnegative(a2, a2);
    lemma_mul_upper_bound(a4, b4, a, b);
    assert(a * a * a * a * a == ((a * a) * (a * a)) * a) by (nonlinear_arith);
    assert(b * b * b * b * b == ((b * b) * (b * b)) * b) by (nonlinear_arith);
}

/// The eleventh power is monotone on the non-negative integers.
pub proof fn lemma_pow11_mono(a: int, b: int)
    requires
        0 <= a <= b,
    ensures
        pow11(a) <= pow11(b),
{
    lemma_pow5_mono(a, b);
    lemma_pow5_nonneg(a);
    lemma_pow5_nonneg(b);
    lemma_mul_upper_bound(pow5(a), pow5(b), pow5(a), pow5(b));
    lemma_mul_nonnegative(pow5(a), pow5(a));
    lemma_mul_upper_bound(pow5(a) * pow5(a), pow5(b) * pow5(b), a, b);
}

/// `r` is the integer fifth root of `n`.
pub open spec fn is_root5(n: int, r: int) -> bool {
    0 <= r && pow5(r) <= n && n < pow5(r + 1)
}

/// `r` is the integer eleventh root of `n`.
pub open spec fn is_root11(n: int, r: int) -> bool {
    0 <= r && pow11(r) <= n && n < pow11(r + 1)
}

/// The integer fifth root (meaningful for `n >= 0`).
pub open spec fn root5(n: int) -> int {
    choose|r: int| is_root5(n, r)
}

/// The integer eleventh root (meaningful for `n >= 0`).
pub open spec fn root11(n: int) -> int {
    choose|r: int| is_root11(n, r)
}

/// Any witness of `is_root5` is the fifth root: the root is unique.
pub proof fn lemma_root5_unique(n: int, r: int)
    requires
        is_root5(n, r),
    ensures
        root5(n) == r,
{
    assert(is_root5(n, root5(n)));
    let c = root5(n);
    if c < r {
        lemma_pow5_mono(c + 1, r);
    }
    if r < c {
        lemma_pow5_mono(r + 1, c);
    }
}

/// Any witness of `is_root11` is the eleventh root: the root is unique.
pub proof fn lemma_root11_unique(n: int, r: int)
    requires
        is_root11(n, r),
    ensures
        root11(n) == r,
{
    assert(is_root11(n, root11(n)));
    let c = root11(n);
    if c < r {
        lemma_pow11_mono(c + 1, r);
    }
    if r < c {
        lemma_pow11_mono(r + 1, c);
    }
}

/// Executable fifth power, wide enough for every base this crate uses.
pub fn pow5_u128(x: u64) -> (p: u128)
    requires
        x <= 5000000,
    ensures
        p == pow5(x as int),
{
    let x1: u128 = x as u128;
    proof {
        assert(x1 * x1 <= 25000000000000) by (nonlinear_arith)
            requires
                x1 <= 5000000,
        ;
    }
    let x2: u128 = x1 * x1;
    proof {
        assert(x2 * x2 <= 625000000000000000000000000) by (nonlinear_arith)
            requires
                0 <= x2 <= 25000000000000,
        ;
    }
    let x4: u128 = x2 * x2;
    proof {
        assert(x4 * x1 <= 3125000000000000000000000000000000) by (nonlinear_arith)
            requires
                0 <= x4 <= 625000000000000000000000000,
                x1 <= 5000000,
        ;
        assert(x4 * x1 == pow5(x1 as int)) by (nonlinear_arith)
            requires
                x2 == x1 * x1,
                x4 == x2 * x2,
        ;
    }
    x4 * x1
}

/// Executable eleventh power, wide enough for every base this crate uses.
pub fn pow11_u128(x: u64) -> (p: u128)
    requires
        x <= 2048,
    ensures
        p == pow11(x as int),
{
    let p5: u128 = pow5_u128(x);
    proof {
        lemma_pow5_mono(x as int, 2048);
        lemma_pow5_nonneg(x as int);
        assert(pow5(2048) == 36028797018963968);
        assert(p5 * p5 <= 36028797018963968 * 36028797018963968) by (nonlinear_arith)
            requires
                0 <= p5 <= 36028797018963968,
        ;
        assert(p5 * p5 * (x as u128) <= 36028797018963968 * 36028797018963968 * 2048)
            by (nonlinear_arith)
            requires
                0 <= p5 * p5 <= 36028797018963968 * 36028797018963968,
                x <= 2048,
        ;
    }
    p5 * p5 * (x as u128)
}

/// Executable integer fifth root by binary search.
pub fn root5_u64(n: u128) -> (r: u64)
    requires
        n < pow5(5000000),
    ensures
        is_root5(n as int, r as int),
        r == root5(n as int),
        r < 5000000,
{
    let mut lo: u64 = 0;
    let mut hi: u64 = 5000000;
    while lo + 1 < hi
        invariant
            lo < hi <= 5000000,
            pow5(lo as int) <= n as int,
            (n as int) < pow5(hi as int),
        decreases hi - lo,
    {
        let mid: u64 = lo + (hi - lo) / 2;
        let p: u128 = pow5_u128(mid);
        if p <= n {
            lo = mid;
        } else {
            hi = mid;
        }
    }
    proof {
        lemma_root5_unique(n as int, lo as int);
    }
    lo
}

/// Executable integer eleventh root by binary search.
pub fn root11_u64(n: u128) -> (r: u64)
    requires
        n < pow11(2049),
    ensures
        is_root11(n as int, r as int),
        r == root11(n as int),
        r <= 2048,
{
    let mut lo: u64 = 0;
    let mut hi: u64 = 2049;
    while lo + 1 < hi
        invariant
            lo < hi <= 2049,
            pow11(lo as int) <= n as int,
            (n as int) < pow11(hi as int),
        decreases hi - lo,
    {
        let mid: u64 = lo + (hi - lo) / 2;
        let p: u128 = pow11_u128(mid);
        if p <= n {
            lo = mid;
        } else {
            hi = mid;
        }
    }
    proof {
        lemma_root11_unique(n as int, lo as int);
    }
    lo
}

} // verus!
