//! Integer square root, the one non-trivial arithmetic primitive the
//! layout computation needs.

use vstd::prelude::*;

verus! {

/// Mathematical integer square root: the largest `r` with `r * r <= n`.
pub open spec fn spec_isqrt(n: int) -> int
    decreases n,
{
    if n <= 0 {
        0
    } else {
        let r = spec_isqrt(n - 1);
        if (r + 1) * (r + 1) <= n {
            r + 1
        } else {
            r
        }
    }
}

/// `spec_isqrt(n)` really is the integer square root of `n`.
pub proof fn lemma_spec_isqrt(n: int)
    requires
        n >= 0,
    ensures
        spec_isqrt(n) >= 0,
        spec_isqrt(n) * spec_isqrt(n) <= n,
        (spec_isqrt(n) + 1) * (spec_isqrt(n) + 1) > n,
    decreases n,
{
    if n > 0 {
        lemma_spec_isqrt(n - 1);
        let r = spec_isqrt(n - 1);
        if (r + 1) * (r + 1) <= n {
            assert((r + 2) * (r + 2) > n) by (nonlinear_arith)
                requires
                    r >= 0,
                    (r + 1) * (r + 1) > n - 1,
            ;
        }
    }
}

/// The integer square root is the only nonnegative `r` with
/// `r * r <= n < (r + 1) * (r + 1)`.
pub proof fn lemma_isqrt_unique(n: int, r: int)
    requires
        n >= 0,
        r >= 0,
        r * r <= n,
        (r + 1) * (r + 1) > n,
    ensures
        r == spec_isqrt(n),
{
    lemma_spec_isqrt(n);
    let s = spec_isqrt(n);
    assert(r == s) by (nonlinear_arith)
        requires
            r >= 0,
            s >= 0,
            r * r <= n,
            (r + 1) * (r + 1) > n,
            s * s <= n,
            (s + 1) * (s + 1) > n,
    ;
}

/// If `n < b * b`, the integer square root of `n` is below `b`.
pub proof fn lemma_isqrt_lt(n: int, b: int)
    requires
        0 <= n,
        1 <= b,
        n < b * b,
    ensures
        0 <= spec_isqrt(n) < b,
{
    lemma_spec_isqrt(n);
    let r = spec_isqrt(n);
    assert(r < b) by (nonlinear_arith)
        requires
            r >= 0,
            b >= 1,
            r * r <= n,
            n < b * b,
    ;
}

/// A quotient is below `b` whenever the dividend is below `dmin * b`
/// for any lower bound `dmin` of the divisor.
pub proof fn lemma_div_bounded(a: int, d: int, dmin: int, b: int)
    requires
        0 <= a,
        1 <= dmin <= d,
        a < dmin * b,
    ensures
        0 <= a / d < b,
{
    vstd::arithmetic::div_mod::lemma_fundamental_div_mod(a, d);
    vstd::arithmetic::div_mod::lemma_mod_bound(a, d);
    let q = a / d;
    let r = a % d;
    assert(0 <= q < b) by (nonlinear_arith)
        requires
            a == d * q + r,
            0 <= r < d,
            1 <= dmin <= d,
            a < dmin * b,
            0 <= a,
    ;
}

/// Integer square root by binary search.
pub fn isqrt_u128(n: u128) -> (r: u128)
    ensures
        r == spec_isqrt(n as int),
        r * r <= n,
{
    let mut lo: u128 = 0;
    let mut hi: u128 = 0xFFFF_FFFF_FFFF_FFFF;
    if n < hi {
        hi = n;
        assert((hi + 1) * (hi + 1) > n) by (nonlinear_arith)
            requires
                hi == n,
                n >= 0,
        ;
    } else {
        assert((hi + 1) * (hi + 1) > n) by (nonlinear_arith)
            requires
                hi == 0xFFFF_FFFF_FFFF_FFFFu128,
                n <= u128::MAX,
        ;
    }
    while lo < hi
        invariant
            0 <= lo <= hi <= 0xFFFF_FFFF_FFFF_FFFF,
            lo * lo <= n,
            (hi + 1) * (hi + 1) > n,
        decreases hi - lo,
    {
        let mid: u128 = lo + (hi - lo + 1) / 2;
        assert(mid * mid < 0xFFFF_FFFF_FFFF_FFFF_FFFF_FFFF_FFFF_FFFF) by (nonlinear_arith)
            requires
                0 < mid <= 0xFFFF_FFFF_FFFF_FFFF,
        ;
        if mid * mid <= n {
            lo = mid;
        } else {
            hi = mid - 1;
        }
    }
    proof {
        lemma_isqrt_unique(n as int, lo as int);
    }
    lo
}

} // verus!
