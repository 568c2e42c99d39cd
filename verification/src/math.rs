//! Integer helpers for fixed-point arithmetic: truncating division and
//! integer square and cube roots.

use vstd::prelude::*;

verus! {

/// Division rounding toward zero, the rounding used throughout the
/// fixed-point formulas of this crate (`/` on `int` is Euclidean).
pub open spec fn tdiv(a: int, b: int) -> int
    recommends
        b > 0,
{
    if a >= 0 {
        a / b
    } else {
        -((-a) / b)
    }
}

/// The magnitude of a truncating quotient never exceeds the magnitude of
/// the dividend divided by the (positive) divisor.
pub proof fn lemma_tdiv_bound(a: int, b: int, m: int)
    requires
        b >= 1,
        -m <= a <= m,
    ensures
        -m <= b * tdiv(a, b) <= m,
        -m <= tdiv(a, b) <= m,
{
    let c = if a >= 0 { a } else { -a };
    let q = c / b;
    vstd::arithmetic::div_mod::lemma_fundamental_div_mod(c, b);
    vstd::arithmetic::div_mod::lemma_div_pos_is_pos(c, b);
    vstd::arithmetic::div_mod::lemma_mod_division_less_than_divisor(c, b);
    assert(b * q <= c);
    assert(0 <= q <= b * q) by (nonlinear_arith)
        requires
            b >= 1,
            q >= 0,
    ;
    if a >= 0 {
        assert(b * tdiv(a, b) == b * q);
    } else {
        assert(tdiv(a, b) == -q);
        assert(b * (-q) == -(b * q)) by (nonlinear_arith);
    }
}

/// Truncating division on `i128`, computed through unsigned division so
/// that its result provably matches [`tdiv`].
pub fn tdiv_i128(a: i128, b: i128) -> (q: i128)
    requires
        b > 0,
        a > i128::MIN,
    ensures
        q == tdiv(a as int, b as int),
{
    if a >= 0 {
        let ua: u128 = a as u128;
        let ub: u128 = b as u128;
        let uq: u128 = ua / ub;
        assert(uq <= ua);
        uq as i128
    } else {
        let ua: u128 = (-a) as u128;
        let ub: u128 = b as u128;
        let uq: u128 = ua / ub;
        assert(uq <= ua);
        -(uq as i128)
    }
}

/// Floor of the square root of a nonnegative integer.
pub open spec fn isqrt(n: int) -> int
    recommends
        n >= 0,
    decreases n,
{
    if n <= 0 {
        0
    } else {
        let r = isqrt(n - 1);
        if (r + 1) * (r + 1) <= n {
            r + 1
        } else {
            r
        }
    }
}

/// `isqrt(n)` is the unique `r >= 0` with `r * r <= n < (r + 1) * (r + 1)`.
pub proof fn lemma_isqrt(n: int)
    requires
        n >= 0,
    ensures
        isqrt(n) >= 0,
        isqrt(n) * isqrt(n) <= n,
        n < (isqrt(n) + 1) * (isqrt(n) + 1),
    decreases n,
{
    if n == 0 {
    } else {
        lemma_isqrt(n - 1);
        let r = isqrt(n - 1);
        if (r + 1) * (r + 1) <= n {
            assert(n <= (r + 1) * (r + 1)) by (nonlinear_arith)
                requires
                    n - 1 < (r + 1) * (r + 1),
            ;
            assert((r + 1) * (r + 1) < (r + 2) * (r + 2)) by (nonlinear_arith)
                requires
                    r >= 0,
            ;
        }
    }
}

/// Any `r` satisfying the square-root characterization equals `isqrt(n)`.
pub proof fn lemma_isqrt_unique(n: int, r: int)
    requires
        n >= 0,
        r >= 0,
        r * r <= n,
        n < (r + 1) * (r + 1),
    ensures
        r == isqrt(n),
{
    lemma_isqrt(n);
    let s = isqrt(n);
    assert(r == s) by (nonlinear_arith)
        requires
            r >= 0,
            s >= 0,
            r * r <= n,
            n < (r + 1) * (r + 1),
            s * s <= n,
            n < (s + 1) * (s + 1),
    ;
}

/// Monotonicity of [`isqrt`].
pub proof fn lemma_isqrt_ordered(m: int, n: int)
    requires
        0 <= m <= n,
    ensures
        isqrt(m) <= isqrt(n),
{
    lemma_isqrt(m);
    lemma_isqrt(n);
    assert(isqrt(m) <= isqrt(n)) by (nonlinear_arith)
        requires
            isqrt(m) >= 0,
            isqrt(n) >= 0,
            isqrt(m) * isqrt(m) <= m,
            m <= n,
            n < (isqrt(n) + 1) * (isqrt(n) + 1),
    ;
}

/// Multiplication is monotone in both nonnegative factors.
pub proof fn lemma_mul_mono_both(a: int, b: int, c: int, d: int)
    by (nonlinear_arith)
    requires
        0 <= a <= c,
        0 <= b <= d,
    ensures
        a * b <= c * d,
{
}

/// Binary search for the floor square root of a `u128`.
pub fn isqrt_u128(n: u128) -> (r: u128)
    ensures
        r == isqrt(n as int),
{
    let mut lo: u128 = 0;
    let mut hi: u128 = 18446744073709551616;  // 2^64
    proof {
        assert((18446744073709551616 as int) * (18446744073709551616 as int) > n as int);
    }
    while lo + 1 < hi
        invariant
            0 <= lo < hi <= 18446744073709551616,
            lo * lo <= n,
            n < hi * hi,
        decreases hi - lo,
    {
        let mid: u128 = lo + (hi - lo) / 2;
        assert(lo < mid < hi);
        assert(mid * mid <= 340282366920938463463374607431768211455) by (nonlinear_arith)
            requires
                0 <= mid,
                mid < 18446744073709551616,
        ;
        if mid * mid <= n {
            lo = mid;
        } else {
            hi = mid;
        }
    }
    proof {
        lemma_isqrt_unique(n as int, lo as int);
    }
    lo
}

/// Floor of the cube root of a nonnegative integer.
pub open spec fn icbrt(n: int) -> int
    recommends
        n >= 0,
    decreases n,
{
    if n <= 0 {
        0
    } else {
        let r = icbrt(n - 1);
        if (r + 1) * (r + 1) * (r + 1) <= n {
            r + 1
        } else {
            r
        }
    }
}

/// `icbrt(n)` satisfies the cube-root characterization.
pub proof fn lemma_icbrt(n: int)
    requires
        n >= 0,
    ensures
        icbrt(n) >= 0,
        icbrt(n) * icbrt(n) * icbrt(n) <= n,
        n < (icbrt(n) + 1) * (icbrt(n) + 1) * (icbrt(n) + 1),
    decreases n,
{
    if n == 0 {
    } else {
        lemma_icbrt(n - 1);
        let r = icbrt(n - 1);
        if (r + 1) * (r + 1) * (r + 1) <= n {
            assert(n <= (r + 1) * (r + 1) * (r + 1)) by (nonlinear_arith)
                requires
                    n - 1 < (r + 1) * (r + 1) * (r + 1),
            ;
            assert((r + 1) * (r + 1) * (r + 1) < (r + 2) * (r + 2) * (r + 2)) by (nonlinear_arith)
                requires
                    r >= 0,
            ;
        }
    }
}

/// Any `r` satisfying the cube-root characterization equals `icbrt(n)`.
pub proof fn lemma_icbrt_unique(n: int, r: int)
    requires
        n >= 0,
        r >= 0,
        r * r * r <= n,
        n < (r + 1) * (r + 1) * (r + 1),
    ensures
        r == icbrt(n),
{
    lemma_icbrt(n);
    let s = icbrt(n);
    assert(r == s) by (nonlinear_arith)
        requires
            r >= 0,
            s >= 0,
            r * r * r <= n,
            n < (r + 1) * (r + 1) * (r + 1),
            s * s * s <= n,
            n < (s + 1) * (s + 1) * (s + 1),
    ;
}

/// Monotonicity of [`icbrt`].
pub proof fn lemma_icbrt_ordered(m: int, n: int)
    requires
        0 <= m <= n,
    ensures
        icbrt(m) <= icbrt(n),
{
    lemma_icbrt(m);
    lemma_icbrt(n);
    assert(icbrt(m) <= icbrt(n)) by (nonlinear_arith)
        requires
            icbrt(m) >= 0,
            icbrt(n) >= 0,
            icbrt(m) * icbrt(m) * icbrt(m) <= m,
            m <= n,
            n < (icbrt(n) + 1) * (icbrt(n) + 1) * (icbrt(n) + 1),
    ;
}

/// Binary search for the floor cube root of a bounded `u128`.
pub fn icbrt_u128(n: u128) -> (r: u128)
    requires
        n < 10511602969249516992000000000000000000,  // 2189781^3 * 10^18, ample headroom
    ensures
        r == icbrt(n as int),
{
    let mut lo: u128 = 0;
    let mut hi: u128 = 2199023255552;  // 2^41
    proof {
        assert((2199023255552 as int) * (2199023255552 as int) * (2199023255552 as int)
            > 10511602969249516992000000000000000000int) by (nonlinear_arith);
    }
    while lo + 1 < hi
        invariant
            0 <= lo < hi <= 2199023255552,
            lo * lo * lo <= n,
            n < hi * hi * hi,
        decreases hi - lo,
    {
        let mid: u128 = lo + (hi - lo) / 2;
        assert(lo < mid < hi);
        assert(mid * mid <= 340282366920938463463374607431768211455
            && mid * mid * mid <= 340282366920938463463374607431768211455) by (nonlinear_arith)
            requires
                0 <= mid,
                mid < 2199023255552,
        ;
        let sq: u128 = mid * mid;
        if sq * mid <= n {
            lo = mid;
        } else {
            hi = mid;
        }
    }
    proof {
        lemma_icbrt_unique(n as int, lo as int);
    }
    lo
}

} // verus!
