//! Fixed-point scalars: an `i64` that stands for `raw / ONE`.

use vstd::prelude::*;

verus! {

/// The raw value of the number one: sixteen fractional bits.
pub const ONE: i64 = 65536;

/// Largest magnitude a stored scalar may have (two to the power 48).
pub const LIMIT: i64 = 0x1_0000_0000_0000;

/// The circle constant, rounded down to sixteen fractional bits.
pub const PI: i64 = 205887;

/// Whether `x` can be stored as a scalar.
pub open spec fn in_range(x: int) -> bool {
    -LIMIT <= x <= LIMIT
}

/// The quotient `n / d` rounded toward zero, for a positive divisor.
pub open spec fn trunc_div(n: int, d: int) -> int {
    if n >= 0 {
        n / d
    } else {
        -((-n) / d)
    }
}

/// The fixed-point product of two raw values, rounded toward zero.
pub open spec fn fmul(a: int, b: int) -> int {
    trunc_div(a * b, ONE as int)
}

/// The integer square root: the largest `r` with `r * r <= n`.
pub open spec fn isqrt(n: nat) -> nat
    decreases n,
{
    if n == 0 {
        0
    } else {
        let r = isqrt((n - 1) as nat);
        if (r + 1) * (r + 1) <= n {
            r + 1
        } else {
            r
        }
    }
}

/// `isqrt(n)` squares to at most `n`, and its successor squares to more.
pub proof fn lemma_isqrt_bounds(n: nat)
    ensures
        isqrt(n) * isqrt(n) <= n < (isqrt(n) + 1) * (isqrt(n) + 1),
    decreases n,
{
    if n > 0 {
        lemma_isqrt_bounds((n - 1) as nat);
        let r = isqrt((n - 1) as nat);
        if (r + 1) * (r + 1) <= n {
            assert(isqrt(n) == r + 1);
            assert((r + 1 + 1) * (r + 1 + 1) > (r + 1) * (r + 1)) by (nonlinear_arith);
        } else {
            assert(isqrt(n) == r);
        }
    } else {
        assert(isqrt(n) == 0);
        assert(0 * 0 == 0 && (0 + 1) * (0 + 1) == 1) by (nonlinear_arith);
    }
}

/// Only one natural number lies between the bounds of `lemma_isqrt_bounds`.
pub proof fn lemma_isqrt_unique(n: nat, r: nat)
    requires
        r * r <= n < (r + 1) * (r + 1),
    ensures
        r == isqrt(n),
{
    lemma_isqrt_bounds(n);
    let s = isqrt(n);
    if r < s {
        assert((r + 1) * (r + 1) <= s * s) by (nonlinear_arith)
            requires
                r + 1 <= s,
        ;
    } else if s < r {
        assert((s + 1) * (s + 1) <= r * r) by (nonlinear_arith)
            requires
                s + 1 <= r,
        ;
    }
}

/// Magnitudes multiply: a product is bounded by the product of the bounds.
pub proof fn lemma_product_bound(a: int, b: int, x: int, y: int)
    requires
        -x <= a <= x,
        -y <= b <= y,
    ensures
        -(x * y) <= a * b <= x * y,
{
    assert(-(x * y) <= a * b <= x * y) by (nonlinear_arith)
        requires
            -x <= a <= x,
            -y <= b <= y,
    ;
}

/// Rounding toward zero never moves a quotient by a whole unit.
pub proof fn lemma_trunc_div_remainder(n: int, d: int)
    requires
        d > 0,
    ensures
        -d < n - d * trunc_div(n, d) < d,
        n >= 0 ==> 0 <= n - d * trunc_div(n, d),
        n <= 0 ==> n - d * trunc_div(n, d) <= 0,
        -n <= trunc_div(n, d) <= n || n <= trunc_div(n, d) <= -n,
{
    if n >= 0 {
        assert(0 <= n - d * (n / d) < d && 0 <= n / d <= n) by (nonlinear_arith)
            requires
                d > 0,
                n >= 0,
        ;
    } else {
        let m = -n;
        assert(0 <= m - d * (m / d) < d && 0 <= m / d <= m) by (nonlinear_arith)
            requires
                d > 0,
                m >= 0,
        ;
        assert(d * (-(m / d)) == -(d * (m / d))) by (nonlinear_arith);
    }
}

/// A fixed-point product of two `i64` values stays below two to the power 111.
pub proof fn lemma_fmul_bound(a: int, b: int)
    requires
        -0x8000_0000_0000_0000 <= a <= 0x8000_0000_0000_0000,
        -0x8000_0000_0000_0000 <= b <= 0x8000_0000_0000_0000,
    ensures
        -0x8000_0000_0000_0000_0000_0000_0000 <= fmul(a, b) <= 0x8000_0000_0000_0000_0000_0000_0000,
{
    lemma_product_bound(a, b, 0x8000_0000_0000_0000, 0x8000_0000_0000_0000);
    lemma_trunc_div_remainder(a * b, ONE as int);
}

/// Divides rounding toward zero.
pub fn quotient(n: i128, d: i128) -> (q: i128)
    requires
        d > 0,
        n > i128::MIN,
    ensures
        q == trunc_div(n as int, d as int),
{
    proof {
        lemma_trunc_div_remainder(n as int, d as int);
    }
    if n >= 0 {
        n / d
    } else {
        -((-n) / d)
    }
}

/// Stores a wide value as a scalar where it fits.
pub fn narrow(x: i128) -> (r: Option<i64>)
    ensures
        r == (if in_range(x as int) {
            Some(x as i64)
        } else {
            None
        }),
{
    if -(LIMIT as i128) <= x && x <= LIMIT as i128 {
        Some(x as i64)
    } else {
        None
    }
}

/// Multiplies two raw values as fixed-point numbers.
pub fn multiply(a: i64, b: i64) -> (r: i128)
    ensures
        r == fmul(a as int, b as int),
{
    proof {
        lemma_product_bound(a as int, b as int, 0x8000_0000_0000_0000, 0x8000_0000_0000_0000);
    }
    let wide: i128 = (a as i128) * (b as i128);
    quotient(wide, ONE as i128)
}

/// Computes the integer square root by bisection.
pub fn sqrt_floor(n: u128) -> (r: u64)
    requires
        n < 0x1_0000_0000_0000_0000_0000_0000_0000,
    ensures
        r == isqrt(n as nat),
{
    let mut lo: u128 = 0;
    let mut hi: u128 = 0x100_0000_0000_0000;
    assert(hi * hi > n) by (nonlinear_arith)
        requires
            hi == 0x100_0000_0000_0000,
            n < 0x1_0000_0000_0000_0000_0000_0000_0000,
    ;
    while hi - lo > 1
        invariant
            lo < hi <= 0x100_0000_0000_0000,
            lo * lo <= n < hi * hi,
        decreases hi - lo,
    {
        let mid: u128 = lo + (hi - lo) / 2;
        assert(mid * mid <= 0x100_0000_0000_0000 * 0x100_0000_0000_0000) by (nonlinear_arith)
            requires
                0 <= mid <= 0x100_0000_0000_0000,
        ;
        if mid * mid <= n {
            lo = mid;
        } else {
            hi = mid;
        }
    }
    proof {
        lemma_isqrt_unique(n as nat, lo as nat);
    }
    lo as u64
}

} // verus!
