//! Integer helpers the engine is built on: truncating and away-from-zero
//! division, and the integer square root.

use vstd::prelude::*;

verus! {

/// Absolute value of a mathematical integer.
pub open spec fn iabs(a: int) -> int {
    if a >= 0 {
        a
    } else {
        -a
    }
}

/// Quotient rounded toward zero, the rounding used everywhere the engine
/// divides.
pub open spec fn div_trunc(a: int, b: int) -> int
    recommends
        b >= 1,
{
    if a >= 0 {
        a / b
    } else {
        -((-a) / b)
    }
}

/// Quotient rounded away from zero.
pub open spec fn div_away(a: int, b: int) -> int
    recommends
        b >= 1,
{
    if a >= 0 {
        (a + b - 1) / b
    } else {
        -(((-a) + b - 1) / b)
    }
}

/// Floor of the square root; `0` on non-positive input.
pub open spec fn sqrt_floor(n: int) -> int
    decreases n,
{
    if n <= 0 {
        0
    } else {
        let r = sqrt_floor(n - 1);
        if (r + 1) * (r + 1) <= n {
            r + 1
        } else {
            r
        }
    }
}

/// Ceiling of the square root; `0` on non-positive input.
pub open spec fn sqrt_ceil(n: int) -> int {
    let r = sqrt_floor(n);
    if r * r == n {
        r
    } else {
        r + 1
    }
}

pub proof fn lemma_div_trunc(a: int, b: int)
    requires
        b >= 1,
    ensures
        iabs(div_trunc(a, b)) * b <= iabs(a),
        iabs(a) < iabs(div_trunc(a, b)) * b + b,
        iabs(div_trunc(a, b)) <= iabs(a),
        a >= 0 ==> div_trunc(a, b) >= 0,
        a <= 0 ==> div_trunc(a, b) <= 0,
{
    let m = iabs(a);
    let q = m / b;
    vstd::arithmetic::div_mod::lemma_fundamental_div_mod(m, b);
    assert(q * b <= m && m < q * b + b && q >= 0) by (nonlinear_arith)
        requires
            b >= 1,
            m >= 0,
            m == b * q + m % b,
            0 <= m % b < b,
    {
    }
    assert(q <= q * b) by (nonlinear_arith)
        requires
            q >= 0,
            b >= 1,
    {
    }
    assert(iabs(div_trunc(a, b)) == q);
}

pub proof fn lemma_div_away(a: int, b: int)
    requires
        b >= 1,
    ensures
        iabs(a) <= iabs(div_away(a, b)) * b,
        iabs(div_away(a, b)) * b < iabs(a) + b,
        iabs(div_away(a, b)) <= iabs(a),
        a >= 0 ==> div_away(a, b) >= 0,
        a <= 0 ==> div_away(a, b) <= 0,
{
    let m = iabs(a);
    let q = (m + b - 1) / b;
    vstd::arithmetic::div_mod::lemma_fundamental_div_mod(m + b - 1, b);
    assert(m <= q * b && q * b < m + b && q >= 0) by (nonlinear_arith)
        requires
            b >= 1,
            m >= 0,
            m + b - 1 == b * q + (m + b - 1) % b,
            0 <= (m + b - 1) % b < b,
    {
    }
    assert(q <= m) by (nonlinear_arith)
        requires
            q * b < m + b,
            b >= 1,
            q >= 0,
            m >= 0,
    {
    }
    assert(iabs(div_away(a, b)) == q);
}

pub proof fn lemma_sqrt_floor(n: int)
    ensures
        sqrt_floor(n) >= 0,
        sqrt_floor(n) * sqrt_floor(n) <= iabs(n),
        n >= 0 ==> n < (sqrt_floor(n) + 1) * (sqrt_floor(n) + 1),
        sqrt_floor(n) <= iabs(n),
    decreases iabs(n) + 1,
{
    if n <= 0 {
    } else {
        lemma_sqrt_floor(n - 1);
        let r = sqrt_floor(n - 1);
        if (r + 1) * (r + 1) <= n {
            assert(r + 1 <= (r + 1) * (r + 1)) by (nonlinear_arith)
                requires
                    r >= 0,
            {
            }
            assert(n < (r + 2) * (r + 2)) by (nonlinear_arith)
                requires
                    n - 1 < (r + 1) * (r + 1),
                    r >= 0,
            {
            }
        }
    }
}

/// Any integer whose square brackets `n` is the floor square root of `n`.
pub proof fn lemma_sqrt_floor_unique(n: int, r: int)
    requires
        n >= 0,
        r >= 0,
        r * r <= n,
        n < (r + 1) * (r + 1),
    ensures
        r == sqrt_floor(n),
{
    lemma_sqrt_floor(n);
    let s = sqrt_floor(n);
    if r < s {
        assert((r + 1) * (r + 1) <= s * s) by (nonlinear_arith)
            requires
                0 <= r,
                r + 1 <= s,
        {
        }
    }
    if s < r {
        assert((s + 1) * (s + 1) <= r * r) by (nonlinear_arith)
            requires
                0 <= s,
                s + 1 <= r,
        {
        }
    }
}

pub proof fn lemma_sqrt_ceil(n: int)
    requires
        n >= 0,
    ensures
        sqrt_ceil(n) >= 0,
        n <= sqrt_ceil(n) * sqrt_ceil(n),
        n >= 1 ==> (sqrt_ceil(n) - 1) * (sqrt_ceil(n) - 1) < n,
        n >= 1 ==> sqrt_ceil(n) >= 1,
{
    lemma_sqrt_floor(n);
    let r = sqrt_floor(n);
    if n >= 1 && r * r == n {
        assert(r >= 1 && (r - 1) * (r - 1) < r * r) by (nonlinear_arith)
            requires
                r >= 0,
                r * r >= 1,
        {
        }
    }
}

/// A product of bounded factors is bounded by the product of the bounds.
pub proof fn lemma_abs_mul(a: int, ca: int, b: int, cb: int)
    requires
        iabs(a) <= ca,
        iabs(b) <= cb,
    ensures
        iabs(a * b) <= ca * cb,
{
    assert(iabs(a * b) <= ca * cb) by (nonlinear_arith)
        requires
            iabs(a) <= ca,
            iabs(b) <= cb,
    {
    }
}

/// Computes `div_trunc(a, b)` on machine integers.
pub fn div_q(a: i64, b: i64) -> (r: i64)
    requires
        1 <= b,
        -0x4000_0000_0000_0000 < a < 0x4000_0000_0000_0000,
    ensures
        r == div_trunc(a as int, b as int),
        iabs(r as int) <= iabs(a as int),
{
    proof {
        lemma_div_trunc(a as int, b as int);
    }
    if a >= 0 {
        let q: u64 = (a as u64) / (b as u64);
        q as i64
    } else {
        let q: u64 = ((-a) as u64) / (b as u64);
        -(q as i64)
    }
}

/// Computes `div_away(a, b)` on machine integers.
pub fn div_q_away(a: i64, b: i64) -> (r: i64)
    requires
        1 <= b,
        -0x2000_0000_0000_0000 < a < 0x2000_0000_0000_0000,
        b < 0x2000_0000_0000_0000,
    ensures
        r == div_away(a as int, b as int),
        iabs(r as int) <= iabs(a as int),
{
    proof {
        lemma_div_away(a as int, b as int);
    }
    if a >= 0 {
        let q: u64 = ((a + b - 1) as u64) / (b as u64);
        q as i64
    } else {
        let q: u64 = ((-a + b - 1) as u64) / (b as u64);
        proof {
            lemma_div_away(a as int, b as int);
        }
        -(q as i64)
    }
}

/// Computes `sqrt_floor(n)` by binary search.
pub fn isqrt(n: u64) -> (r: u64)
    requires
        n < 0x4000_0000_0000_0000,
    ensures
        r == sqrt_floor(n as int),
        r * r <= n,
        (n as int) < (r + 1) * (r + 1),
        r <= 0x8000_0000,
{
    let mut lo: u64 = 0;
    let mut hi: u64 = 0x8000_0000;
    assert(0x8000_0000int * 0x8000_0000int == 0x4000_0000_0000_0000int) by (nonlinear_arith);
    while hi - lo > 1
        invariant
            lo < hi <= 0x8000_0000,
            (lo as int) * (lo as int) <= n as int,
            (n as int) < (hi as int) * (hi as int),
        decreases hi - lo,
    {
        let mid: u64 = lo + (hi - lo) / 2;
        assert(mid * mid <= 0x8000_0000 * 0x8000_0000) by (nonlinear_arith)
            requires
                0 <= mid <= 0x8000_0000,
        {
        }
        if mid * mid <= n {
            lo = mid;
        } else {
            hi = mid;
        }
    }
    proof {
        lemma_sqrt_floor_unique(n as int, lo as int);
    }
    lo
}

} // verus!
