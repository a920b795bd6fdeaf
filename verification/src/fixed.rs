//! Fixed-point scalar arithmetic.
//!
//! A scalar is an `i64` counting `SCALE` subunits per world unit.  Division
//! truncates toward zero (`tdiv`), matching hardware signed division, and an
//! exact integer square root (`isqrt_spec`) underlies vector magnitudes.

use vstd::prelude::*;

verus! {

/// Subunits per world unit.
pub const SCALE: i64 = 65536;

/// Largest coordinate magnitude the engine works with (4096 world units).
/// Generation keeps every point well inside this; it keeps all the engine's
/// products of two coordinates within `i64` and deeper products within `i128`.
pub const COORD_LIMIT: i64 = 268435456;

/// Magnitude of an integer.
pub open spec fn iabs(a: int) -> int {
    if a >= 0 {
        a
    } else {
        -a
    }
}

/// Division truncated toward zero, the rounding used by all fixed-point
/// operations of this crate.
pub open spec fn tdiv(a: int, b: int) -> int
    recommends
        b > 0,
{
    if a >= 0 {
        a / b
    } else {
        -((-a) / b)
    }
}

/// The truncated quotient never exceeds the real quotient's magnitude:
/// if `iabs(a) <= c * b` then `iabs(tdiv(a, b)) <= c`.
pub proof fn lemma_tdiv_bound(a: int, b: int, c: int)
    by (nonlinear_arith)
    requires
        b > 0,
        0 <= c,
        iabs(a) <= c * b,
    ensures
        iabs(tdiv(a, b)) <= c,
{
}

/// Truncated division of `a` by a positive divisor `b`.
pub fn div_t(a: i64, b: i64) -> (r: i64)
    requires
        b > 0,
        a != i64::MIN,
    ensures
        r == tdiv(a as int, b as int),
        iabs(r as int) <= iabs(a as int),
{
    if a >= 0 {
        a / b
    } else {
        -((-a) / b)
    }
}

/// Truncated division of a wide intermediate by a positive divisor.
pub fn div_t_wide(a: i128, b: i128) -> (r: i128)
    requires
        b > 0,
        a != i128::MIN,
    ensures
        r == tdiv(a as int, b as int),
        iabs(r as int) <= iabs(a as int),
{
    if a >= 0 {
        a / b
    } else {
        -((-a) / b)
    }
}

/// Fixed-point product: `a * b` descaled by `SCALE`, truncating toward zero.
pub open spec fn fxmul(a: int, b: int) -> int {
    tdiv(a * b, SCALE as int)
}

/// Fixed-point product of a unit-magnitude factor and a coordinate.
///
/// The first factor is expected to be direction-sized (a few `SCALE`s at
/// most); the bound on the result is linear in the second factor, which is
/// what coordinate-growth arguments need.
pub fn mul_fx(a: i64, b: i64) -> (r: i64)
    requires
        iabs(a as int) <= 8 * SCALE,
        iabs(b as int) <= 16 * COORD_LIMIT,
    ensures
        r == fxmul(a as int, b as int),
        iabs(r as int) <= 8 * iabs(b as int),
{
    proof {
        assert(-0x8_0000_0000_0000int <= (a as int) * (b as int) <= 0x8_0000_0000_0000int)
            by (nonlinear_arith)
            requires
                -524288 <= a as int <= 524288,
                -0x1_0000_0000int <= b as int <= 0x1_0000_0000int,
        ;
    }
    let wide: i128 = (a as i128) * (b as i128);
    proof {
        assert(iabs(wide as int) <= iabs(b as int) * (8 * SCALE)) by (nonlinear_arith)
            requires
                wide == (a as int) * (b as int),
                iabs(a as int) <= 8 * SCALE,
        ;
        assert(iabs(b as int) * (8 * SCALE) == (8 * iabs(b as int)) * (SCALE as int))
            by (nonlinear_arith);
        lemma_tdiv_bound(wide as int, SCALE as int, 8 * iabs(b as int));
    }
    let r = div_t_wide(wide, SCALE as i128);
    r as i64
}

/// The exact integer square root, defined by counting up.
pub open spec fn isqrt_spec(n: nat) -> nat
    decreases n,
{
    if n == 0 {
        0
    } else {
        let r = isqrt_spec((n - 1) as nat);
        if (r + 1) * (r + 1) <= n {
            r + 1
        } else {
            r
        }
    }
}

/// `isqrt_spec` really is the integer square root.
pub proof fn lemma_isqrt_spec(n: nat)
    ensures
        isqrt_spec(n) * isqrt_spec(n) <= n,
        n < (isqrt_spec(n) + 1) * (isqrt_spec(n) + 1),
    decreases n,
{
    if n == 0 {
        assert(isqrt_spec(0) == 0);
        assert(n < (isqrt_spec(n) + 1) * (isqrt_spec(n) + 1)) by (nonlinear_arith)
            requires
                n == 0,
                isqrt_spec(n) == 0,
        ;
    } else {
        lemma_isqrt_spec((n - 1) as nat);
        let r = isqrt_spec((n - 1) as nat);
        assert(r * r <= n - 1);
        assert(n - 1 < (r + 1) * (r + 1));
        let s = isqrt_spec(n);
        if (r + 1) * (r + 1) <= n {
            assert(s == r + 1);
            assert(n < (s + 1) * (s + 1)) by (nonlinear_arith)
                requires
                    0 <= r,
                    s == r + 1,
                    n <= (r + 1) * (r + 1),
            ;
        } else {
            assert(s == r);
            assert(n < (s + 1) * (s + 1)) by (nonlinear_arith)
                requires
                    s == r,
                    n < (r + 1) * (r + 1),
            ;
        }
    }
}

/// Any value meeting the square-root bracketing is `isqrt_spec(n)`.
pub proof fn lemma_isqrt_unique(n: nat, r: nat)
    requires
        r * r <= n,
        n < (r + 1) * (r + 1),
    ensures
        r == isqrt_spec(n),
{
    lemma_isqrt_spec(n);
    let s = isqrt_spec(n);
    if r < s {
        assert((r + 1) * (r + 1) <= s * s) by (nonlinear_arith)
            requires
                0 <= r,
                r + 1 <= s,
        ;
    }
    if s < r {
        assert((s + 1) * (s + 1) <= r * r) by (nonlinear_arith)
            requires
                0 <= s,
                s + 1 <= r,
        ;
    }
}

/// Integer square root by bisection.
pub fn isqrt(n: u64) -> (r: u64)
    ensures
        r == isqrt_spec(n as nat),
        r * r <= n < (r + 1) * (r + 1),
        r <= 0xFFFF_FFFF,
{
    let mut lo: u64 = 0;
    let mut hi: u64 = 0x1_0000_0000;
    proof {
        assert((0x1_0000_0000int) * (0x1_0000_0000int) > n as int) by (nonlinear_arith)
            requires
                n <= u64::MAX,
        ;
    }
    while lo + 1 < hi
        invariant
            lo < hi <= 0x1_0000_0000,
            lo * lo <= n,
            n < hi * hi,
        decreases hi - lo,
    {
        let mid = lo + (hi - lo) / 2;
        proof {
            assert((mid as int) * (mid as int) <= 0x1_0000_0000_0000_0000int)
                by (nonlinear_arith)
                requires
                    0 <= mid <= 0x1_0000_0000,
            ;
        }
        let sq: u128 = (mid as u128) * (mid as u128);
        if sq <= n as u128 {
            lo = mid;
        } else {
            hi = mid;
        }
    }
    proof {
        lemma_isqrt_unique(n as nat, lo as nat);
    }
    lo
}

} // verus!
