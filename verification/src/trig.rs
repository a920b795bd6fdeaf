//! Fixed-point circular functions and axis-angle rotation.
//!
//! Angles are fixed-point radians (`SCALE` subunits per radian).  `sin_fix`
//! range-reduces into one period, folds into the central quarter wave, and
//! evaluates a degree-7 polynomial; the result is clamped into `[-SCALE,
//! SCALE]`, the range of an exact sine.  Every function's contract gives the
//! computed value exactly, over the spec mirrors defined here.

use vstd::prelude::*;

use crate::fixed::{div_t, div_t_wide, fxmul, iabs, lemma_tdiv_bound, mul_fx, tdiv, SCALE};
use crate::vec3::{bounded, cross_v, dot_v, lemma_cross_bound, lemma_dot_bound, lemma_mul_bound,
    normalize_spec,
    unit_scaled, Vec3, V3};

verus! {

/// One half turn, in fixed-point radians.
pub const PI_FIX: i64 = 205887;

/// One quarter turn, in fixed-point radians.
pub const HALF_PI_FIX: i64 = 102944;

/// One full turn, in fixed-point radians.
pub const TWO_PI_FIX: i64 = 411774;

/// Largest angle magnitude the circular functions accept.
pub const ANGLE_LIMIT: i64 = 0x4_0000_0000_0000;

pub open spec fn clamp_unit(r: int) -> int {
    if r > SCALE {
        SCALE as int
    } else if r < -SCALE {
        -SCALE as int
    } else {
        r
    }
}

/// The quarter-wave polynomial: the degree-7 Taylor sine in fixed point.
pub open spec fn sin_poly(y: int) -> int {
    let y2 = y * y;
    let y3 = y2 * y;
    let y5 = y3 * y2;
    let y7 = y5 * y2;
    y - tdiv(y3, 25769803776) + tdiv(y5, 2213609288845146193920) - tdiv(
        y7,
        399309939071892261471461509693440,
    )
}

/// Reduction of any angle into `(-TWO_PI_FIX, TWO_PI_FIX)` and then into
/// `[0, TWO_PI_FIX)`.
pub open spec fn reduce_turn(x: int) -> int {
    let r = x - tdiv(x, TWO_PI_FIX as int) * TWO_PI_FIX;
    if r < 0 {
        r + TWO_PI_FIX
    } else {
        r
    }
}

/// The fixed-point sine: range reduction, quarter-wave folding, polynomial,
/// and a final clamp into the unit range.
pub open spec fn sin_spec(x: int) -> int {
    let r = reduce_turn(x);
    let y = if r > PI_FIX { r - TWO_PI_FIX } else { r };
    let f = if y > HALF_PI_FIX {
        PI_FIX - y
    } else if y < -HALF_PI_FIX {
        -PI_FIX - y
    } else {
        y
    };
    clamp_unit(sin_poly(f))
}

pub open spec fn cos_spec(x: int) -> int {
    sin_spec(HALF_PI_FIX - x)
}

/// Remainder toward zero stays within one divisor of zero.
proof fn lemma_trem_range(x: int, b: int)
    by (nonlinear_arith)
    requires
        b > 0,
    ensures
        iabs(x - tdiv(x, b) * b) < b,
{
}

#[verifier::rlimit(100)]
pub fn sin_fix(x: i64) -> (r: i64)
    requires
        iabs(x as int) <= ANGLE_LIMIT + TWO_PI_FIX,
    ensures
        r == sin_spec(x as int),
        iabs(r as int) <= SCALE,
{
    let q = div_t(x, TWO_PI_FIX);
    proof {
        lemma_trem_range(x as int, TWO_PI_FIX as int);
    }
    let rem: i64 = ((x as i128) - (q as i128) * (TWO_PI_FIX as i128)) as i64;
    let r0: i64 = if rem < 0 {
        rem + TWO_PI_FIX
    } else {
        rem
    };
    let y: i64 = if r0 > PI_FIX {
        r0 - TWO_PI_FIX
    } else {
        r0
    };
    let f: i64 = if y > HALF_PI_FIX {
        PI_FIX - y
    } else if y < -HALF_PI_FIX {
        -PI_FIX - y
    } else {
        y
    };
    let fw = f as i128;
    proof {
        lemma_mul_bound(f as int, f as int, 102944, 102944);
        lemma_mul_bound(f as int * f as int, f as int, 102944int * 102944, 102944);
        lemma_mul_bound(
            (f as int * f as int) * (f as int),
            f as int * f as int,
            (102944int * 102944) * 102944,
            102944int * 102944,
        );
        lemma_mul_bound(
            ((f as int * f as int) * (f as int)) * (f as int * f as int),
            f as int * f as int,
            ((102944int * 102944) * 102944) * (102944int * 102944),
            102944int * 102944,
        );
    }
    let f2 = fw * fw;
    let f3 = f2 * fw;
    let f5 = f3 * f2;
    let f7 = f5 * f2;
    let t3 = div_t_wide(f3, 25769803776);
    let t5 = div_t_wide(f5, 2213609288845146193920);
    let t7 = div_t_wide(f7, 399309939071892261471461509693440);
    let p: i128 = (fw - t3 + t5 - t7);
    proof {
        lemma_tdiv_bound(f3 as int, 25769803776, 0x8_0000);
        lemma_tdiv_bound(f5 as int, 2213609288845146193920, 0x8_0000);
        lemma_tdiv_bound(f7 as int, 399309939071892261471461509693440, 0x8_0000);
    }
    let pc: i64 = p as i64;
    if pc > SCALE {
        SCALE
    } else if pc < -SCALE {
        -SCALE
    } else {
        pc
    }
}

pub fn cos_fix(x: i64) -> (r: i64)
    requires
        iabs(x as int) <= ANGLE_LIMIT,
    ensures
        r == cos_spec(x as int),
        iabs(r as int) <= SCALE,
{
    sin_fix(HALF_PI_FIX - x)
}

/// One bisection pass for the arc cosine: halve `[lo, hi]` keeping the
/// fixed-point cosine on the two sides of `c`.
pub open spec fn acos_iter(lo: int, hi: int, c: int, n: nat) -> (int, int)
    decreases n,
{
    if n == 0 {
        (lo, hi)
    } else {
        let mid = tdiv(lo + hi, 2);
        if cos_spec(mid) > c {
            acos_iter(mid, hi, c, (n - 1) as nat)
        } else {
            acos_iter(lo, mid, c, (n - 1) as nat)
        }
    }
}

/// The fixed-point arc cosine: 32 bisection passes over `[0, PI_FIX]`.
pub open spec fn acos_spec(c: int) -> int {
    acos_iter(0, PI_FIX as int, clamp_unit(c), 32).0
}

pub fn acos_fix(c: i64) -> (r: i64)
    ensures
        r == acos_spec(c as int),
        0 <= r <= PI_FIX,
{
    let cc: i64 = if c > SCALE {
        SCALE
    } else if c < -SCALE {
        -SCALE
    } else {
        c
    };
    let mut lo: i64 = 0;
    let mut hi: i64 = PI_FIX;
    for i in 0..32usize
        invariant
            0 <= lo <= hi <= PI_FIX,
            cc == clamp_unit(c as int),
            acos_iter(lo as int, hi as int, cc as int, (32 - i) as nat) == acos_iter(
                0,
                PI_FIX as int,
                cc as int,
                32,
            ),
    {
        let mid = div_t(lo + hi, 2);
        if cos_fix(mid) > cc {
            lo = mid;
        } else {
            hi = mid;
        }
    }
    lo
}

/// Rodrigues' formula in fixed point: rotate the direction `v` around the
/// axis `k` by `angle`.  Exact statement of the computed value; the result is
/// close to unit-scaled but not renormalized, so callers normalize.
pub open spec fn rotate_spec(v: V3, k: V3, angle: int) -> V3 {
    let c = cos_spec(angle);
    let s = sin_spec(angle);
    let kv = V3 {
        x: tdiv(cross_v(k, v).x, SCALE as int),
        y: tdiv(cross_v(k, v).y, SCALE as int),
        z: tdiv(cross_v(k, v).z, SCALE as int),
    };
    let dd = tdiv(dot_v(k, v), SCALE as int);
    let u = tdiv((SCALE - c) * dd, SCALE as int);
    V3 {
        x: fxmul(c, v.x) + fxmul(s, kv.x) + fxmul(k.x, u),
        y: fxmul(c, v.y) + fxmul(s, kv.y) + fxmul(k.y, u),
        z: fxmul(c, v.z) + fxmul(s, kv.z) + fxmul(k.z, u),
    }
}

/// Rotate the unit-scaled direction `v` around the unit-scaled axis `k`.
#[verifier::rlimit(100)]
pub fn rotate_axis_angle(v: &Vec3, k: &Vec3, angle: i64) -> (r: Vec3)
    requires
        unit_scaled(v@),
        unit_scaled(k@),
        iabs(angle as int) <= ANGLE_LIMIT,
    ensures
        r@ == rotate_spec(v@, k@, angle as int),
        bounded(r@, 256 * SCALE),
{
    let c = cos_fix(angle);
    let s = sin_fix(angle);
    proof {
        lemma_cross_bound(k@, v@, SCALE as int, SCALE as int);
        lemma_dot_bound(k@, v@, SCALE as int, SCALE as int);
    }
    let kvr = k.cross(v);
    let kv = Vec3 {
        x: div_t(kvr.x, SCALE),
        y: div_t(kvr.y, SCALE),
        z: div_t(kvr.z, SCALE),
    };
    proof {
        lemma_tdiv_bound(cross_v(k@, v@).x, SCALE as int, 2 * SCALE);
        lemma_tdiv_bound(cross_v(k@, v@).y, SCALE as int, 2 * SCALE);
        lemma_tdiv_bound(cross_v(k@, v@).z, SCALE as int, 2 * SCALE);
        lemma_tdiv_bound(dot_v(k@, v@), SCALE as int, 3 * SCALE);
    }
    let d = k.dot(v);
    let dd = div_t_wide(d, SCALE as i128) as i64;
    proof {
        lemma_mul_bound((SCALE - c) as int, dd as int, 2 * SCALE, 3 * SCALE);
        assert((2 * SCALE) * (3 * SCALE) == (6 * SCALE) * (SCALE as int)) by (nonlinear_arith);
        lemma_tdiv_bound((SCALE - c) * dd, SCALE as int, 6 * SCALE);
    }
    let u = div_t_wide(((SCALE - c) as i128) * (dd as i128), SCALE as i128) as i64;
    let rx = mul_fx(c, v.x) + mul_fx(s, kv.x) + mul_fx(k.x, u);
    let ry = mul_fx(c, v.y) + mul_fx(s, kv.y) + mul_fx(k.y, u);
    let rz = mul_fx(c, v.z) + mul_fx(s, kv.z) + mul_fx(k.z, u);
    Vec3 { x: rx, y: ry, z: rz }
}

/// Largest interpolation parameter magnitude `slerp` accepts; `SCALE` is one
/// full step, so this allows far extrapolation past either end.
pub const SLERP_T_LIMIT: i64 = 0x100_0000;

/// Spherical interpolation between two unit-scaled directions at parameter
/// `t` (fixed point; outside `[0, SCALE]` it extrapolates).  Near-parallel
/// directions, where the sine of the separation underflows, fall back to
/// straight interpolation; either way the result is renormalized.
pub open spec fn slerp_spec(u0: V3, u1: V3, t: int) -> V3 {
    let d = tdiv(dot_v(u0, u1), SCALE as int);
    let om = acos_spec(d);
    let so = sin_spec(om);
    if so < 1024 {
        normalize_spec(
            V3 {
                x: tdiv((SCALE - t) * u0.x + t * u1.x, SCALE as int),
                y: tdiv((SCALE - t) * u0.y + t * u1.y, SCALE as int),
                z: tdiv((SCALE - t) * u0.z + t * u1.z, SCALE as int),
            },
        )
    } else {
        let sa = sin_spec(tdiv((SCALE - t) * om, SCALE as int));
        let sb = sin_spec(tdiv(t * om, SCALE as int));
        normalize_spec(
            V3 {
                x: tdiv(sa * u0.x + sb * u1.x, so),
                y: tdiv(sa * u0.y + sb * u1.y, so),
                z: tdiv(sa * u0.z + sb * u1.z, so),
            },
        )
    }
}

pub fn slerp(u0: &Vec3, u1: &Vec3, t: i64) -> (r: Vec3)
    requires
        unit_scaled(u0@),
        unit_scaled(u1@),
        iabs(t as int) <= SLERP_T_LIMIT,
    ensures
        r@ == slerp_spec(u0@, u1@, t as int),
        unit_scaled(r@),
{
    proof {
        lemma_dot_bound(u0@, u1@, SCALE as int, SCALE as int);
        lemma_tdiv_bound(dot_v(u0@, u1@), SCALE as int, 3 * SCALE);
    }
    let d = div_t_wide(u0.dot(u1), SCALE as i128) as i64;
    let om = acos_fix(d);
    let so = sin_fix(om);
    if so < 1024 {
        proof {
            lemma_mul_bound(SCALE - t, u0@.x, SCALE + SLERP_T_LIMIT, SCALE as int);
            lemma_mul_bound(SCALE - t, u0@.y, SCALE + SLERP_T_LIMIT, SCALE as int);
            lemma_mul_bound(SCALE - t, u0@.z, SCALE + SLERP_T_LIMIT, SCALE as int);
            lemma_mul_bound(t as int, u1@.x, SLERP_T_LIMIT as int, SCALE as int);
            lemma_mul_bound(t as int, u1@.y, SLERP_T_LIMIT as int, SCALE as int);
            lemma_mul_bound(t as int, u1@.z, SLERP_T_LIMIT as int, SCALE as int);
            lemma_tdiv_bound(
                (SCALE - t) * u0@.x + t * u1@.x,
                SCALE as int,
                SCALE + 2 * SLERP_T_LIMIT,
            );
            lemma_tdiv_bound(
                (SCALE - t) * u0@.y + t * u1@.y,
                SCALE as int,
                SCALE + 2 * SLERP_T_LIMIT,
            );
            lemma_tdiv_bound(
                (SCALE - t) * u0@.z + t * u1@.z,
                SCALE as int,
                SCALE + 2 * SLERP_T_LIMIT,
            );
        }
        let st = (SCALE - t) as i128;
        let tt = t as i128;
        let raw = Vec3 {
            x: div_t_wide(st * (u0.x as i128) + tt * (u1.x as i128), SCALE as i128) as i64,
            y: div_t_wide(st * (u0.y as i128) + tt * (u1.y as i128), SCALE as i128) as i64,
            z: div_t_wide(st * (u0.z as i128) + tt * (u1.z as i128), SCALE as i128) as i64,
        };
        raw.normalize()
    } else {
        proof {
            lemma_mul_bound(SCALE - t, om as int, SCALE + SLERP_T_LIMIT, PI_FIX as int);
            lemma_mul_bound(t as int, om as int, SLERP_T_LIMIT as int, PI_FIX as int);
            lemma_tdiv_bound((SCALE - t) * om, SCALE as int, 64 * SLERP_T_LIMIT);
            lemma_tdiv_bound(t * om, SCALE as int, 64 * SLERP_T_LIMIT);
        }
        let sa = sin_fix(div_t_wide(((SCALE - t) as i128) * (om as i128), SCALE as i128) as i64);
        let sb = sin_fix(div_t_wide((t as i128) * (om as i128), SCALE as i128) as i64);
        proof {
            lemma_mul_bound(sa as int, u0@.x, SCALE as int, SCALE as int);
            lemma_mul_bound(sa as int, u0@.y, SCALE as int, SCALE as int);
            lemma_mul_bound(sa as int, u0@.z, SCALE as int, SCALE as int);
            lemma_mul_bound(sb as int, u1@.x, SCALE as int, SCALE as int);
            lemma_mul_bound(sb as int, u1@.y, SCALE as int, SCALE as int);
            lemma_mul_bound(sb as int, u1@.z, SCALE as int, SCALE as int);
            assert(0x80_0000 * (so as int) >= 2 * ((SCALE as int) * (SCALE as int)))
                by (nonlinear_arith)
                requires
                    so >= 1024,
            ;
            lemma_tdiv_bound(sa * u0@.x + sb * u1@.x, so as int, 0x80_0000);
            lemma_tdiv_bound(sa * u0@.y + sb * u1@.y, so as int, 0x80_0000);
            lemma_tdiv_bound(sa * u0@.z + sb * u1@.z, so as int, 0x80_0000);
        }
        let sow = so as i128;
        let raw = Vec3 {
            x: div_t_wide((sa as i128) * (u0.x as i128) + (sb as i128) * (u1.x as i128), sow)
                as i64,
            y: div_t_wide((sa as i128) * (u0.y as i128) + (sb as i128) * (u1.y as i128), sow)
                as i64,
            z: div_t_wide((sa as i128) * (u0.z as i128) + (sb as i128) * (u1.z as i128), sow)
                as i64,
        };
        raw.normalize()
    }
}

} // verus!
