//! Fixed-point 3-vectors.
//!
//! `Vec3` is the executable type; its view `V3` carries the same three
//! components as unbounded integers, so contracts and models can speak of
//! exact arithmetic.  Direction vectors are kept near magnitude `SCALE`
//! ("unit-scaled") by [`normalize`].

use vstd::prelude::*;

use crate::fixed::{div_t_wide, fxmul, iabs, isqrt, isqrt_spec, lemma_tdiv_bound, mul_fx, tdiv,
    COORD_LIMIT, SCALE};

verus! {

/// An executable fixed-point vector: each component counts `SCALE` subunits
/// per world unit.
#[derive(Clone, Copy, Debug, PartialEq, Eq, Structural)]
pub struct Vec3 {
    pub x: i64,
    pub y: i64,
    pub z: i64,
}

/// The mathematical shadow of a `Vec3`: the same components, unbounded.
pub struct V3 {
    pub x: int,
    pub y: int,
    pub z: int,
}

impl View for Vec3 {
    type V = V3;

    open spec fn view(&self) -> V3 {
        V3 { x: self.x as int, y: self.y as int, z: self.z as int }
    }
}

/// Every component's magnitude is at most `b`.
pub open spec fn bounded(v: V3, b: int) -> bool {
    iabs(v.x) <= b && iabs(v.y) <= b && iabs(v.z) <= b
}

/// A coordinate vector the engine accepts: inside the world's box.
pub open spec fn wf_coord(v: V3) -> bool {
    bounded(v, COORD_LIMIT as int)
}

/// A direction vector as `normalize` produces it.
pub open spec fn unit_scaled(v: V3) -> bool {
    bounded(v, SCALE as int)
}

pub open spec fn add_v(a: V3, b: V3) -> V3 {
    V3 { x: a.x + b.x, y: a.y + b.y, z: a.z + b.z }
}

pub open spec fn sub_v(a: V3, b: V3) -> V3 {
    V3 { x: a.x - b.x, y: a.y - b.y, z: a.z - b.z }
}

pub open spec fn neg_v(a: V3) -> V3 {
    V3 { x: -a.x, y: -a.y, z: -a.z }
}

/// Componentwise fixed-point scaling: `s` is a fixed-point factor.
pub open spec fn scale_v(s: int, a: V3) -> V3 {
    V3 { x: fxmul(s, a.x), y: fxmul(s, a.y), z: fxmul(s, a.z) }
}

pub open spec fn dot_v(a: V3, b: V3) -> int {
    a.x * b.x + a.y * b.y + a.z * b.z
}

pub open spec fn cross_v(a: V3, b: V3) -> V3 {
    V3 {
        x: a.y * b.z - a.z * b.y,
        y: a.z * b.x - a.x * b.z,
        z: a.x * b.y - a.y * b.x,
    }
}

/// Squared magnitude.
pub open spec fn nsq_v(a: V3) -> int {
    dot_v(a, a)
}

/// The fixed-point unit vector along `a`: each component is `a_i * SCALE`
/// divided by the integer magnitude, truncated toward zero.  The zero vector
/// has no direction; it maps to the canonical `x` axis.
pub open spec fn normalize_spec(a: V3) -> V3 {
    if nsq_v(a) == 0 {
        V3 { x: SCALE as int, y: 0, z: 0 }
    } else {
        let m = isqrt_spec(nsq_v(a) as nat) as int;
        V3 {
            x: tdiv(a.x * SCALE, m),
            y: tdiv(a.y * SCALE, m),
            z: tdiv(a.z * SCALE, m),
        }
    }
}

pub proof fn lemma_nsq_nonneg(a: V3)
    by (nonlinear_arith)
    ensures
        nsq_v(a) >= 0,
        a.x * a.x <= nsq_v(a),
        a.y * a.y <= nsq_v(a),
        a.z * a.z <= nsq_v(a),
{
}

/// A product of bounded factors is bounded by the product of the bounds.
pub proof fn lemma_mul_bound(a: int, b: int, ba: int, bb: int)
    by (nonlinear_arith)
    requires
        iabs(a) <= ba,
        iabs(b) <= bb,
    ensures
        iabs(a * b) <= ba * bb,
{
}

pub proof fn lemma_dot_bound(a: V3, b: V3, ba: int, bb: int)
    requires
        bounded(a, ba),
        bounded(b, bb),
        0 <= ba,
        0 <= bb,
    ensures
        iabs(dot_v(a, b)) <= 3 * (ba * bb),
{
    lemma_mul_bound(a.x, b.x, ba, bb);
    lemma_mul_bound(a.y, b.y, ba, bb);
    lemma_mul_bound(a.z, b.z, ba, bb);
}

pub proof fn lemma_cross_bound(a: V3, b: V3, ba: int, bb: int)
    requires
        bounded(a, ba),
        bounded(b, bb),
        0 <= ba,
        0 <= bb,
    ensures
        bounded(cross_v(a, b), 2 * (ba * bb)),
{
    lemma_mul_bound(a.y, b.z, ba, bb);
    lemma_mul_bound(a.z, b.y, ba, bb);
    lemma_mul_bound(a.z, b.x, ba, bb);
    lemma_mul_bound(a.x, b.z, ba, bb);
    lemma_mul_bound(a.x, b.y, ba, bb);
    lemma_mul_bound(a.y, b.x, ba, bb);
}

impl Vec3 {
    pub fn new(x: i64, y: i64, z: i64) -> (r: Vec3)
        ensures
            r@ == (V3 { x: x as int, y: y as int, z: z as int }),
    {
        Vec3 { x, y, z }
    }

    pub fn zero() -> (r: Vec3)
        ensures
            r@ == (V3 { x: 0, y: 0, z: 0 }),
    {
        Vec3 { x: 0, y: 0, z: 0 }
    }

    pub fn add(&self, o: &Vec3) -> (r: Vec3)
        requires
            bounded(self@, 0x2000_0000_0000_0000),
            bounded(o@, 0x2000_0000_0000_0000),
        ensures
            r@ == add_v(self@, o@),
    {
        Vec3 { x: self.x + o.x, y: self.y + o.y, z: self.z + o.z }
    }

    pub fn sub(&self, o: &Vec3) -> (r: Vec3)
        requires
            bounded(self@, 0x2000_0000_0000_0000),
            bounded(o@, 0x2000_0000_0000_0000),
        ensures
            r@ == sub_v(self@, o@),
    {
        Vec3 { x: self.x - o.x, y: self.y - o.y, z: self.z - o.z }
    }

    pub fn neg(&self) -> (r: Vec3)
        requires
            bounded(self@, 0x2000_0000_0000_0000),
        ensures
            r@ == neg_v(self@),
    {
        Vec3 { x: -self.x, y: -self.y, z: -self.z }
    }

    /// Scale a vector by the fixed-point factor `s`.
    pub fn scale(&self, s: i64) -> (r: Vec3)
        requires
            iabs(s as int) <= 8 * SCALE,
            bounded(self@, 16 * COORD_LIMIT),
        ensures
            r@ == scale_v(s as int, self@),
            iabs(r@.x) <= 8 * iabs(self@.x),
            iabs(r@.y) <= 8 * iabs(self@.y),
            iabs(r@.z) <= 8 * iabs(self@.z),
    {
        Vec3 { x: mul_fx(s, self.x), y: mul_fx(s, self.y), z: mul_fx(s, self.z) }
    }

    /// Scale a unit-scaled direction by a nonnegative fixed-point length:
    /// the result's components stay within the length.
    pub fn scale_dir(&self, len: i64) -> (r: Vec3)
        requires
            unit_scaled(self@),
            0 <= len <= 16 * COORD_LIMIT,
        ensures
            r@ == scale_v(len as int, self@),
            bounded(r@, len as int),
    {
        proof {
            lemma_mul_bound(self@.x, len as int, SCALE as int, len as int);
            lemma_mul_bound(self@.y, len as int, SCALE as int, len as int);
            lemma_mul_bound(self@.z, len as int, SCALE as int, len as int);
            assert((SCALE as int) * (len as int) == (len as int) * (SCALE as int))
                by (nonlinear_arith);
            assert(self@.x * len == len * self@.x) by (nonlinear_arith);
            assert(self@.y * len == len * self@.y) by (nonlinear_arith);
            assert(self@.z * len == len * self@.z) by (nonlinear_arith);
            lemma_tdiv_bound(len * self@.x, SCALE as int, len as int);
            lemma_tdiv_bound(len * self@.y, SCALE as int, len as int);
            lemma_tdiv_bound(len * self@.z, SCALE as int, len as int);
        }
        Vec3 {
            x: div_t_wide((self.x as i128) * (len as i128), SCALE as i128) as i64,
            y: div_t_wide((self.y as i128) * (len as i128), SCALE as i128) as i64,
            z: div_t_wide((self.z as i128) * (len as i128), SCALE as i128) as i64,
        }
    }

    /// Scale any vector by a fraction `p` of `SCALE`: each component stays
    /// between zero and itself.
    pub fn scale_frac(&self, p: i64) -> (r: Vec3)
        requires
            0 <= p <= SCALE,
            bounded(self@, 16 * COORD_LIMIT),
        ensures
            r@ == scale_v(p as int, self@),
            self@.x >= 0 ==> 0 <= r@.x <= self@.x,
            self@.x < 0 ==> self@.x <= r@.x <= 0,
            self@.y >= 0 ==> 0 <= r@.y <= self@.y,
            self@.y < 0 ==> self@.y <= r@.y <= 0,
            self@.z >= 0 ==> 0 <= r@.z <= self@.z,
            self@.z < 0 ==> self@.z <= r@.z <= 0,
    {
        proof {
            lemma_scale_frac_comp(p as int, self@.x);
            lemma_scale_frac_comp(p as int, self@.y);
            lemma_scale_frac_comp(p as int, self@.z);
        }
        Vec3 {
            x: div_t_wide((p as i128) * (self.x as i128), SCALE as i128) as i64,
            y: div_t_wide((p as i128) * (self.y as i128), SCALE as i128) as i64,
            z: div_t_wide((p as i128) * (self.z as i128), SCALE as i128) as i64,
        }
    }

    /// Exact dot product, wide to avoid any overflow.
    pub fn dot(&self, o: &Vec3) -> (r: i128)
        requires
            bounded(self@, 0x4000_0000_0000),
            bounded(o@, 0x4000_0000_0000),
        ensures
            r == dot_v(self@, o@),
    {
        proof {
            lemma_mul_bound(self@.x, o@.x, 0x4000_0000_0000, 0x4000_0000_0000);
            lemma_mul_bound(self@.y, o@.y, 0x4000_0000_0000, 0x4000_0000_0000);
            lemma_mul_bound(self@.z, o@.z, 0x4000_0000_0000, 0x4000_0000_0000);
        }
        (self.x as i128) * (o.x as i128) + (self.y as i128) * (o.y as i128) + (self.z as i128)
            * (o.z as i128)
    }

    /// Exact cross product.
    pub fn cross(&self, o: &Vec3) -> (r: Vec3)
        requires
            bounded(self@, 0x4000_0000),
            bounded(o@, 0x4000_0000),
        ensures
            r@ == cross_v(self@, o@),
    {
        proof {
            lemma_mul_bound(self@.y, o@.z, 0x4000_0000, 0x4000_0000);
            lemma_mul_bound(self@.z, o@.y, 0x4000_0000, 0x4000_0000);
            lemma_mul_bound(self@.z, o@.x, 0x4000_0000, 0x4000_0000);
            lemma_mul_bound(self@.x, o@.z, 0x4000_0000, 0x4000_0000);
            lemma_mul_bound(self@.x, o@.y, 0x4000_0000, 0x4000_0000);
            lemma_mul_bound(self@.y, o@.x, 0x4000_0000, 0x4000_0000);
        }
        Vec3 {
            x: ((self.y as i128) * (o.z as i128) - (self.z as i128) * (o.y as i128)) as i64,
            y: ((self.z as i128) * (o.x as i128) - (self.x as i128) * (o.z as i128)) as i64,
            z: ((self.x as i128) * (o.y as i128) - (self.y as i128) * (o.x as i128)) as i64,
        }
    }

    /// Squared magnitude, exact.
    pub fn nsq(&self) -> (r: i128)
        requires
            bounded(self@, 0x4000_0000_0000),
        ensures
            r == nsq_v(self@),
            r >= 0,
    {
        proof {
            lemma_nsq_nonneg(self@);
        }
        self.dot(self)
    }

    /// Integer magnitude: `isqrt` of the squared magnitude.
    pub fn magnitude(&self) -> (r: i64)
        requires
            bounded(self@, 0x4000_0000),
        ensures
            r == isqrt_spec(nsq_v(self@) as nat),
            0 <= r <= 0xFFFF_FFFF,
    {
        proof {
            lemma_nsq_nonneg(self@);
            lemma_dot_bound(self@, self@, 0x4000_0000, 0x4000_0000);
        }
        let n = self.nsq();
        let r = isqrt(n as u64);
        r as i64
    }

    /// The fixed-point unit vector along `self` (canonical `x` axis for the
    /// zero vector).
    pub fn normalize(&self) -> (r: Vec3)
        requires
            bounded(self@, 0x4000_0000),
        ensures
            r@ == normalize_spec(self@),
            unit_scaled(r@),
    {
        proof {
            lemma_nsq_nonneg(self@);
            lemma_dot_bound(self@, self@, 0x4000_0000, 0x4000_0000);
        }
        let n = self.nsq();
        if n == 0 {
            Vec3 { x: SCALE, y: 0, z: 0 }
        } else {
            let m = isqrt(n as u64);
            proof {
                assert(m as int >= 1) by (nonlinear_arith)
                    requires
                        nsq_v(self@) < (m as int + 1) * (m as int + 1),
                        nsq_v(self@) > 0,
                ;
                lemma_component_le_magnitude(self@, m as int);
                lemma_mul_bound(self@.x, SCALE as int, m as int, SCALE as int);
                lemma_mul_bound(self@.y, SCALE as int, m as int, SCALE as int);
                lemma_mul_bound(self@.z, SCALE as int, m as int, SCALE as int);
                assert(m * SCALE == SCALE * m) by (nonlinear_arith);
                lemma_tdiv_bound(self@.x * SCALE, m as int, SCALE as int);
                lemma_tdiv_bound(self@.y * SCALE, m as int, SCALE as int);
                lemma_tdiv_bound(self@.z * SCALE, m as int, SCALE as int);
            }
            let mi = m as i128;
            Vec3 {
                x: div_t_wide((self.x as i128) * (SCALE as i128), mi) as i64,
                y: div_t_wide((self.y as i128) * (SCALE as i128), mi) as i64,
                z: div_t_wide((self.z as i128) * (SCALE as i128), mi) as i64,
            }
        }
    }
}

/// A fraction of a component stays between zero and the component.
proof fn lemma_scale_frac_comp(p: int, x: int)
    by (nonlinear_arith)
    requires
        0 <= p <= SCALE,
    ensures
        x >= 0 ==> 0 <= fxmul(p, x) <= x,
        x < 0 ==> x <= fxmul(p, x) <= 0,
{
}

/// Each component of a vector is bounded by the integer magnitude.
proof fn lemma_component_le_magnitude(a: V3, m: int)
    by (nonlinear_arith)
    requires
        m >= 0,
        m * m <= nsq_v(a),
        nsq_v(a) < (m + 1) * (m + 1),
    ensures
        iabs(a.x) <= m,
        iabs(a.y) <= m,
        iabs(a.z) <= m,
{
}

} // verus!
