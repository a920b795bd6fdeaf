//! Finite rays (segments), in space and in the plane.
//!
//! The 3D ray supports the face-intersection query navigation uses; the 2D
//! ray carries the slope-based segment-intersection used for in-plane
//! tests, in exact fixed-point arithmetic.

use vstd::prelude::*;

use crate::bbox::BoundingBox;
use crate::face::Face;
use crate::fixed::{div_t_wide, fxmul, iabs, lemma_tdiv_bound, tdiv, COORD_LIMIT, SCALE};
use crate::nav::segment_meets_face;
use crate::vec3::{bounded, lemma_mul_bound, sub_v, wf_coord, Vec3};

verus! {

/// A directed segment in space.
#[derive(Clone, Copy, Debug)]
pub struct Ray {
    pub start: Vec3,
    pub end: Vec3}

impl Ray {
    pub fn new(start: Vec3, end: Vec3) -> (r: Ray)
        ensures
            r.start == start,
            r.end == end,
    {
        Ray { start, end }
    }

    /// The same segment, walked the other way.
    pub fn invert(&self) -> (r: Ray)
        ensures
            r.start == self.end,
            r.end == self.start,
    {
        Ray { start: self.end, end: self.start }
    }

    pub fn start(&self) -> (r: &Vec3)
        ensures
            *r == self.start,
    {
        &self.start
    }

    pub fn end(&self) -> (r: &Vec3)
        ensures
            *r == self.end,
    {
        &self.end
    }

    /// The segment as a displacement vector.
    pub fn to_vector(&self) -> (r: Vec3)
        requires
            bounded(self.start@, 0x2000_0000_0000_0000),
            bounded(self.end@, 0x2000_0000_0000_0000),
        ensures
            r@ == sub_v(self.end@, self.start@),
    {
        self.end.sub(&self.start)
    }

    /// The tight box of the segment's two endpoints: it contains both, and
    /// each of its bounds is one of their coordinates — so the box is the
    /// same whichever way the segment is walked.
    pub fn bounding_box(&self) -> (r: BoundingBox)
        ensures
            crate::bbox::bb_wf(r@),
            crate::bbox::bb_contains(r@, self.start@),
            crate::bbox::bb_contains(r@, self.end@),
            r@.min.x == self.start@.x || r@.min.x == self.end@.x,
            r@.min.y == self.start@.y || r@.min.y == self.end@.y,
            r@.min.z == self.start@.z || r@.min.z == self.end@.z,
            r@.max.x == self.start@.x || r@.max.x == self.end@.x,
            r@.max.y == self.start@.y || r@.max.y == self.end@.y,
            r@.max.z == self.start@.z || r@.max.z == self.end@.z,
    {
        let mut pts: Vec<Vec3> = Vec::new();
        pts.push(self.start);
        pts.push(self.end);
        let r = BoundingBox::from_points(pts.as_slice());
        proof {
            assert(pts@[0] == self.start);
            assert(pts@[1] == self.end);
        }
        r
    }

    /// Whether the segment meets the face, touching included.
    pub fn face_intersection(&self, face: &Face) -> (r: bool)
        requires
            face.wf(),
            wf_coord(self.start@),
            wf_coord(self.end@),
        ensures
            r == segment_meets_face(face@, self.start@, self.end@),
    {
        crate::nav::segment_meets_face_exec(face, &self.start, &self.end)
    }
}

/// A fixed-point point in the plane.
#[derive(Clone, Copy, Debug, PartialEq, Eq, Structural)]
pub struct Vec2 {
    pub x: i64,
    pub y: i64}

/// A directed segment in the plane.
#[derive(Clone, Copy, Debug, PartialEq, Eq, Structural)]
pub struct Ray2 {
    pub start: Vec2,
    pub end: Vec2}

/// Whether `p` lies in the tight box of the segment, inclusively.
pub open spec fn in_seg_box(s: Ray2, p: Vec2) -> bool {
    let lox = if s.start.x <= s.end.x {
        s.start.x as int
    } else {
        s.end.x as int
    };
    let hix = if s.start.x <= s.end.x {
        s.end.x as int
    } else {
        s.start.x as int
    };
    let loy = if s.start.y <= s.end.y {
        s.start.y as int
    } else {
        s.end.y as int
    };
    let hiy = if s.start.y <= s.end.y {
        s.end.y as int
    } else {
        s.start.y as int
    };
    lox <= p.x as int <= hix && loy <= p.y as int <= hiy
}

/// Where the supporting lines of the two segments meet, by fixed-point
/// slope arithmetic: two verticals never meet; against one vertical the
/// other line is evaluated at its `x`; otherwise the standard
/// slope-intercept solution, refused when the slopes coincide or the
/// meeting point leaves the world.  The meeting point counts only if it
/// lies in both segments' boxes.
pub open spec fn ray2_intersection_spec(a: Ray2, b: Ray2) -> Option<Vec2> {
    let dy1 = a.start.y - a.end.y;
    let dx1 = a.start.x - a.end.x;
    let dy2 = b.start.y - b.end.y;
    let dx2 = b.start.x - b.end.x;
    let candidate: Option<Vec2> = if dx1 == 0 && dx2 == 0 {
        None
    } else if dx1 == 0 {
        let m2 = tdiv(dy2 * SCALE, dx2);
        let y = b.start.y + fxmul(m2, a.start.x - b.start.x);
        if iabs(y) <= COORD_LIMIT {
            Some(Vec2 { x: a.start.x, y: y as i64 })
        } else {
            None
        }
    } else if dx2 == 0 {
        let m1 = tdiv(dy1 * SCALE, dx1);
        let y = a.start.y + fxmul(m1, b.start.x - a.start.x);
        if iabs(y) <= COORD_LIMIT {
            Some(Vec2 { x: b.start.x, y: y as i64 })
        } else {
            None
        }
    } else {
        let m1 = tdiv(dy1 * SCALE, dx1);
        let m2 = tdiv(dy2 * SCALE, dx2);
        if m1 == m2 {
            None
        } else {
            let num = fxmul(m1, a.start.x as int) - fxmul(m2, b.start.x as int) + b.start.y - a.start.y;
            let x = tdiv(num * SCALE, m1 - m2);
            let y = a.start.y + fxmul(m1, x - a.start.x);
            if iabs(x) <= COORD_LIMIT && iabs(y) <= COORD_LIMIT {
                Some(Vec2 { x: x as i64, y: y as i64 })
            } else {
                None
            }
        }
    };
    match candidate {
        Some(p) => if in_seg_box(a, p) && in_seg_box(b, p) {
            Some(p)
        } else {
            None
        },
        None => None}
}

impl Ray2 {
    pub fn new(start: Vec2, end: Vec2) -> (r: Ray2)
        ensures
            r.start == start,
            r.end == end,
    {
        Ray2 { start, end }
    }

    /// The same segment, walked the other way.
    pub fn invert(&self) -> (r: Ray2)
        ensures
            r.start == self.end,
            r.end == self.start,
    {
        Ray2 { start: self.end, end: self.start }
    }

    /// The meeting point of two plane segments, if their supporting lines
    /// meet inside both segments' boxes.
    pub fn ray_intersection(&self, other: &Ray2) -> (r: Option<Vec2>)
        requires
            iabs(self.start.x as int) <= COORD_LIMIT,
            iabs(self.start.y as int) <= COORD_LIMIT,
            iabs(self.end.x as int) <= COORD_LIMIT,
            iabs(self.end.y as int) <= COORD_LIMIT,
            iabs(other.start.x as int) <= COORD_LIMIT,
            iabs(other.start.y as int) <= COORD_LIMIT,
            iabs(other.end.x as int) <= COORD_LIMIT,
            iabs(other.end.y as int) <= COORD_LIMIT,
        ensures
            r == ray2_intersection_spec(*self, *other),
    {
        let dy1 = self.start.y - self.end.y;
        let dx1 = self.start.x - self.end.x;
        let dy2 = other.start.y - other.end.y;
        let dx2 = other.start.x - other.end.x;
        proof {
            lemma_mul_bound(dy1 as int, SCALE as int, 0x2000_0000, 0x1_0000);
            lemma_mul_bound(dy2 as int, SCALE as int, 0x2000_0000, 0x1_0000);
        }
        let candidate: Option<Vec2> = if dx1 == 0 && dx2 == 0 {
            None
        } else if dx1 == 0 {
            let m2 = slope(dy2, dx2);
            let y = (other.start.y as i128) + mul_scaled(m2, self.start.x - other.start.x);
            if -(COORD_LIMIT as i128) <= y && y <= COORD_LIMIT as i128 {
                Some(Vec2 { x: self.start.x, y: y as i64 })
            } else {
                None
            }
        } else if dx2 == 0 {
            let m1 = slope(dy1, dx1);
            let y = (self.start.y as i128) + mul_scaled(m1, other.start.x - self.start.x);
            if -(COORD_LIMIT as i128) <= y && y <= COORD_LIMIT as i128 {
                Some(Vec2 { x: other.start.x, y: y as i64 })
            } else {
                None
            }
        } else {
            let m1 = slope(dy1, dx1);
            let m2 = slope(dy2, dx2);
            if m1 == m2 {
                None
            } else {
                let num: i128 = mul_scaled(m1, self.start.x) - mul_scaled(m2, other.start.x) + (
                other.start.y as i128) - (self.start.y as i128);
                proof {
                    lemma_mul_bound(
                        fxmul(m1 as int, self.start.x as int) - fxmul(m2 as int, other.start.x
                            as int) + other.start.y - self.start.y,
                        SCALE as int,
                        0x2_0000_0000_0000_0000,
                        0x1_0000,
                    );
                    assert((m1 as i128) - (m2 as i128) != 0);
                }
                let x = div_signed(num * (SCALE as i128), (m1 as i128) - (m2 as i128));
                if -(COORD_LIMIT as i128) <= x && x <= COORD_LIMIT as i128 {
                    let y = (self.start.y as i128) + mul_scaled(m1, (x as i64) - self.start.x);
                    if -(COORD_LIMIT as i128) <= y && y <= COORD_LIMIT as i128 {
                        Some(Vec2 { x: x as i64, y: y as i64 })
                    } else {
                        None
                    }
                } else {
                    None
                }
            }
        };
        match candidate {
            Some(p) => {
                let in_self = in_seg_box_exec(self, &p);
                let in_other = in_seg_box_exec(other, &p);
                if in_self && in_other {
                    Some(p)
                } else {
                    None
                }
            },
            None => None}
    }
}

/// The fixed-point slope `dy * SCALE / dx`.
fn slope(dy: i64, dx: i64) -> (r: i64)
    requires
        dx != 0,
        iabs(dy as int) <= 0x2000_0000,
        iabs(dx as int) <= 0x2000_0000,
    ensures
        r == tdiv(dy * SCALE, dx as int),
        iabs(r as int) <= 0x2000_0000_0000,
{
    proof {
        lemma_mul_bound(dy as int, SCALE as int, 0x2000_0000, 0x1_0000);
    }
    let r = div_signed((dy as i128) * (SCALE as i128), dx as i128);
    r as i64
}

/// Division truncated toward zero by a nonzero divisor of either sign.
fn div_signed(a: i128, b: i128) -> (r: i128)
    requires
        b != 0,
        iabs(a as int) <= 0x2_0000_0000_0000_0000_0000,
        iabs(b as int) <= 0x2_0000_0000_0000_0000_0000,
    ensures
        r == tdiv(a as int, b as int),
        iabs(r as int) <= iabs(a as int),
{
    if b > 0 {
        div_t_wide(a, b)
    } else {
        proof {
            lemma_tdiv_neg(a as int, b as int);
        }
        -div_t_wide(a, -b)
    }
}

/// Division by a negative divisor negates the truncated quotient of the
/// magnitude.
proof fn lemma_tdiv_neg(a: int, b: int)
    by (nonlinear_arith)
    requires
        b < 0,
    ensures
        tdiv(a, b) == -tdiv(a, -b),
{
}

/// `fxmul` of a slope and a coordinate difference, wide.
fn mul_scaled(m: i64, d: i64) -> (r: i128)
    requires
        iabs(m as int) <= 0x2000_0000_0000,
        iabs(d as int) <= 0x4000_0000,
    ensures
        r == fxmul(m as int, d as int),
        iabs(r as int) <= 0x8000_0000_0000_0000,
{
    proof {
        lemma_mul_bound(m as int, d as int, 0x2000_0000_0000, 0x4000_0000);
        lemma_tdiv_bound((m as int) * (d as int), SCALE as int, 0x8000_0000_0000_0000);
    }
    div_t_wide((m as i128) * (d as i128), SCALE as i128)
}

fn in_seg_box_exec(s: &Ray2, p: &Vec2) -> (r: bool)
    ensures
        r == in_seg_box(*s, *p),
{
    let in_x = if s.start.x <= s.end.x {
        s.start.x <= p.x && p.x <= s.end.x
    } else {
        s.end.x <= p.x && p.x <= s.start.x
    };
    let in_y = if s.start.y <= s.end.y {
        s.start.y <= p.y && p.y <= s.end.y
    } else {
        s.end.y <= p.y && p.y <= s.start.y
    };
    in_x && in_y
}

} // verus!
