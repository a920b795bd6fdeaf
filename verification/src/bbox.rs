//! Axis-aligned bounding boxes over fixed-point points.

use vstd::prelude::*;

use crate::vec3::{Vec3, V3};

verus! {

/// Min/max corner per dimension over a point set.
#[derive(Clone, Copy, Debug, PartialEq, Eq, Structural)]
pub struct BoundingBox {
    pub min_pt: Vec3,
    pub max_pt: Vec3,
}

/// The mathematical shadow of a box.
pub struct BB {
    pub min: V3,
    pub max: V3,
}

impl View for BoundingBox {
    type V = BB;

    open spec fn view(&self) -> BB {
        BB { min: self.min_pt@, max: self.max_pt@ }
    }
}

pub open spec fn bb_wf(b: BB) -> bool {
    b.min.x <= b.max.x && b.min.y <= b.max.y && b.min.z <= b.max.z
}

/// The box contains the point, inclusively.
pub open spec fn bb_contains(b: BB, p: V3) -> bool {
    &&& b.min.x <= p.x <= b.max.x
    &&& b.min.y <= p.y <= b.max.y
    &&& b.min.z <= p.z <= b.max.z
}

/// Two boxes overlap: every per-axis interval overlaps, inclusively.
pub open spec fn bb_intersects(a: BB, b: BB) -> bool {
    &&& a.min.x <= b.max.x && b.min.x <= a.max.x
    &&& a.min.y <= b.max.y && b.min.y <= a.max.y
    &&& a.min.z <= b.max.z && b.min.z <= a.max.z
}

/// Box overlap is symmetric.
pub proof fn lemma_bb_intersects_symmetric(a: BB, b: BB)
    ensures
        bb_intersects(a, b) == bb_intersects(b, a),
{
}

impl BoundingBox {
    /// The tight box of a non-empty point set: it contains every input point,
    /// and each of its six bounds is attained by some input point.
    pub fn from_points(points: &[Vec3]) -> (r: BoundingBox)
        requires
            points@.len() >= 1,
        ensures
            bb_wf(r@),
            forall|i: int| 0 <= i < points@.len() ==> bb_contains(r@, points@[i]@),
            exists|i: int| 0 <= i < points@.len() && r@.min.x == points@[i]@.x,
            exists|i: int| 0 <= i < points@.len() && r@.min.y == points@[i]@.y,
            exists|i: int| 0 <= i < points@.len() && r@.min.z == points@[i]@.z,
            exists|i: int| 0 <= i < points@.len() && r@.max.x == points@[i]@.x,
            exists|i: int| 0 <= i < points@.len() && r@.max.y == points@[i]@.y,
            exists|i: int| 0 <= i < points@.len() && r@.max.z == points@[i]@.z,
    {
        let mut min_pt = points[0];
        let mut max_pt = points[0];
        let n = points.len();
        let mut k: usize = 1;
        while k < n
            invariant
                1 <= k <= n,
                n == points@.len(),
                min_pt.x <= max_pt.x && min_pt.y <= max_pt.y && min_pt.z <= max_pt.z,
                forall|i: int|
                    0 <= i < k ==> bb_contains(
                        BB { min: min_pt@, max: max_pt@ },
                        points@[i]@,
                    ),
                exists|i: int| 0 <= i < k && min_pt@.x == points@[i]@.x,
                exists|i: int| 0 <= i < k && min_pt@.y == points@[i]@.y,
                exists|i: int| 0 <= i < k && min_pt@.z == points@[i]@.z,
                exists|i: int| 0 <= i < k && max_pt@.x == points@[i]@.x,
                exists|i: int| 0 <= i < k && max_pt@.y == points@[i]@.y,
                exists|i: int| 0 <= i < k && max_pt@.z == points@[i]@.z,
            decreases n - k,
        {
            let p = points[k];
            if p.x < min_pt.x {
                min_pt.x = p.x;
            }
            if p.y < min_pt.y {
                min_pt.y = p.y;
            }
            if p.z < min_pt.z {
                min_pt.z = p.z;
            }
            if p.x > max_pt.x {
                max_pt.x = p.x;
            }
            if p.y > max_pt.y {
                max_pt.y = p.y;
            }
            if p.z > max_pt.z {
                max_pt.z = p.z;
            }
            k = k + 1;
        }
        BoundingBox { min_pt, max_pt }
    }

    /// Whether every per-axis interval of the two boxes overlaps (inclusive).
    pub fn intersects_with(&self, other: &BoundingBox) -> (r: bool)
        requires
            bb_wf(self@),
            bb_wf(other@),
        ensures
            r == bb_intersects(self@, other@),
    {
        let x = if self.max_pt.x > other.max_pt.x {
            other.max_pt.x >= self.min_pt.x
        } else {
            self.max_pt.x >= other.min_pt.x
        };
        let y = if self.max_pt.y > other.max_pt.y {
            other.max_pt.y >= self.min_pt.y
        } else {
            self.max_pt.y >= other.min_pt.y
        };
        let z = if self.max_pt.z > other.max_pt.z {
            other.max_pt.z >= self.min_pt.z
        } else {
            self.max_pt.z >= other.min_pt.z
        };
        x && y && z
    }

    /// Whether the box contains the point, inclusively.
    pub fn includes_point(&self, p: &Vec3) -> (r: bool)
        ensures
            r == bb_contains(self@, p@),
    {
        self.min_pt.x <= p.x && p.x <= self.max_pt.x && self.min_pt.y <= p.y && p.y
            <= self.max_pt.y && self.min_pt.z <= p.z && p.z <= self.max_pt.z
    }
}

} // verus!
