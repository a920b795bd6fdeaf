//! Planar polygon faces.
//!
//! A face is an ordered polygon of at least three points, triangulated as a
//! fan around point 0.  Winding determines the outward normal.  Each vertex
//! optionally carries a texture coordinate; an untextured face stores zeros.

use vstd::prelude::*;

use crate::bbox::{bb_contains, bb_wf, BoundingBox};
use crate::fixed::{div_t, lemma_tdiv_bound, tdiv, SCALE};
use crate::vec3::{cross_v, lemma_cross_bound, normalize_spec, sub_v, unit_scaled, wf_coord, Vec3,
    V3};

verus! {

/// A fixed-point texture coordinate.
#[derive(Clone, Copy, Debug, PartialEq, Eq, Structural)]
pub struct UVec2 {
    pub u: i64,
    pub v: i64,
}

/// A vertex with its texture coordinate.
#[derive(Clone, Copy, Debug)]
pub struct UVPair {
    pub point: Vec3,
    pub uv: UVec2,
}

/// The mathematical shadow of a texture coordinate.
pub struct UV2 {
    pub u: int,
    pub v: int,
}

impl View for UVec2 {
    type V = UV2;

    open spec fn view(&self) -> UV2 {
        UV2 { u: self.u as int, v: self.v as int }
    }
}

pub open spec fn pts_view(v: Seq<Vec3>) -> Seq<V3> {
    v.map_values(|p: Vec3| p@)
}

pub open spec fn uvs_view(v: Seq<UVec2>) -> Seq<UV2> {
    v.map_values(|p: UVec2| p@)
}

/// The unit outward normal of the polygon's leading triangle: the cross
/// product of the second edge with the normalized first edge, descaled and
/// renormalized.  Winding order determines its sign.
pub open spec fn normal_of(pts: Seq<V3>) -> V3 {
    let x = normalize_spec(sub_v(pts[1], pts[0]));
    let c = cross_v(sub_v(pts[2], pts[1]), x);
    normalize_spec(
        V3 {
            x: tdiv(c.x, SCALE as int),
            y: tdiv(c.y, SCALE as int),
            z: tdiv(c.z, SCALE as int),
        },
    )
}

/// An untextured face: one zero texture coordinate per vertex.
pub open spec fn zero_uvs(f: FaceV) -> bool {
    f.uvs.len() == f.points.len() && forall|i: int|
        0 <= i < f.uvs.len() ==> f.uvs[i] == (UV2 { u: 0, v: 0 })
}

/// The vertex that position `j` of the flattened fan triangulation holds:
/// triangle `k` is `(p0, p[k+1], p[k+2])`.
pub open spec fn fan_vertex(pts: Seq<V3>, j: int) -> V3 {
    if j % 3 == 0 {
        pts[0]
    } else if j % 3 == 1 {
        pts[j / 3 + 1]
    } else {
        pts[j / 3 + 2]
    }
}

/// The texture coordinate that position `j` of the flattened fan carries.
pub open spec fn fan_uv(uvs: Seq<UV2>, j: int) -> UV2 {
    if j % 3 == 0 {
        uvs[0]
    } else if j % 3 == 1 {
        uvs[j / 3 + 1]
    } else {
        uvs[j / 3 + 2]
    }
}

/// An ordered, planar polygon with a cached bounding box and outward normal.
#[derive(Clone, Debug)]
pub struct Face {
    points: Vec<Vec3>,
    uvs: Vec<UVec2>,
    bounding_box: BoundingBox,
    normal: Vec3,
}

/// The mathematical shadow of a face: its vertices and texture coordinates.
pub struct FaceV {
    pub points: Seq<V3>,
    pub uvs: Seq<UV2>,
}

impl View for Face {
    type V = FaceV;

    closed spec fn view(&self) -> FaceV {
        FaceV { points: pts_view(self.points@), uvs: uvs_view(self.uvs@) }
    }
}

impl Face {
    /// Well-formedness: at least three in-world vertices, one texture
    /// coordinate each, and the cached normal and box agree with the
    /// vertices.
    pub closed spec fn wf(self) -> bool {
        &&& self.points@.len() >= 3
        &&& self.uvs@.len() == self.points@.len()
        &&& forall|i: int| 0 <= i < self.points@.len() ==> wf_coord(self.points@[i]@)
        &&& self.normal@ == normal_of(pts_view(self.points@))
        &&& unit_scaled(self.normal@)
        &&& bb_wf(self.bounding_box@)
        &&& forall|i: int|
            0 <= i < self.points@.len() ==> bb_contains(self.bounding_box@, self.points@[i]@)
        &&& exists|i: int|
            0 <= i < self.points@.len() && self.bounding_box@.min.x == self.points@[i]@.x
        &&& exists|i: int|
            0 <= i < self.points@.len() && self.bounding_box@.min.y == self.points@[i]@.y
        &&& exists|i: int|
            0 <= i < self.points@.len() && self.bounding_box@.min.z == self.points@[i]@.z
        &&& exists|i: int|
            0 <= i < self.points@.len() && self.bounding_box@.max.x == self.points@[i]@.x
        &&& exists|i: int|
            0 <= i < self.points@.len() && self.bounding_box@.max.y == self.points@[i]@.y
        &&& exists|i: int|
            0 <= i < self.points@.len() && self.bounding_box@.max.z == self.points@[i]@.z
    }

    /// Construct a face from vertices and matching texture coordinates.
    /// Fewer than three vertices, or a texture array of another length, is a
    /// caller error and excluded by contract.
    pub fn new_with_uvs(points: Vec<Vec3>, uvs: Vec<UVec2>) -> (r: Face)
        requires
            points@.len() >= 3,
            uvs@.len() == points@.len(),
            forall|i: int| 0 <= i < points@.len() ==> wf_coord(points@[i]@),
        ensures
            r.wf(),
            r@.points == pts_view(points@),
            r@.uvs == uvs_view(uvs@),
    {
        let x = points[1].sub(&points[0]).normalize();
        let c = points[2].sub(&points[1]).cross(&x);
        proof {
            lemma_cross_bound(
                sub_v(points@[2]@, points@[1]@),
                x@,
                0x2000_0000,
                SCALE as int,
            );
            lemma_tdiv_bound(cross_v(sub_v(points@[2]@, points@[1]@), x@).x, SCALE as int,
                0x4000_0000);
            lemma_tdiv_bound(cross_v(sub_v(points@[2]@, points@[1]@), x@).y, SCALE as int,
                0x4000_0000);
            lemma_tdiv_bound(cross_v(sub_v(points@[2]@, points@[1]@), x@).z, SCALE as int,
                0x4000_0000);
        }
        let craw = Vec3 { x: div_t(c.x, SCALE), y: div_t(c.y, SCALE), z: div_t(c.z, SCALE) };
        let normal = craw.normalize();
        let bounding_box = BoundingBox::from_points(points.as_slice());
        proof {
            assert(pts_view(points@)[0] == points@[0]@);
            assert(pts_view(points@)[1] == points@[1]@);
            assert(pts_view(points@)[2] == points@[2]@);
        }
        Face { points, uvs, bounding_box, normal }
    }

    /// Construct an untextured face: every texture coordinate is zero.
    pub fn new(points: Vec<Vec3>) -> (r: Face)
        requires
            points@.len() >= 3,
            forall|i: int| 0 <= i < points@.len() ==> wf_coord(points@[i]@),
        ensures
            r.wf(),
            r@.points == pts_view(points@),
            r@.uvs.len() == points@.len(),
            forall|i: int| 0 <= i < points@.len() ==> r@.uvs[i] == (UV2 { u: 0, v: 0 }),
            zero_uvs(r@),
    {
        let n = points.len();
        let mut uvs: Vec<UVec2> = Vec::new();
        let mut k: usize = 0;
        while k < n
            invariant
                0 <= k <= n,
                uvs@.len() == k,
                forall|i: int| 0 <= i < k ==> uvs@[i]@ == (UV2 { u: 0, v: 0 }),
            decreases n - k,
        {
            uvs.push(UVec2 { u: 0, v: 0 });
            k = k + 1;
        }
        let r = Face::new_with_uvs(points, uvs);
        proof {
            assert(forall|i: int|
                0 <= i < r@.uvs.len() ==> r@.uvs[i] == uvs_view(uvs@)[i] && uvs_view(uvs@)[i]
                    == uvs@[i]@);
        }
        r
    }

    /// Construct a face from vertex/texture pairs.
    pub fn from_uv_pairs(pairs: Vec<UVPair>) -> (r: Face)
        requires
            pairs@.len() >= 3,
            forall|i: int| 0 <= i < pairs@.len() ==> wf_coord(pairs@[i].point@),
        ensures
            r.wf(),
            r@.points.len() == pairs@.len(),
            r@.uvs.len() == pairs@.len(),
            forall|i: int|
                0 <= i < pairs@.len() ==> r@.points[i] == pairs@[i].point@ && r@.uvs[i]
                    == pairs@[i].uv@,
    {
        let n = pairs.len();
        let mut points: Vec<Vec3> = Vec::new();
        let mut uvs: Vec<UVec2> = Vec::new();
        let mut k: usize = 0;
        while k < n
            invariant
                0 <= k <= n,
                n == pairs@.len(),
                points@.len() == k,
                uvs@.len() == k,
                forall|i: int|
                    0 <= i < k ==> points@[i] == pairs@[i].point && uvs@[i] == pairs@[i].uv,
                forall|i: int| 0 <= i < pairs@.len() ==> wf_coord(pairs@[i].point@),
            decreases n - k,
        {
            let pair = pairs[k];
            points.push(pair.point);
            uvs.push(pair.uv);
            k = k + 1;
        }
        Face::new_with_uvs(points, uvs)
    }

    /// Fan triangulation: an N-point face yields N-2 triangles
    /// `(p0, p[i+1], p[i+2])`, flattened in order.
    pub fn break_into_triangles(&self) -> (r: Vec<Vec3>)
        requires
            self.wf(),
        ensures
            r@.len() == 3 * (self@.points.len() - 2),
            forall|j: int| 0 <= j < r@.len() ==> #[trigger] r@[j]@ == fan_vertex(self@.points, j),
    {
        let n = self.points.len();
        let mut r: Vec<Vec3> = Vec::new();
        let mut k: usize = 0;
        while k < n - 2
            invariant
                0 <= k <= n - 2,
                3 <= n == self.points@.len(),
                r@.len() == 3 * k,
                forall|j: int|
                    0 <= j < r@.len() ==> #[trigger] r@[j]@ == fan_vertex(
                        pts_view(self.points@),
                        j,
                    ),
            decreases n - 2 - k,
        {
            r.push(self.points[0]);
            r.push(self.points[k + 1]);
            r.push(self.points[k + 2]);
            k = k + 1;
        }
        r
    }

    /// The fan triangulation of the texture coordinates: the same pattern as
    /// `break_into_triangles`, one coordinate per produced vertex.
    pub fn break_into_uv_triangles(&self) -> (r: Vec<UVec2>)
        requires
            self.wf(),
        ensures
            r@.len() == 3 * (self@.points.len() - 2),
            forall|j: int| 0 <= j < r@.len() ==> #[trigger] r@[j]@ == fan_uv(self@.uvs, j),
    {
        let n = self.uvs.len();
        let mut r: Vec<UVec2> = Vec::new();
        let mut k: usize = 0;
        while k < n - 2
            invariant
                0 <= k <= n - 2,
                3 <= n == self.uvs@.len(),
                r@.len() == 3 * k,
                forall|j: int|
                    0 <= j < r@.len() ==> #[trigger] r@[j]@ == fan_uv(uvs_view(self.uvs@), j),
            decreases n - 2 - k,
        {
            r.push(self.uvs[0]);
            r.push(self.uvs[k + 1]);
            r.push(self.uvs[k + 2]);
            k = k + 1;
        }
        r
    }

    /// What well-formedness guarantees every consumer of a face: at least
    /// three in-world vertices with matching texture coordinates.
    pub proof fn lemma_wf_props(self)
        requires
            self.wf(),
        ensures
            self@.points.len() >= 3,
            self@.uvs.len() == self@.points.len(),
            forall|i: int| 0 <= i < self@.points.len() ==> wf_coord(#[trigger] self@.points[i]),
    {
        assert forall|i: int| 0 <= i < self@.points.len() implies wf_coord(
            #[trigger] self@.points[i],
        ) by {
            assert(self@.points[i] == self.points@[i]@);
        };
    }

    /// The vertices, in winding order.
    pub fn points(&self) -> (r: &Vec<Vec3>)
        ensures
            pts_view(r@) == self@.points,
    {
        &self.points
    }

    /// The texture coordinates, one per vertex.
    pub fn uvs(&self) -> (r: &Vec<UVec2>)
        ensures
            uvs_view(r@) == self@.uvs,
    {
        &self.uvs
    }

    /// The cached tight bounding box of the vertices: it contains every
    /// vertex, and each of its six bounds is attained by one.
    pub fn bounding_box(&self) -> (r: &BoundingBox)
        requires
            self.wf(),
        ensures
            bb_wf(r@),
            forall|i: int| 0 <= i < self@.points.len() ==> bb_contains(r@, self@.points[i]),
            exists|i: int| 0 <= i < self@.points.len() && r@.min.x == self@.points[i].x,
            exists|i: int| 0 <= i < self@.points.len() && r@.min.y == self@.points[i].y,
            exists|i: int| 0 <= i < self@.points.len() && r@.min.z == self@.points[i].z,
            exists|i: int| 0 <= i < self@.points.len() && r@.max.x == self@.points[i].x,
            exists|i: int| 0 <= i < self@.points.len() && r@.max.y == self@.points[i].y,
            exists|i: int| 0 <= i < self@.points.len() && r@.max.z == self@.points[i].z,
    {
        proof {
            assert(forall|i: int|
                0 <= i < self.points@.len() ==> self@.points[i] == self.points@[i]@);
            let i1 = choose|i: int|
                0 <= i < self.points@.len() && self.bounding_box@.min.x == self.points@[i]@.x;
            assert(self@.points[i1].x == self.points@[i1]@.x);
            let i2 = choose|i: int|
                0 <= i < self.points@.len() && self.bounding_box@.min.y == self.points@[i]@.y;
            assert(self@.points[i2].y == self.points@[i2]@.y);
            let i3 = choose|i: int|
                0 <= i < self.points@.len() && self.bounding_box@.min.z == self.points@[i]@.z;
            assert(self@.points[i3].z == self.points@[i3]@.z);
            let i4 = choose|i: int|
                0 <= i < self.points@.len() && self.bounding_box@.max.x == self.points@[i]@.x;
            assert(self@.points[i4].x == self.points@[i4]@.x);
            let i5 = choose|i: int|
                0 <= i < self.points@.len() && self.bounding_box@.max.y == self.points@[i]@.y;
            assert(self@.points[i5].y == self.points@[i5]@.y);
            let i6 = choose|i: int|
                0 <= i < self.points@.len() && self.bounding_box@.max.z == self.points@[i]@.z;
            assert(self@.points[i6].z == self.points@[i6]@.z);
        }
        &self.bounding_box
    }

    /// The cached unit outward normal.
    pub fn normal(&self) -> (r: &Vec3)
        requires
            self.wf(),
        ensures
            r@ == normal_of(self@.points),
            unit_scaled(r@),
    {
        &self.normal
    }
}

} // verus!
