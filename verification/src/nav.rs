//! Navigation: does a camera movement cross an exit face, and does it come
//! too close to a wall?
//!
//! Both questions are decided by exact integer sign tests on the fixed-point
//! coordinates: crossing by orientation determinants over the face's fan
//! triangles, and blocking by that same crossing test together with exact
//! squared-distance proximity at the movement segment's endpoints and
//! midpoint.

use vstd::prelude::*;

use crate::face::{Face, FaceV};
use crate::fixed::{iabs, SCALE};
use crate::params::BLOCK_EPS_FIX;
use crate::skeleton::EnvironmentIdentifier;
use crate::fixed::lemma_tdiv_bound;
use crate::vec3::{bounded, cross_v, dot_v, lemma_cross_bound, lemma_dot_bound, lemma_mul_bound,
    nsq_v, sub_v, wf_coord, Vec3, V3};

verus! {

/// The orientation determinant of `d` against the plane of `(a, b, c)`:
/// positive on the side the winding's normal points to, zero on the plane.
pub open spec fn orient3d(a: V3, b: V3, c: V3, d: V3) -> int {
    dot_v(cross_v(sub_v(b, a), sub_v(c, a)), sub_v(d, a))
}

/// Exact orientation determinant.
pub fn orient3d_exec(a: &Vec3, b: &Vec3, c: &Vec3, d: &Vec3) -> (r: i128)
    requires
        wf_coord(a@),
        wf_coord(b@),
        wf_coord(c@),
        wf_coord(d@),
    ensures
        r == orient3d(a@, b@, c@, d@),
{
    let u = b.sub(a);
    let v = c.sub(a);
    let w = d.sub(a);
    proof {
        lemma_mul_bound(u@.y, v@.z, 0x2000_0000, 0x2000_0000);
        lemma_mul_bound(u@.z, v@.y, 0x2000_0000, 0x2000_0000);
        lemma_mul_bound(u@.z, v@.x, 0x2000_0000, 0x2000_0000);
        lemma_mul_bound(u@.x, v@.z, 0x2000_0000, 0x2000_0000);
        lemma_mul_bound(u@.x, v@.y, 0x2000_0000, 0x2000_0000);
        lemma_mul_bound(u@.y, v@.x, 0x2000_0000, 0x2000_0000);
        lemma_cross_bound(u@, v@, 0x2000_0000, 0x2000_0000);
        lemma_mul_bound(cross_v(u@, v@).x, w@.x, 0x8000_0000_0000_0000, 0x2000_0000);
        lemma_mul_bound(cross_v(u@, v@).y, w@.y, 0x8000_0000_0000_0000, 0x2000_0000);
        lemma_mul_bound(cross_v(u@, v@).z, w@.z, 0x8000_0000_0000_0000, 0x2000_0000);
    }
    let cx: i128 = (u.y as i128) * (v.z as i128) - (u.z as i128) * (v.y as i128);
    let cy: i128 = (u.z as i128) * (v.x as i128) - (u.x as i128) * (v.z as i128);
    let cz: i128 = (u.x as i128) * (v.y as i128) - (u.y as i128) * (v.x as i128);
    cx * (w.x as i128) + cy * (w.y as i128) + cz * (w.z as i128)
}

/// Two signed values on opposite sides of zero, either possibly on it.
pub open spec fn straddles(s1: int, s2: int) -> bool {
    (s1 >= 0 && s2 <= 0) || (s1 <= 0 && s2 >= 0)
}

/// The in-plane side of `x` against the directed line `(u, w)`, measured
/// through the plane normal `n`: positive on one side, zero on the line.
pub open spec fn inplane_side(u: V3, w: V3, x: V3, n: V3) -> int {
    dot_v(cross_v(sub_v(w, u), sub_v(x, u)), n)
}

/// Whether `x` lies inside (or on) the triangle `(a, b, c)`, all four
/// taken in one plane with normal `n = cross(b - a, c - a)`: on the inner
/// side of each directed edge.
pub open spec fn point_in_triangle(a: V3, b: V3, c: V3, x: V3) -> bool {
    let n = cross_v(sub_v(b, a), sub_v(c, a));
    inplane_side(a, b, x, n) >= 0 && inplane_side(b, c, x, n) >= 0 && inplane_side(c, a, x, n)
        >= 0
}

/// Inclusive per-axis overlap of the boxes of two segments; for collinear
/// segments this is exactly segment overlap.
pub open spec fn seg_boxes_overlap(p: V3, q: V3, u: V3, w: V3) -> bool {
    let (plx, phx) = if p.x <= q.x { (p.x, q.x) } else { (q.x, p.x) };
    let (ulx, uhx) = if u.x <= w.x { (u.x, w.x) } else { (w.x, u.x) };
    let (ply, phy) = if p.y <= q.y { (p.y, q.y) } else { (q.y, p.y) };
    let (uly, uhy) = if u.y <= w.y { (u.y, w.y) } else { (w.y, u.y) };
    let (plz, phz) = if p.z <= q.z { (p.z, q.z) } else { (q.z, p.z) };
    let (ulz, uhz) = if u.z <= w.z { (u.z, w.z) } else { (w.z, u.z) };
    plx <= uhx && ulx <= phx && ply <= uhy && uly <= phy && plz <= uhz && ulz <= phz
}

/// Whether the coplanar segments `[p, q]` and `[u, w]` meet, touching
/// included: the classic straddle test through the plane normal `n`, with
/// the all-collinear case decided by interval overlap.
pub open spec fn coplanar_segments_meet(p: V3, q: V3, u: V3, w: V3, n: V3) -> bool {
    let s1 = inplane_side(p, q, u, n);
    let s2 = inplane_side(p, q, w, n);
    let t1 = inplane_side(u, w, p, n);
    let t2 = inplane_side(u, w, q, n);
    if s1 == 0 && s2 == 0 && t1 == 0 && t2 == 0 {
        seg_boxes_overlap(p, q, u, w)
    } else {
        straddles(s1, s2) && straddles(t1, t2)
    }
}

/// Whether the segment `[p, q]`, lying in the triangle's plane, meets the
/// triangle `(a, b, c)`: an endpoint inside it, or the segment meeting one
/// of its edges.  A degenerate (zero-normal) triangle meets nothing.
pub open spec fn segment_meets_triangle_coplanar(a: V3, b: V3, c: V3, p: V3, q: V3) -> bool {
    let n = cross_v(sub_v(b, a), sub_v(c, a));
    if n.x == 0 && n.y == 0 && n.z == 0 {
        false
    } else {
        ||| point_in_triangle(a, b, c, p)
        ||| point_in_triangle(a, b, c, q)
        ||| coplanar_segments_meet(p, q, a, b, n)
        ||| coplanar_segments_meet(p, q, b, c, n)
        ||| coplanar_segments_meet(p, q, c, a, n)
    }
}

/// Whether the segment `[p, q]` meets the triangle `(a, b, c)`, touching
/// included: for a transversal segment, the endpoints may not lie strictly
/// on the same side of the triangle's plane and the segment's line must
/// pass the three edge orientation tests with one consistent sign; a
/// segment lying in the triangle's plane meets it only if it actually
/// overlaps the triangle in that plane.
pub open spec fn segment_meets_triangle(a: V3, b: V3, c: V3, p: V3, q: V3) -> bool {
    let dp = orient3d(a, b, c, p);
    let dq = orient3d(a, b, c, q);
    if (dp > 0 && dq > 0) || (dp < 0 && dq < 0) {
        false
    } else if dp == 0 && dq == 0 {
        segment_meets_triangle_coplanar(a, b, c, p, q)
    } else {
        let s1 = orient3d(p, q, a, b);
        let s2 = orient3d(p, q, b, c);
        let s3 = orient3d(p, q, c, a);
        (s1 >= 0 && s2 >= 0 && s3 >= 0) || (s1 <= 0 && s2 <= 0 && s3 <= 0)
    }
}

/// The in-plane side, exactly, for a normal already computed in wide form.
fn inplane_side_exec(u: &Vec3, w: &Vec3, x: &Vec3, nx: i128, ny: i128, nz: i128) -> (r: i128)
    requires
        wf_coord(u@),
        wf_coord(w@),
        wf_coord(x@),
        iabs(nx as int) <= 0x1000_0000_0000_0000,
        iabs(ny as int) <= 0x1000_0000_0000_0000,
        iabs(nz as int) <= 0x1000_0000_0000_0000,
    ensures
        r == inplane_side(u@, w@, x@, V3 { x: nx as int, y: ny as int, z: nz as int }),
{
    let e = w.sub(u);
    let xv = x.sub(u);
    proof {
        let nv = V3 { x: nx as int, y: ny as int, z: nz as int };
        lemma_mul_bound(e@.y, xv@.z, 0x2000_0000, 0x2000_0000);
        lemma_mul_bound(e@.z, xv@.y, 0x2000_0000, 0x2000_0000);
        lemma_mul_bound(e@.z, xv@.x, 0x2000_0000, 0x2000_0000);
        lemma_mul_bound(e@.x, xv@.z, 0x2000_0000, 0x2000_0000);
        lemma_mul_bound(e@.x, xv@.y, 0x2000_0000, 0x2000_0000);
        lemma_mul_bound(e@.y, xv@.x, 0x2000_0000, 0x2000_0000);
        lemma_cross_bound(e@, xv@, 0x2000_0000, 0x2000_0000);
        lemma_mul_bound(cross_v(e@, xv@).x, nx as int, 0x8000_0000_0000_0000,
            0x1000_0000_0000_0000);
        lemma_mul_bound(cross_v(e@, xv@).y, ny as int, 0x8000_0000_0000_0000,
            0x1000_0000_0000_0000);
        lemma_mul_bound(cross_v(e@, xv@).z, nz as int, 0x8000_0000_0000_0000,
            0x1000_0000_0000_0000);
    }
    let cx: i128 = (e.y as i128) * (xv.z as i128) - (e.z as i128) * (xv.y as i128);
    let cy: i128 = (e.z as i128) * (xv.x as i128) - (e.x as i128) * (xv.z as i128);
    let cz: i128 = (e.x as i128) * (xv.y as i128) - (e.y as i128) * (xv.x as i128);
    cx * nx + cy * ny + cz * nz
}

fn seg_boxes_overlap_exec(p: &Vec3, q: &Vec3, u: &Vec3, w: &Vec3) -> (r: bool)
    ensures
        r == seg_boxes_overlap(p@, q@, u@, w@),
{
    let (plx, phx) = if p.x <= q.x { (p.x, q.x) } else { (q.x, p.x) };
    let (ulx, uhx) = if u.x <= w.x { (u.x, w.x) } else { (w.x, u.x) };
    let (ply, phy) = if p.y <= q.y { (p.y, q.y) } else { (q.y, p.y) };
    let (uly, uhy) = if u.y <= w.y { (u.y, w.y) } else { (w.y, u.y) };
    let (plz, phz) = if p.z <= q.z { (p.z, q.z) } else { (q.z, p.z) };
    let (ulz, uhz) = if u.z <= w.z { (u.z, w.z) } else { (w.z, u.z) };
    plx <= uhx && ulx <= phx && ply <= uhy && uly <= phy && plz <= uhz && ulz <= phz
}

fn coplanar_segments_meet_exec(p: &Vec3, q: &Vec3, u: &Vec3, w: &Vec3, nx: i128, ny: i128,
    nz: i128) -> (r: bool)
    requires
        wf_coord(p@),
        wf_coord(q@),
        wf_coord(u@),
        wf_coord(w@),
        iabs(nx as int) <= 0x1000_0000_0000_0000,
        iabs(ny as int) <= 0x1000_0000_0000_0000,
        iabs(nz as int) <= 0x1000_0000_0000_0000,
    ensures
        r == coplanar_segments_meet(p@, q@, u@, w@, V3 {
            x: nx as int,
            y: ny as int,
            z: nz as int,
        }),
{
    let s1 = inplane_side_exec(p, q, u, nx, ny, nz);
    let s2 = inplane_side_exec(p, q, w, nx, ny, nz);
    let t1 = inplane_side_exec(u, w, p, nx, ny, nz);
    let t2 = inplane_side_exec(u, w, q, nx, ny, nz);
    if s1 == 0 && s2 == 0 && t1 == 0 && t2 == 0 {
        seg_boxes_overlap_exec(p, q, u, w)
    } else {
        ((s1 >= 0 && s2 <= 0) || (s1 <= 0 && s2 >= 0)) && ((t1 >= 0 && t2 <= 0) || (t1 <= 0 && t2
            >= 0))
    }
}

fn segment_meets_triangle_coplanar_exec(a: &Vec3, b: &Vec3, c: &Vec3, p: &Vec3, q: &Vec3) -> (r:
    bool)
    requires
        wf_coord(a@),
        wf_coord(b@),
        wf_coord(c@),
        wf_coord(p@),
        wf_coord(q@),
    ensures
        r == segment_meets_triangle_coplanar(a@, b@, c@, p@, q@),
{
    let ba = b.sub(a);
    let ca = c.sub(a);
    let cb = c.sub(b);
    let ac = a.sub(c);
    proof {
        lemma_mul_bound(ba@.y, ca@.z, 0x2000_0000, 0x2000_0000);
        lemma_mul_bound(ba@.z, ca@.y, 0x2000_0000, 0x2000_0000);
        lemma_mul_bound(ba@.z, ca@.x, 0x2000_0000, 0x2000_0000);
        lemma_mul_bound(ba@.x, ca@.z, 0x2000_0000, 0x2000_0000);
        lemma_mul_bound(ba@.x, ca@.y, 0x2000_0000, 0x2000_0000);
        lemma_mul_bound(ba@.y, ca@.x, 0x2000_0000, 0x2000_0000);
        lemma_cross_bound(ba@, ca@, 0x2000_0000, 0x2000_0000);
    }
    let nx: i128 = (ba.y as i128) * (ca.z as i128) - (ba.z as i128) * (ca.y as i128);
    let ny: i128 = (ba.z as i128) * (ca.x as i128) - (ba.x as i128) * (ca.z as i128);
    let nz: i128 = (ba.x as i128) * (ca.y as i128) - (ba.y as i128) * (ca.x as i128);
    if nx == 0 && ny == 0 && nz == 0 {
        return false;
    }
    // An endpoint inside the triangle: on the inner side of every edge.
    let in_p = inplane_side_exec(a, b, p, nx, ny, nz) >= 0 && inplane_side_exec(b, c, p, nx, ny,
        nz) >= 0 && inplane_side_exec(c, a, p, nx, ny, nz) >= 0;
    let in_q = inplane_side_exec(a, b, q, nx, ny, nz) >= 0 && inplane_side_exec(b, c, q, nx, ny,
        nz) >= 0 && inplane_side_exec(c, a, q, nx, ny, nz) >= 0;
    in_p || in_q || coplanar_segments_meet_exec(p, q, a, b, nx, ny, nz)
        || coplanar_segments_meet_exec(p, q, b, c, nx, ny, nz) || coplanar_segments_meet_exec(
        p,
        q,
        c,
        a,
        nx,
        ny,
        nz,
    )
}

fn segment_meets_triangle_exec(a: &Vec3, b: &Vec3, c: &Vec3, p: &Vec3, q: &Vec3) -> (r: bool)
    requires
        wf_coord(a@),
        wf_coord(b@),
        wf_coord(c@),
        wf_coord(p@),
        wf_coord(q@),
    ensures
        r == segment_meets_triangle(a@, b@, c@, p@, q@),
{
    let dp = orient3d_exec(a, b, c, p);
    let dq = orient3d_exec(a, b, c, q);
    if (dp > 0 && dq > 0) || (dp < 0 && dq < 0) {
        false
    } else if dp == 0 && dq == 0 {
        segment_meets_triangle_coplanar_exec(a, b, c, p, q)
    } else {
        let s1 = orient3d_exec(p, q, a, b);
        let s2 = orient3d_exec(p, q, b, c);
        let s3 = orient3d_exec(p, q, c, a);
        (s1 >= 0 && s2 >= 0 && s3 >= 0) || (s1 <= 0 && s2 <= 0 && s3 <= 0)
    }
}

/// Whether the segment `[p, q]` meets the face's fan triangulation.
pub open spec fn segment_meets_face(f: FaceV, p: V3, q: V3) -> bool {
    exists|k: int|
        1 <= k < f.points.len() - 1 && segment_meets_triangle(
            f.points[0],
            #[trigger] f.points[k],
            f.points[k + 1],
            p,
            q,
        )
}

/// Decide whether a movement segment crosses (or touches) a face.
pub fn segment_meets_face_exec(f: &Face, p: &Vec3, q: &Vec3) -> (r: bool)
    requires
        f.wf(),
        wf_coord(p@),
        wf_coord(q@),
    ensures
        r == segment_meets_face(f@, p@, q@),
{
    let pts = f.points();
    let n = pts.len();
    proof {
        f.lemma_wf_props();
        assert(f@.points.len() == n);
    }
    let mut k: usize = 1;
    while k < n - 1
        invariant
            1 <= k <= n - 1,
            3 <= n == f@.points.len(),
            pts@.len() == n,
            crate::face::pts_view(pts@) == f@.points,
            f.wf(),
            wf_coord(p@),
            wf_coord(q@),
            forall|j: int|
                1 <= j < k ==> !segment_meets_triangle(
                    f@.points[0],
                    #[trigger] f@.points[j],
                    f@.points[j + 1],
                    p@,
                    q@,
                ),
        decreases n - 1 - k,
    {
        proof {
            f.lemma_wf_props();
            assert(pts@[0]@ == f@.points[0]);
            assert(pts@[k as int]@ == f@.points[k as int]);
            assert(pts@[k + 1]@ == f@.points[k + 1]);
        }
        if segment_meets_triangle_exec(&pts[0], &pts[k], &pts[k + 1], p, q) {
            return true;
        }
        k = k + 1;
    }
    false
}

/// Whether the point `p` is within `eps` of the triangle `(a, b, c)`:
/// within `eps` of its plane while projecting inside its edges, or within
/// `eps` of one of its edges.  The normal is descaled once to keep every
/// comparison inside exact machine arithmetic; the plane test carries an
/// explicit magnitude guard that no in-world face can reach.
pub open spec fn point_near_triangle(a: V3, b: V3, c: V3, p: V3, eps: int) -> bool {
    let n = crate::environment::descale3(cross_v(sub_v(b, a), sub_v(c, a)));
    let d = dot_v(n, sub_v(p, a));
    let inside = dot_v(cross_v(sub_v(b, a), n), sub_v(p, a)) <= 0 && dot_v(
        cross_v(sub_v(c, b), n),
        sub_v(p, b),
    ) <= 0 && dot_v(cross_v(sub_v(a, c), n), sub_v(p, c)) <= 0;
    ||| (inside && iabs(d) < 0x1000_0000_0000_0000 && d * d < eps * eps * nsq_v(n))
    ||| point_near_segment(a, b, p, eps)
    ||| point_near_segment(b, c, p, eps)
    ||| point_near_segment(c, a, p, eps)
}

/// Whether the point `p` is within `eps` of the segment `[u, w]`, by the
/// clamped projection, exactly.
pub open spec fn point_near_segment(u: V3, w: V3, p: V3, eps: int) -> bool {
    let uv = sub_v(w, u);
    let up = sub_v(p, u);
    let e = dot_v(up, uv);
    if e <= 0 {
        nsq_v(up) < eps * eps
    } else if e >= nsq_v(uv) {
        nsq_v(sub_v(p, w)) < eps * eps
    } else {
        nsq_v(up) * nsq_v(uv) - e * e < eps * eps * nsq_v(uv)
    }
}

fn point_near_segment_exec(u: &Vec3, w: &Vec3, p: &Vec3, eps: i64) -> (r: bool)
    requires
        wf_coord(u@),
        wf_coord(w@),
        wf_coord(p@),
        0 < eps <= SCALE,
    ensures
        r == point_near_segment(u@, w@, p@, eps as int),
{
    let uv = w.sub(u);
    let up = p.sub(u);
    proof {
        lemma_dot_bound(up@, uv@, 0x2000_0000, 0x2000_0000);
        lemma_dot_bound(up@, up@, 0x2000_0000, 0x2000_0000);
        lemma_dot_bound(uv@, uv@, 0x2000_0000, 0x2000_0000);
        lemma_mul_bound(nsq_v(up@), nsq_v(uv@), 0xC00_0000_0000_0000, 0xC00_0000_0000_0000);
        lemma_mul_bound(dot_v(up@, uv@), dot_v(up@, uv@), 0xC00_0000_0000_0000,
            0xC00_0000_0000_0000);
        assert(0 <= (eps as int) * (eps as int) <= 0x1_0000_0000) by (nonlinear_arith)
            requires
                0 < eps <= SCALE,
        ;
        lemma_mul_bound((eps as int) * (eps as int), nsq_v(uv@), 0x1_0000_0000,
            0xC00_0000_0000_0000);
    }
    let e = up.dot(&uv);
    let nuv = uv.nsq();
    if e <= 0 {
        up.nsq() < (eps as i128) * (eps as i128)
    } else if e >= nuv {
        let pw = p.sub(w);
        proof {
            lemma_dot_bound(sub_v(p@, w@), sub_v(p@, w@), 0x2000_0000, 0x2000_0000);
        }
        pw.nsq() < (eps as i128) * (eps as i128)
    } else {
        up.nsq() * nuv - e * e < (eps as i128) * (eps as i128) * nuv
    }
}

fn point_near_triangle_exec(a: &Vec3, b: &Vec3, c: &Vec3, p: &Vec3, eps: i64) -> (r: bool)
    requires
        wf_coord(a@),
        wf_coord(b@),
        wf_coord(c@),
        wf_coord(p@),
        0 < eps <= SCALE,
    ensures
        r == point_near_triangle(a@, b@, c@, p@, eps as int),
{
    let ba = b.sub(a);
    let ca = c.sub(a);
    let cb = c.sub(b);
    let ac = a.sub(c);
    proof {
        lemma_cross_bound(ba@, ca@, 0x2000_0000, 0x2000_0000);
        lemma_tdiv_bound(cross_v(ba@, ca@).x, SCALE as int, 0x2000_0000_0000);
        lemma_tdiv_bound(cross_v(ba@, ca@).y, SCALE as int, 0x2000_0000_0000);
        lemma_tdiv_bound(cross_v(ba@, ca@).z, SCALE as int, 0x2000_0000_0000);
    }
    let c0 = ba.cross(&ca);
    let n = Vec3 {
        x: crate::fixed::div_t(c0.x, SCALE),
        y: crate::fixed::div_t(c0.y, SCALE),
        z: crate::fixed::div_t(c0.z, SCALE),
    };
    let pa = p.sub(a);
    let pb = p.sub(b);
    let pc = p.sub(c);
    proof {
        lemma_dot_bound(n@, sub_v(p@, a@), 0x2000_0000_0000, 0x2000_0000);
        lemma_dot_bound(n@, n@, 0x2000_0000_0000, 0x2000_0000_0000);
        assert(0 <= (eps as int) * (eps as int) <= 0x1_0000_0000) by (nonlinear_arith)
            requires
                0 < eps <= SCALE,
        ;
        lemma_mul_bound((eps as int) * (eps as int), nsq_v(n@), 0x1_0000_0000,
            0xC00_0000_0000_0000_0000_0000);
    }
    let d: i128 = n.dot(&pa);
    let inside = edge_test(&ba, &n, &pa) && edge_test(&cb, &n, &pb) && edge_test(&ac, &n, &pc);
    let nn: i128 = n.nsq();
    let near_plane = if d > -0x1000_0000_0000_0000 && d < 0x1000_0000_0000_0000 {
        proof {
            lemma_mul_bound(d as int, d as int, 0x1000_0000_0000_0000, 0x1000_0000_0000_0000);
        }
        d * d < (eps as i128) * (eps as i128) * nn
    } else {
        false
    };
    if inside && near_plane {
        true
    } else {
        point_near_segment_exec(a, b, p, eps) || point_near_segment_exec(b, c, p, eps)
            || point_near_segment_exec(c, a, p, eps)
    }
}

/// One edge half-space test: the projection of `p` is on the inner side of
/// the plane spanned by `edge` and the (descaled) normal.
fn edge_test(edge: &Vec3, n: &Vec3, pv: &Vec3) -> (r: bool)
    requires
        bounded(edge@, 0x4000_0000),
        bounded(n@, 0x2000_0000_0000),
        bounded(pv@, 0x4000_0000),
    ensures
        r == (dot_v(cross_v(edge@, n@), pv@) <= 0),
{
    proof {
        lemma_mul_bound(edge@.y, n@.z, 0x4000_0000, 0x2000_0000_0000);
        lemma_mul_bound(edge@.z, n@.y, 0x4000_0000, 0x2000_0000_0000);
        lemma_mul_bound(edge@.z, n@.x, 0x4000_0000, 0x2000_0000_0000);
        lemma_mul_bound(edge@.x, n@.z, 0x4000_0000, 0x2000_0000_0000);
        lemma_mul_bound(edge@.x, n@.y, 0x4000_0000, 0x2000_0000_0000);
        lemma_mul_bound(edge@.y, n@.x, 0x4000_0000, 0x2000_0000_0000);
        lemma_cross_bound(edge@, n@, 0x4000_0000, 0x2000_0000_0000);
        lemma_mul_bound(cross_v(edge@, n@).x, pv@.x, 0x1_0000_0000_0000_0000_0000, 0x4000_0000);
        lemma_mul_bound(cross_v(edge@, n@).y, pv@.y, 0x1_0000_0000_0000_0000_0000, 0x4000_0000);
        lemma_mul_bound(cross_v(edge@, n@).z, pv@.z, 0x1_0000_0000_0000_0000_0000, 0x4000_0000);
    }
    let ex = edge.x as i128;
    let ey = edge.y as i128;
    let ez = edge.z as i128;
    let nx = n.x as i128;
    let ny = n.y as i128;
    let nz = n.z as i128;
    let cx: i128 = ey * nz - ez * ny;
    let cy: i128 = ez * nx - ex * nz;
    let cz: i128 = ex * ny - ey * nx;
    cx * (pv.x as i128) + cy * (pv.y as i128) + cz * (pv.z as i128) <= 0
}

/// Whether the point is within `eps` of the face's fan triangulation.
pub open spec fn point_near_face(f: FaceV, p: V3, eps: int) -> bool {
    exists|k: int|
        1 <= k < f.points.len() - 1 && point_near_triangle(
            f.points[0],
            #[trigger] f.points[k],
            f.points[k + 1],
            p,
            eps,
        )
}

/// Decide whether a point is within `eps` of a face.
pub fn point_near_face_exec(f: &Face, p: &Vec3, eps: i64) -> (r: bool)
    requires
        f.wf(),
        wf_coord(p@),
        0 < eps <= SCALE,
    ensures
        r == point_near_face(f@, p@, eps as int),
{
    let pts = f.points();
    let n = pts.len();
    proof {
        f.lemma_wf_props();
        assert(f@.points.len() == n);
    }
    let mut k: usize = 1;
    while k < n - 1
        invariant
            1 <= k <= n - 1,
            3 <= n == f@.points.len(),
            pts@.len() == n,
            crate::face::pts_view(pts@) == f@.points,
            f.wf(),
            wf_coord(p@),
            0 < eps <= SCALE,
            forall|j: int|
                1 <= j < k ==> !point_near_triangle(
                    f@.points[0],
                    #[trigger] f@.points[j],
                    f@.points[j + 1],
                    p@,
                    eps as int,
                ),
        decreases n - 1 - k,
    {
        proof {
            f.lemma_wf_props();
            assert(pts@[0]@ == f@.points[0]);
            assert(pts@[k as int]@ == f@.points[k as int]);
            assert(pts@[k + 1]@ == f@.points[k + 1]);
        }
        if point_near_triangle_exec(&pts[0], &pts[k], &pts[k + 1], p, eps) {
            return true;
        }
        k = k + 1;
    }
    false
}

/// What one movement tick decides.
#[derive(Clone, Copy, Debug, PartialEq, Eq, Structural)]
pub enum NavOutcome {
    /// The movement crossed an exit face: control passes to this
    /// environment, and the move is accepted.
    Handoff(EnvironmentIdentifier),
    /// The movement came within the blocking threshold of a solid face:
    /// the position does not advance.
    Blocked,
    /// The movement is accepted within the current environment.
    Moved}

/// The midpoint of a movement segment, the third of the three points at
/// which wall proximity is sampled.
pub open spec fn midpoint(a: V3, b: V3) -> V3 {
    V3 {
        x: crate::fixed::tdiv(a.x + b.x, 2),
        y: crate::fixed::tdiv(a.y + b.y, 2),
        z: crate::fixed::tdiv(a.z + b.z, 2),
    }
}

/// Whether any exit face is met by the movement segment.
pub open spec fn any_exit_crossed(
    exits: Seq<(EnvironmentIdentifier, Face)>,
    a: V3,
    b: V3,
) -> bool {
    exists|k: int|
        0 <= k < exits.len() && segment_meets_face((#[trigger] exits[k]).1@, a, b)
}

/// Whether the movement comes within `eps` of the face, sampled at the
/// segment's two endpoints and its midpoint.
pub open spec fn segment_near_face(f: FaceV, a: V3, b: V3, eps: int) -> bool {
    ||| point_near_face(f, a, eps)
    ||| point_near_face(f, b, eps)
    ||| point_near_face(f, midpoint(a, b), eps)
}

/// Whether the face stops the movement: the segment crosses it outright
/// (walls may not be passed through), or comes within `eps` of it at the
/// segment's endpoints or midpoint.
pub open spec fn face_blocks(f: FaceV, a: V3, b: V3, eps: int) -> bool {
    ||| segment_meets_face(f, a, b)
    ||| segment_near_face(f, a, b, eps)
}

/// Whether any solid face blocks the movement.
pub open spec fn movement_blocked(faces: Seq<Face>, a: V3, b: V3, eps: int) -> bool {
    exists|k: int|
        0 <= k < faces.len() && face_blocks((#[trigger] faces[k])@, a, b, eps)
}

/// Decide one movement tick against an environment's faces.
///
/// If the segment from `old_pos` to `new_pos` meets an exit face, the
/// first such face (in list order) wins and the movement is a handoff to
/// the environment behind it; no wall check applies on a handoff tick.
/// Otherwise, if the movement crosses any solid face or comes within
/// `BLOCK_EPS_FIX` of one, it is blocked.  Otherwise it is accepted.
pub fn navigate(
    faces: &Vec<Face>,
    exit_faces: &Vec<(EnvironmentIdentifier, Face)>,
    old_pos: &Vec3,
    new_pos: &Vec3,
) -> (r: NavOutcome)
    requires
        forall|k: int| 0 <= k < faces@.len() ==> (#[trigger] faces@[k]).wf(),
        forall|k: int| 0 <= k < exit_faces@.len() ==> (#[trigger] exit_faces@[k]).1.wf(),
        wf_coord(old_pos@),
        wf_coord(new_pos@),
    ensures
        (r is Handoff) == any_exit_crossed(exit_faces@, old_pos@, new_pos@),
        r matches NavOutcome::Handoff(id) ==> exists|k: int|
            {
                &&& 0 <= k < exit_faces@.len()
                &&& segment_meets_face((#[trigger] exit_faces@[k]).1@, old_pos@, new_pos@)
                &&& id == exit_faces@[k].0
                &&& forall|j: int|
                    0 <= j < k ==> !segment_meets_face(
                        (#[trigger] exit_faces@[j]).1@,
                        old_pos@,
                        new_pos@,
                    )
            },
        !any_exit_crossed(exit_faces@, old_pos@, new_pos@) ==> (r is Blocked) == movement_blocked(
            faces@,
            old_pos@,
            new_pos@,
            BLOCK_EPS_FIX as int,
        ),
        r is Moved <==> !any_exit_crossed(exit_faces@, old_pos@, new_pos@) && !movement_blocked(
            faces@,
            old_pos@,
            new_pos@,
            BLOCK_EPS_FIX as int,
        ),
{
    let n = exit_faces.len();
    let mut k: usize = 0;
    while k < n
        invariant
            0 <= k <= n,
            n == exit_faces@.len(),
            forall|j: int| 0 <= j < exit_faces@.len() ==> (#[trigger] exit_faces@[j]).1.wf(),
            wf_coord(old_pos@),
            wf_coord(new_pos@),
            forall|j: int|
                0 <= j < k ==> !segment_meets_face(
                    (#[trigger] exit_faces@[j]).1@,
                    old_pos@,
                    new_pos@,
                ),
        decreases n - k,
    {
        if segment_meets_face_exec(&exit_faces[k].1, old_pos, new_pos) {
            return NavOutcome::Handoff(exit_faces[k].0);
        }
        k = k + 1;
    }
    let mid = Vec3 {
        x: crate::fixed::div_t(old_pos.x + new_pos.x, 2),
        y: crate::fixed::div_t(old_pos.y + new_pos.y, 2),
        z: crate::fixed::div_t(old_pos.z + new_pos.z, 2),
    };
    proof {
        assert(mid@ == midpoint(old_pos@, new_pos@));
        assert(wf_coord(mid@));
    }
    let m = faces.len();
    let mut k: usize = 0;
    while k < m
        invariant
            0 <= k <= m,
            m == faces@.len(),
            forall|j: int| 0 <= j < faces@.len() ==> (#[trigger] faces@[j]).wf(),
            wf_coord(old_pos@),
            wf_coord(new_pos@),
            mid@ == midpoint(old_pos@, new_pos@),
            wf_coord(mid@),
            forall|j: int|
                0 <= j < exit_faces@.len() ==> !segment_meets_face(
                    (#[trigger] exit_faces@[j]).1@,
                    old_pos@,
                    new_pos@,
                ),
            forall|j: int|
                0 <= j < k ==> !face_blocks(
                    (#[trigger] faces@[j])@,
                    old_pos@,
                    new_pos@,
                    BLOCK_EPS_FIX as int,
                ),
        decreases m - k,
    {
        let f = &faces[k];
        if segment_meets_face_exec(f, old_pos, new_pos) || point_near_face_exec(
            f,
            old_pos,
            BLOCK_EPS_FIX,
        ) || point_near_face_exec(f, new_pos, BLOCK_EPS_FIX) || point_near_face_exec(
            f,
            &mid,
            BLOCK_EPS_FIX,
        ) {
            return NavOutcome::Blocked;
        }
        k = k + 1;
    }
    NavOutcome::Moved
}

} // verus!
