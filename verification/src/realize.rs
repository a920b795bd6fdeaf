//! Door geometry and bearing order around a landing.
//!
//! A door is the rectangle a tunnel mouth occupies.  Doors around a landing
//! are laid out by bearing (signed angle around the landing's up axis), and
//! the angular gap between circularly-adjacent doors must exceed
//! `MIN_ANGLE_FIX`; the gap test compares cosines through the exact
//! fraction `cos(MIN_ANGLE_FIX) = 7/25`, so no transcendental evaluation is
//! involved.

use vstd::prelude::*;

use crate::face::{Face};
use crate::fixed::{div_t, iabs, lemma_tdiv_bound, tdiv, SCALE};

use crate::vec3::{add_v, bounded, cross_v, lemma_cross_bound, lemma_mul_bound, scale_v, sub_v, unit_scaled, wf_coord, Vec3, V3};

verus! {

/// Half a door's height: `TUNNEL_HEIGHT / 2`, 2 units.
pub const HALF_HEIGHT_FIX: i64 = 131072;

/// Half a door's width: `TUNNEL_WIDTH / 2`, 1.5 units.
pub const HALF_WIDTH_FIX: i64 = 98304;

/// Coordinate bound for door centers: a little outside the skeleton's own
/// bound, since door centers sit on the landing circle.
pub const DOOR_CENTER_LIMIT: i64 = 135266304;

/// The mathematical shadow of a door: its four corners.
pub struct DoorV {
    pub top_left: V3,
    pub bottom_left: V3,
    pub top_right: V3,
    pub bottom_right: V3}

/// The rectangle a tunnel mouth occupies.
#[derive(Clone, Copy, Debug)]
pub struct Door {
    pub top_left: Vec3,
    pub bottom_left: Vec3,
    pub top_right: Vec3,
    pub bottom_right: Vec3}

impl View for Door {
    type V = DoorV;

    open spec fn view(&self) -> DoorV {
        DoorV {
            top_left: self.top_left@,
            bottom_left: self.bottom_left@,
            top_right: self.top_right@,
            bottom_right: self.bottom_right@}
    }
}

/// The in-plane right direction of a door facing `forwards` under `up`.
pub open spec fn door_right(up: V3, forwards: V3) -> V3 {
    let c = cross_v(forwards, up);
    V3 { x: tdiv(c.x, SCALE as int), y: tdiv(c.y, SCALE as int), z: tdiv(c.z, SCALE as int) }
}

/// The four corners of a tunnel-mouth rectangle centered at `point`, with
/// the given local up and right directions.
pub open spec fn corners_spec(point: V3, up: V3, right: V3) -> DoorV {
    let hu = scale_v(HALF_HEIGHT_FIX as int, up);
    let hr = scale_v(HALF_WIDTH_FIX as int, right);
    DoorV {
        top_right: add_v(add_v(point, hu), hr),
        bottom_right: add_v(sub_v(point, hu), hr),
        bottom_left: sub_v(sub_v(point, hu), hr),
        top_left: sub_v(add_v(point, hu), hr)}
}

/// The four corners of a door centered at `point`, facing `forwards`.
pub open spec fn door_spec(point: V3, up: V3, forwards: V3) -> DoorV {
    corners_spec(point, up, door_right(up, forwards))
}

/// Build the rectangle of the tunnel cross-section at `point` from explicit
/// local up and right directions.
pub fn corner_rect(point: &Vec3, up: &Vec3, right: &Vec3) -> (r: Door)
    requires
        bounded(point@, DOOR_CENTER_LIMIT as int),
        unit_scaled(up@),
        bounded(right@, 4 * SCALE),
    ensures
        r@.top_left == corners_spec(point@, up@, right@).top_left,
        r@.top_right == corners_spec(point@, up@, right@).top_right,
        r@.bottom_left == corners_spec(point@, up@, right@).bottom_left,
        r@.bottom_right == corners_spec(point@, up@, right@).bottom_right,
        bounded(r@.top_left, 150994944),
        bounded(r@.top_right, 150994944),
        bounded(r@.bottom_left, 150994944),
        bounded(r@.bottom_right, 150994944),
{
    let hu = up.scale(HALF_HEIGHT_FIX);
    let hr = right.scale(HALF_WIDTH_FIX);
    let top = point.add(&hu);
    let bottom = point.sub(&hu);
    Door {
        top_right: top.add(&hr),
        bottom_right: bottom.add(&hr),
        bottom_left: bottom.sub(&hr),
        top_left: top.sub(&hr)}
}

/// Build the door rectangle of width `TUNNEL_WIDTH` and height
/// `TUNNEL_HEIGHT` centered at `point`, facing `forwards`.
pub fn make_door(point: &Vec3, up: &Vec3, forwards: &Vec3) -> (r: Door)
    requires
        bounded(point@, DOOR_CENTER_LIMIT as int),
        unit_scaled(up@),
        unit_scaled(forwards@),
    ensures
        r@.top_left == door_spec(point@, up@, forwards@).top_left,
        r@.top_right == door_spec(point@, up@, forwards@).top_right,
        r@.bottom_left == door_spec(point@, up@, forwards@).bottom_left,
        r@.bottom_right == door_spec(point@, up@, forwards@).bottom_right,
        bounded(r@.top_left, 150994944),
        bounded(r@.top_right, 150994944),
        bounded(r@.bottom_left, 150994944),
        bounded(r@.bottom_right, 150994944),
{
    proof {
        lemma_cross_bound(forwards@, up@, SCALE as int, SCALE as int);
        lemma_tdiv_bound(cross_v(forwards@, up@).x, SCALE as int, 2 * SCALE);
        lemma_tdiv_bound(cross_v(forwards@, up@).y, SCALE as int, 2 * SCALE);
        lemma_tdiv_bound(cross_v(forwards@, up@).z, SCALE as int, 2 * SCALE);
    }
    let c = forwards.cross(up);
    let right = Vec3 { x: div_t(c.x, SCALE), y: div_t(c.y, SCALE), z: div_t(c.z, SCALE) };
    corner_rect(point, up, &right)
}

impl Door {
    /// The door as a face, wound bottom-left, bottom-right, top-right,
    /// top-left.
    pub fn to_face(&self) -> (r: Face)
        requires
            wf_coord(self@.bottom_left),
            wf_coord(self@.bottom_right),
            wf_coord(self@.top_right),
            wf_coord(self@.top_left),
        ensures
            r.wf(),
            crate::face::zero_uvs(r@),
            r@.points =~= seq![
                self@.bottom_left,
                self@.bottom_right,
                self@.top_right,
                self@.top_left,
            ],
    {
        let mut points: Vec<Vec3> = Vec::new();
        points.push(self.bottom_left);
        points.push(self.bottom_right);
        points.push(self.top_right);
        points.push(self.top_left);
        let r = Face::new(points);
        proof {
            assert(r@.points =~= seq![
                self@.bottom_left,
                self@.bottom_right,
                self@.top_right,
                self@.top_left,
            ]);
        }
        r
    }
}

/// The four corners of a door as a face's vertex list, wound bottom-left,
/// bottom-right, top-right, top-left.
pub open spec fn door_points(point: V3, up: V3, forwards: V3) -> Seq<V3> {
    let d = door_spec(point, up, forwards);
    seq![d.bottom_left, d.bottom_right, d.top_right, d.top_left]
}

/// One tunnel mouth of a landing: the tunnel, its unit direction from the
/// landing's center, and the direction's in-plane coordinates `(bx, by)`
/// against the landing's reference frame, descaled to unit size.
#[derive(Clone, Copy, Debug)]
pub struct DoorBearing {
    pub tunnel_id: usize,
    pub towards: Vec3,
    pub bx: i64,
    pub by: i64}

/// Which part of the circle a bearing lies in, ordered as the signed angle
/// `atan2(by, bx)` orders them: the open lower half plane, the positive
/// `x` axis, the open upper half plane, the negative `x` axis.  The zero
/// bearing sorts first.
pub open spec fn bearing_grp(x: int, y: int) -> int {
    if x == 0 && y == 0 {
        0
    } else if y < 0 {
        1
    } else if y == 0 && x > 0 {
        2
    } else if y > 0 {
        3
    } else {
        4
    }
}

/// Bearing order: by group, then counterclockwise within a half plane,
/// decided by the exact sign of the 2D cross product.
pub open spec fn bearing_le(x1: int, y1: int, x2: int, y2: int) -> bool {
    let g1 = bearing_grp(x1, y1);
    let g2 = bearing_grp(x2, y2);
    g1 < g2 || (g1 == g2 && (g1 == 0 || g1 == 2 || g1 == 4 || x1 * y2 - y1 * x2 >= 0))
}

pub open spec fn db_le(a: DoorBearing, b: DoorBearing) -> bool {
    bearing_le(a.bx as int, a.by as int, b.bx as int, b.by as int)
}

/// Every pair of bearings is ordered one way or the other.
pub proof fn lemma_bearing_total(a: DoorBearing, b: DoorBearing)
    ensures
        db_le(a, b) || db_le(b, a),
{
}

/// Bearing order is transitive: within a strict half plane the cross-product
/// sign agrees with the angle, and the angle order is transitive.
pub proof fn lemma_bearing_trans(a: DoorBearing, b: DoorBearing, c: DoorBearing)
    requires
        db_le(a, b),
        db_le(b, c),
    ensures
        db_le(a, c),
{
    let (x1, y1) = (a.bx as int, a.by as int);
    let (x2, y2) = (b.bx as int, b.by as int);
    let (x3, y3) = (c.bx as int, c.by as int);
    if bearing_grp(x1, y1) == 1 && bearing_grp(x2, y2) == 1 && bearing_grp(x3, y3) == 1 {
        assert(x1 * y3 - y1 * x3 >= 0) by (nonlinear_arith)
            requires
                y1 < 0,
                y2 < 0,
                y3 < 0,
                x1 * y2 - y1 * x2 >= 0,
                x2 * y3 - y2 * x3 >= 0,
        ;
    }
    if bearing_grp(x1, y1) == 3 && bearing_grp(x2, y2) == 3 && bearing_grp(x3, y3) == 3 {
        assert(x1 * y3 - y1 * x3 >= 0) by (nonlinear_arith)
            requires
                y1 > 0,
                y2 > 0,
                y3 > 0,
                x1 * y2 - y1 * x2 >= 0,
                x2 * y3 - y2 * x3 >= 0,
        ;
    }
}

/// Decide the bearing order of two mouths.
pub fn db_le_exec(a: &DoorBearing, b: &DoorBearing) -> (r: bool)
    requires
        iabs(a.bx as int) <= 0x10_0000,
        iabs(a.by as int) <= 0x10_0000,
        iabs(b.bx as int) <= 0x10_0000,
        iabs(b.by as int) <= 0x10_0000,
    ensures
        r == db_le(*a, *b),
{
    let g1: u32 = if a.bx == 0 && a.by == 0 {
        0
    } else if a.by < 0 {
        1
    } else if a.by == 0 && a.bx > 0 {
        2
    } else if a.by > 0 {
        3
    } else {
        4
    };
    let g2: u32 = if b.bx == 0 && b.by == 0 {
        0
    } else if b.by < 0 {
        1
    } else if b.by == 0 && b.bx > 0 {
        2
    } else if b.by > 0 {
        3
    } else {
        4
    };
    if g1 < g2 {
        true
    } else if g1 > g2 {
        false
    } else if g1 == 0 || g1 == 2 || g1 == 4 {
        true
    } else {
        proof {
            lemma_mul_bound(a.bx as int, b.by as int, 0x10_0000, 0x10_0000);
            lemma_mul_bound(a.by as int, b.bx as int, 0x10_0000, 0x10_0000);
        }
        (a.bx as i128) * (b.by as i128) - (a.by as i128) * (b.bx as i128) >= 0
    }
}

/// Pairwise sortedness by bearing.
pub open spec fn sorted_doors(s: Seq<DoorBearing>) -> bool {
    forall|i: int, j: int| 0 <= i < j < s.len() ==> db_le(s[i], s[j])
}

/// Magnitude bound on every stored bearing coordinate.
pub open spec fn bearings_bounded(s: Seq<DoorBearing>) -> bool {
    forall|i: int|
        0 <= i < s.len() ==> iabs((#[trigger] s[i]).bx as int) <= 0x10_0000 && iabs(
            s[i].by as int,
        ) <= 0x10_0000
}

/// The index the bearing scan settles on: starting from `best`, walk
/// `k..` and switch to any mouth that compares at or below the current
/// minimum (so the last of a tied group wins).
pub open spec fn min_door_from(s: Seq<DoorBearing>, k: int, best: int) -> int
    decreases s.len() - k,
{
    if k < 0 || k >= s.len() {
        best
    } else {
        min_door_from(
            s,
            k + 1,
            if db_le(s[k], s[best]) {
                k
            } else {
                best
            },
        )
    }
}

/// The bearing order of a mouth list, as a value: repeatedly move the
/// scan's minimal mouth to the front.  This is the canonical order every
/// landing's doors are laid out in.
pub open spec fn sort_doors_spec(s: Seq<DoorBearing>) -> Seq<DoorBearing>
    decreases s.len(),
{
    if s.len() == 0 {
        Seq::empty()
    } else {
        let i0 = min_door_from(s, 1, 0);
        let i = if 0 <= i0 < s.len() {
            i0
        } else {
            0
        };
        seq![s[i]] + sort_doors_spec(s.remove(i))
    }
}

/// Sort door mouths by bearing.  The result is exactly `sort_doors_spec`
/// of the input: the same mouths as a multiset, in bearing order.
pub fn sort_doors(input: Vec<DoorBearing>) -> (r: Vec<DoorBearing>)
    requires
        bearings_bounded(input@),
    ensures
        r@ == sort_doors_spec(input@),
        r@.to_multiset() == input@.to_multiset(),
        r@.len() == input@.len(),
        sorted_doors(r@),
        bearings_bounded(r@),
        forall|k: int| 0 <= k < r@.len() ==> input@.contains(#[trigger] r@[k]),
{
    broadcast use vstd::seq_lib::group_to_multiset_ensures;

    let mut rest = input;
    let mut out: Vec<DoorBearing> = Vec::new();
    proof {
        assert(out@.to_multiset().add(rest@.to_multiset()) =~= input@.to_multiset());
        assert(sort_doors_spec(input@) =~= out@ + sort_doors_spec(rest@));
    }
    while rest.len() > 0
        invariant
            sort_doors_spec(input@) == out@ + sort_doors_spec(rest@),
            out@.to_multiset().add(rest@.to_multiset()) == input@.to_multiset(),
            out@.len() + rest@.len() == input@.len(),
            sorted_doors(out@),
            bearings_bounded(out@),
            bearings_bounded(rest@),
            forall|k: int| 0 <= k < out@.len() ==> input@.contains(#[trigger] out@[k]),
            forall|j: int| 0 <= j < rest@.len() ==> input@.contains(#[trigger] rest@[j]),
            forall|i: int, j: int|
                0 <= i < out@.len() && 0 <= j < rest@.len() ==> db_le(out@[i], rest@[j]),
        decreases rest@.len(),
    {
        let mut best: usize = 0;
        let mut k: usize = 1;
        proof {
            lemma_bearing_total(rest@[0], rest@[0]);
        }
        while k < rest.len()
            invariant
                0 <= best < k <= rest@.len(),
                bearings_bounded(rest@),
                forall|j: int| 0 <= j < k ==> db_le(rest@[best as int], rest@[j]),
                min_door_from(rest@, k as int, best as int) == min_door_from(rest@, 1, 0),
            decreases rest@.len() - k,
        {
            if db_le_exec(&rest[k], &rest[best]) {
                proof {
                    assert forall|j: int| 0 <= j < k + 1 implies db_le(
                        rest@[k as int],
                        rest@[j],
                    ) by {
                        if j < k {
                            lemma_bearing_trans(rest@[k as int], rest@[best as int], rest@[j]);
                        } else {
                            lemma_bearing_total(rest@[k as int], rest@[k as int]);
                        }
                    };
                }
                best = k;
            } else {
                proof {
                    lemma_bearing_total(rest@[k as int], rest@[best as int]);
                }
            }
            k = k + 1;
        }
        proof {
            assert(min_door_from(rest@, rest@.len() as int, best as int) == best as int);
            assert(best as int == min_door_from(rest@, 1, 0));
            assert(0 <= min_door_from(rest@, 1, 0) < rest@.len());
        }
        let ghost rest0 = rest@;
        let ghost out0 = out@;
        let e = rest.remove(best);
        out.push(e);
        proof {
            assert(sort_doors_spec(rest0) == seq![rest0[best as int]] + sort_doors_spec(
                rest0.remove(best as int),
            ));
            assert(out@ + sort_doors_spec(rest@) =~= out0 + sort_doors_spec(rest0));
            rest0.to_multiset_ensures();
            out0.to_multiset_ensures();
            assert(rest0.contains(rest0[best as int]));
            assert(rest0.to_multiset().count(rest0[best as int]) > 0);
            assert(rest@.to_multiset() =~= rest0.to_multiset().remove(rest0[best as int]));
            assert(out@.to_multiset() =~= out0.to_multiset().insert(rest0[best as int]));
            assert(out@.to_multiset().add(rest@.to_multiset()) =~= input@.to_multiset());
            assert forall|j: int| 0 <= j < rest@.len() implies input@.contains(
                #[trigger] rest@[j],
            ) by {
                if j < best {
                    assert(rest@[j] == rest0[j]);
                } else {
                    assert(rest@[j] == rest0[j + 1]);
                }
            };
            assert forall|i: int, j: int|
                0 <= i < j < out@.len() implies db_le(out@[i], out@[j]) by {
                if j < out@.len() - 1 {
                    assert(db_le(out@[i], out@[j]));
                }
            };
        }
    }
    proof {
        assert(sort_doors_spec(rest@) =~= Seq::<DoorBearing>::empty());
        assert(out@ =~= out@ + sort_doors_spec(rest@));
    }
    out
}

/// Whether the angle between two bearings strictly exceeds the minimum door
/// separation `2 * atan(3/4)`.  Exact in the bearings: the angle exceeds
/// the minimum if and only if the cosine of the gap is below `7/25`, and
/// the cosine comparison is done on cross-multiplied squares.
pub open spec fn gap_exceeds_min(x1: int, y1: int, x2: int, y2: int) -> bool {
    let d = x1 * x2 + y1 * y2;
    d < 0 || 625 * (d * d) < 49 * ((x1 * x1 + y1 * y1) * (x2 * x2 + y2 * y2))
}

/// Decide whether the angular gap between two door mouths exceeds the
/// minimum separation.
pub fn gap_exceeds_min_exec(a: &DoorBearing, b: &DoorBearing) -> (r: bool)
    requires
        iabs(a.bx as int) <= 0x10_0000,
        iabs(a.by as int) <= 0x10_0000,
        iabs(b.bx as int) <= 0x10_0000,
        iabs(b.by as int) <= 0x10_0000,
    ensures
        r == gap_exceeds_min(a.bx as int, a.by as int, b.bx as int, b.by as int),
{
    proof {
        lemma_mul_bound(a.bx as int, b.bx as int, 0x10_0000, 0x10_0000);
        lemma_mul_bound(a.by as int, b.by as int, 0x10_0000, 0x10_0000);
        lemma_mul_bound(a.bx as int, a.bx as int, 0x10_0000, 0x10_0000);
        lemma_mul_bound(a.by as int, a.by as int, 0x10_0000, 0x10_0000);
        lemma_mul_bound(b.bx as int, b.bx as int, 0x10_0000, 0x10_0000);
        lemma_mul_bound(b.by as int, b.by as int, 0x10_0000, 0x10_0000);
    }
    let d: i128 = (a.bx as i128) * (b.bx as i128) + (a.by as i128) * (b.by as i128);
    if d < 0 {
        true
    } else {
        let na: i128 = (a.bx as i128) * (a.bx as i128) + (a.by as i128) * (a.by as i128);
        let nb: i128 = (b.bx as i128) * (b.bx as i128) + (b.by as i128) * (b.by as i128);
        proof {
            lemma_mul_bound(d as int, d as int, 0x2_0000_0000_0000, 0x2_0000_0000_0000);
            lemma_mul_bound(na as int, nb as int, 0x2_0000_0000_0000, 0x2_0000_0000_0000);
        }
        625 * (d * d) < 49 * (na * nb)
    }
}

} // verus!
