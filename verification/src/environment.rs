//! Realized environments: the concrete geometry of one skeleton node.
//!
//! Each environment owns its renderable faces and its exit faces — the
//! invisible polygons whose crossing hands the camera to the adjacent
//! environment, tagged with that environment's identifier.

use vstd::prelude::*;

use crate::face::{Face, UV2};
use crate::fixed::{div_t, iabs, lemma_tdiv_bound, tdiv, COORD_LIMIT, SCALE};
use crate::params::{GEN_LIMIT, LANDING_RADIUS_FIX, TUNNEL_HEIGHT_FIX};
use crate::fixed::{fxmul, isqrt_spec};
use crate::params::TUNNEL_SUBDIVISIONS;
use crate::realize::{bearings_bounded, corners_spec, door_points, door_spec,
    gap_exceeds_min, make_door, sort_doors, sort_doors_spec, sorted_doors, DoorBearing};
use crate::skeleton::{connector_coupler_point_spec, connector_up_spec, Coupler, Tunnel};
use crate::trig::{slerp_spec, SLERP_T_LIMIT};
use crate::vec3::{lemma_mul_bound, neg_v, nsq_v};
use crate::skeleton::{connector_point_spec, connector_valid, skel_wf, ConnectorIdentifier,
    DeadEnd, DeadEndV, EnvironmentIdentifier, Landing, LandingV, MazeError, MazeSkeleton, SkelV};
use crate::vec3::{add_v, bounded, cross_v, dot_v, lemma_cross_bound, lemma_dot_bound,
    normalize_spec, scale_v, sub_v, unit_scaled, Vec3, V3};

verus! {

/// The outward direction of a dead end's single door: away from its tunnel.
pub open spec fn dead_end_door_direction(s: SkelV, d: DeadEndV, tid: int) -> V3 {
    let t = s.tunnels[tid];
    let away = if t.start_connector == ConnectorIdentifier::DeadEnd(d.id as usize) {
        sub_v(connector_point_spec(s, t.end_connector), connector_point_spec(s, t.start_connector))
    } else {
        sub_v(connector_point_spec(s, t.start_connector), connector_point_spec(s, t.end_connector))
    };
    normalize_spec(away)
}

/// The complete tie between a dead end's environment and its skeleton
/// node: one door away from its tunnel, the same face as the exit.
pub open spec fn dead_end_env_matches(s: SkelV, d: DeadEndV, env: DeadEndEnvironment) -> bool {
    &&& env.spec_dead_end() == d
    &&& d.tunnel_id matches Some(tid) && {
        &&& env.spec_exit_faces().len() == 1
        &&& env.spec_faces().len() == 1
        &&& env.spec_exit_faces()[0].0 == EnvironmentIdentifier::Tunnel(tid as usize)
        &&& env.spec_faces()[0]@.points == door_points(
            d.point,
            d.up,
            dead_end_door_direction(s, d, tid),
        )
        &&& env.spec_exit_faces()[0].1@.points == env.spec_faces()[0]@.points
        &&& crate::face::zero_uvs(env.spec_faces()[0]@)
        &&& crate::face::zero_uvs(env.spec_exit_faces()[0].1@)
    }
}

/// The realized geometry of a dead end: one door face, which is also its
/// only exit face.
pub struct DeadEndEnvironment {
    faces: Vec<Face>,
    exit_faces: Vec<(EnvironmentIdentifier, Face)>,
    dead_end: DeadEnd}

impl DeadEndEnvironment {
    pub closed spec fn spec_faces(self) -> Seq<Face> {
        self.faces@
    }

    pub closed spec fn spec_exit_faces(self) -> Seq<(EnvironmentIdentifier, Face)> {
        self.exit_faces@
    }

    pub closed spec fn spec_dead_end(self) -> DeadEndV {
        self.dead_end@
    }

    pub closed spec fn wf(self) -> bool {
        &&& self.faces@.len() == 1
        &&& self.exit_faces@.len() == 1
        &&& forall|i: int| 0 <= i < self.faces@.len() ==> (#[trigger] self.faces@[i]).wf()
        &&& forall|i: int|
            0 <= i < self.exit_faces@.len() ==> (#[trigger] self.exit_faces@[i]).1.wf()
        &&& unit_scaled(self.dead_end@.up)
    }

    /// What well-formedness guarantees every consumer.
    pub proof fn lemma_wf_props(self)
        requires
            self.wf(),
        ensures
            self.spec_faces().len() == 1,
            self.spec_exit_faces().len() == 1,
            forall|i: int|
                0 <= i < self.spec_faces().len() ==> (#[trigger] self.spec_faces()[i]).wf(),
            forall|i: int|
                0 <= i < self.spec_exit_faces().len() ==> (#[trigger] self.spec_exit_faces()[
                    i
                ]).1.wf(),
    {
    }

    /// The renderable faces.
    pub fn faces(&self) -> (r: &Vec<Face>)
        ensures
            r@ == self.spec_faces(),
    {
        &self.faces
    }

    /// The exit faces with the environment behind each.
    pub fn exit_faces(&self) -> (r: &Vec<(EnvironmentIdentifier, Face)>)
        ensures
            r@ == self.spec_exit_faces(),
    {
        &self.exit_faces
    }

    /// The originating node.
    pub fn dead_end(&self) -> (r: &DeadEnd)
        ensures
            r@ == self.spec_dead_end(),
    {
        &self.dead_end
    }

    /// The local vertical anywhere inside a dead end: its fixed up vector.
    pub fn up(&self, _camera_position: &Vec3) -> (r: Vec3)
        ensures
            r@ == self.spec_dead_end().up,
    {
        self.dead_end.up
    }
}

/// Componentwise descale by `SCALE`.
pub open spec fn descale3(v: V3) -> V3 {
    V3 { x: tdiv(v.x, SCALE as int), y: tdiv(v.y, SCALE as int), z: tdiv(v.z, SCALE as int) }
}

/// A spec-level `Vec3` with the given components.
pub open spec fn vec3_of(v: V3) -> Vec3 {
    Vec3 { x: v.x as i64, y: v.y as i64, z: v.z as i64 }
}

/// The unit direction from a landing's center toward the far end of its
/// `j`-th tunnel.
pub open spec fn towards_spec(s: SkelV, l: LandingV, j: int) -> V3 {
    let t = s.tunnels[l.tunnel_ids[j]];
    let other = if t.start_connector == ConnectorIdentifier::Landing(l.id as usize) {
        connector_point_spec(s, t.end_connector)
    } else {
        connector_point_spec(s, t.start_connector)
    };
    normalize_spec(sub_v(other, l.point))
}

/// The `j`-th tunnel mouth of a landing, with its bearing coordinates
/// against the frame whose forward axis points at mouth 0.
pub open spec fn bearing_of_spec(s: SkelV, l: LandingV, j: int) -> DoorBearing {
    let tw = towards_spec(s, l, j);
    let fwd = towards_spec(s, l, 0);
    let right = descale3(cross_v(l.up, fwd));
    DoorBearing {
        tunnel_id: l.tunnel_ids[j] as usize,
        towards: vec3_of(tw),
        bx: tdiv(dot_v(tw, right), SCALE as int) as i64,
        by: tdiv(dot_v(tw, fwd), SCALE as int) as i64}
}

/// All mouths of a landing, in tunnel-creation order.
pub open spec fn bearings_of(s: SkelV, l: LandingV) -> Seq<DoorBearing> {
    Seq::new(l.tunnel_ids.len(), |j: int| bearing_of_spec(s, l, j))
}

/// Every circularly-adjacent pair of sorted mouths is separated by more
/// than the minimum door angle.
pub open spec fn circular_gaps_ok(sd: Seq<DoorBearing>) -> bool {
    forall|k: int|
        0 <= k < sd.len() ==> {
            let k2 = if k + 1 == sd.len() {
                0int
            } else {
                k + 1
            };
            gap_exceeds_min(
                (#[trigger] sd[k]).bx as int,
                sd[k].by as int,
                sd[k2].bx as int,
                sd[k2].by as int,
            )
        }
}

/// Where the door of mouth `d` stands: on the landing circle, at
/// `LANDING_RADIUS` along the mouth's direction.
pub open spec fn door_center(l: LandingV, d: DoorBearing) -> V3 {
    add_v(l.point, scale_v(LANDING_RADIUS_FIX as int, d.towards@))
}

/// The `j`-th vertex of a landing's floor polygon: the floor-level corners
/// of the sorted doors, two per door.
pub open spec fn floor_pt(l: LandingV, sd: Seq<DoorBearing>, j: int) -> V3 {
    let d = door_spec(door_center(l, sd[j / 2]), l.up, sd[j / 2].towards@);
    if j % 2 == 0 {
        d.bottom_left
    } else {
        d.bottom_right
    }
}

/// The ceiling translation: one room height along the landing's up.
pub open spec fn floor_to_ceiling(l: LandingV) -> V3 {
    scale_v(TUNNEL_HEIGHT_FIX as int, l.up)
}

/// The vertices of the `k`-th wall, filling the span from door `k`'s
/// right floor corner to door `k+1`'s left one (wrapping around), up to
/// the ceiling.
pub open spec fn wall_points(l: LandingV, sd: Seq<DoorBearing>, k: int) -> Seq<V3> {
    let a = floor_pt(l, sd, 2 * k + 1);
    let b = floor_pt(
        l,
        sd,
        if 2 * k + 2 == 2 * sd.len() {
            0int
        } else {
            2 * k + 2
        },
    );
    seq![a, b, add_v(b, floor_to_ceiling(l)), add_v(a, floor_to_ceiling(l))]
}

/// The complete tie between a landing's environment and its skeleton
/// node: the doors are the bearing-sorted mouths of the node's tunnels,
/// and every face and exit face is the documented function of them.
pub open spec fn landing_env_matches(s: SkelV, l: LandingV, env: LandingEnvironment) -> bool {
    let sd = sort_doors_spec(bearings_of(s, l));
    &&& env.spec_landing() == l
    &&& env.spec_doors() == sd
    &&& env.spec_exit_faces().len() == sd.len()
    &&& forall|k: int|
        0 <= k < sd.len() ==> {
            &&& (#[trigger] env.spec_exit_faces()[k]).0 == EnvironmentIdentifier::Tunnel(
                sd[k].tunnel_id,
            )
            &&& env.spec_exit_faces()[k].1@.points == door_points(
                door_center(l, sd[k]),
                l.up,
                sd[k].towards@,
            )
            &&& crate::face::zero_uvs(env.spec_exit_faces()[k].1@)
        }
    &&& env.spec_faces().len() == sd.len() + 2
    &&& env.spec_faces()[0]@.points.len() == 2 * sd.len()
    &&& forall|j: int|
        0 <= j < 2 * sd.len() ==> #[trigger] env.spec_faces()[0]@.points[j] == floor_pt(l, sd, j)
    &&& env.spec_faces()[1]@.points.len() == 2 * sd.len()
    &&& forall|j: int|
        0 <= j < 2 * sd.len() ==> #[trigger] env.spec_faces()[1]@.points[j] == add_v(
            floor_pt(l, sd, j),
            floor_to_ceiling(l),
        )
    &&& forall|k: int|
        0 <= k < sd.len() ==> (#[trigger] env.spec_faces()[k + 2])@.points == wall_points(
            l,
            sd,
            k,
        )
    &&& forall|k: int|
        0 <= k < env.spec_faces().len() ==> crate::face::zero_uvs((#[trigger] env.spec_faces()[
            k
        ])@)
}

/// The realized geometry of a landing: floor, ceiling and wall faces, plus
/// one exit face per door, and the sorted mouths the layout was built from.
pub struct LandingEnvironment {
    faces: Vec<Face>,
    exit_faces: Vec<(EnvironmentIdentifier, Face)>,
    doors: Vec<DoorBearing>,
    landing: Landing}

impl LandingEnvironment {
    pub closed spec fn spec_faces(self) -> Seq<Face> {
        self.faces@
    }

    pub closed spec fn spec_exit_faces(self) -> Seq<(EnvironmentIdentifier, Face)> {
        self.exit_faces@
    }

    pub closed spec fn spec_doors(self) -> Seq<DoorBearing> {
        self.doors@
    }

    pub closed spec fn spec_landing(self) -> LandingV {
        self.landing@
    }

    pub closed spec fn wf(self) -> bool {
        &&& self.doors@.len() >= 2
        &&& self.exit_faces@.len() == self.doors@.len()
        &&& self.faces@.len() == self.doors@.len() + 2
        &&& forall|i: int| 0 <= i < self.faces@.len() ==> (#[trigger] self.faces@[i]).wf()
        &&& forall|i: int|
            0 <= i < self.exit_faces@.len() ==> (#[trigger] self.exit_faces@[i]).1.wf()
        &&& sorted_doors(self.doors@)
        &&& circular_gaps_ok(self.doors@)
        &&& unit_scaled(self.landing@.up)
    }

    /// What well-formedness guarantees every consumer.
    pub proof fn lemma_wf_props(self)
        requires
            self.wf(),
        ensures
            self.spec_doors().len() >= 2,
            self.spec_exit_faces().len() == self.spec_doors().len(),
            self.spec_faces().len() == self.spec_doors().len() + 2,
            forall|i: int|
                0 <= i < self.spec_faces().len() ==> (#[trigger] self.spec_faces()[i]).wf(),
            forall|i: int|
                0 <= i < self.spec_exit_faces().len() ==> (#[trigger] self.spec_exit_faces()[
                    i
                ]).1.wf(),
    {
    }

    /// The renderable faces: floor, ceiling, then the walls between doors.
    pub fn faces(&self) -> (r: &Vec<Face>)
        ensures
            r@ == self.spec_faces(),
    {
        &self.faces
    }

    /// The exit faces: each door, tagged with its tunnel.
    pub fn exit_faces(&self) -> (r: &Vec<(EnvironmentIdentifier, Face)>)
        ensures
            r@ == self.spec_exit_faces(),
    {
        &self.exit_faces
    }

    /// The sorted door mouths the layout was built from.
    pub fn doors(&self) -> (r: &Vec<DoorBearing>)
        ensures
            r@ == self.spec_doors(),
    {
        &self.doors
    }

    /// The originating node.
    pub fn landing(&self) -> (r: &Landing)
        ensures
            r@ == self.spec_landing(),
    {
        &self.landing
    }

    /// The local vertical anywhere inside a landing: its fixed up vector.
    pub fn up(&self, _camera_position: &Vec3) -> (r: Vec3)
        ensures
            r@ == self.spec_landing().up,
    {
        self.landing.up
    }
}

impl Landing {
    /// Realize the landing: sort its tunnel mouths by bearing, refuse a
    /// layout whose doors are too close (defense in depth — generation
    /// samples angles that avoid this), and build doors, floor, ceiling and
    /// walls.  A landing with fewer than two tunnels is a modeling error.
    #[verifier::rlimit(100)]
    pub fn to_environment(&self, skel: &MazeSkeleton) -> (r: Result<
        LandingEnvironment,
        MazeError,
    >)
        requires
            skel_wf(skel@),
            skel@.tunnels.len() < 0x800_0000,
            (self.id as int) < skel@.landings.len(),
            skel@.landings[self.id as int] == self@,
        ensures
            self@.tunnel_ids.len() < 2 <==> r == Result::<LandingEnvironment, MazeError>::Err(
                MazeError::TooFewTunnels,
            ),
            r == Result::<LandingEnvironment, MazeError>::Err(MazeError::TunnelsTooClose)
                <==> self@.tunnel_ids.len() >= 2 && !circular_gaps_ok(
                sort_doors_spec(bearings_of(skel@, self@)),
            ),
            r matches Err(e) ==> e == MazeError::TooFewTunnels || e == MazeError::TunnelsTooClose,
            r matches Ok(env) ==> {
                &&& env.wf()
                &&& landing_env_matches(skel@, self@, env)
                &&& env.spec_landing() == self@
                &&& env.spec_doors() == sort_doors_spec(bearings_of(skel@, self@))
                &&& env.spec_doors().len() == self@.tunnel_ids.len()
                &&& env.spec_doors().to_multiset() == bearings_of(skel@, self@).to_multiset()
                &&& forall|k: int|
                    0 <= k < env.spec_doors().len() ==> exists|j: int|
                        0 <= j < self@.tunnel_ids.len() && (#[trigger] env.spec_doors()[
                            k
                        ]).tunnel_id as int == self@.tunnel_ids[j]
                &&& sorted_doors(env.spec_doors())
                &&& circular_gaps_ok(env.spec_doors())
                &&& env.spec_exit_faces().len() == env.spec_doors().len()
                &&& forall|k: int|
                    0 <= k < env.spec_doors().len() ==> {
                        &&& (#[trigger] env.spec_exit_faces()[k]).0
                            == EnvironmentIdentifier::Tunnel(env.spec_doors()[k].tunnel_id)
                        &&& env.spec_exit_faces()[k].1@.points == door_points(
                            door_center(self@, env.spec_doors()[k]),
                            self@.up,
                            env.spec_doors()[k].towards@,
                        )
                    }
                &&& env.spec_faces().len() == env.spec_doors().len() + 2
                &&& env.spec_faces()[0]@.points.len() == 2 * env.spec_doors().len()
                &&& forall|j: int|
                    0 <= j < 2 * env.spec_doors().len() ==> #[trigger] env.spec_faces()[0]@.points[j]
                        == floor_pt(self@, env.spec_doors(), j)
                &&& env.spec_faces()[1]@.points.len() == 2 * env.spec_doors().len()
                &&& forall|j: int|
                    0 <= j < 2 * env.spec_doors().len() ==> #[trigger] env.spec_faces()[1]@.points[j]
                        == add_v(floor_pt(self@, env.spec_doors(), j), floor_to_ceiling(self@))
                &&& forall|k: int|
                    0 <= k < env.spec_doors().len() ==> (#[trigger] env.spec_faces()[k + 2])@.points
                        == wall_points(self@, env.spec_doors(), k)
                &&& forall|k: int|
                    0 <= k < env.spec_faces().len() ==> crate::face::zero_uvs(
                        (#[trigger] env.spec_faces()[k])@,
                    )
                &&& forall|k: int|
                    0 <= k < env.spec_exit_faces().len() ==> crate::face::zero_uvs(
                        (#[trigger] env.spec_exit_faces()[k]).1@,
                    )
            },
    {
        let n = self.tunnel_ids.len();
        if n < 2 {
            return Err(MazeError::TooFewTunnels);
        }
        proof {
            assert(self@.tunnel_ids.len() == n);
            assert(self@.tunnel_ids.len() <= skel@.tunnels.len());
        }
        // Unit directions toward each tunnel's far end.
        let mut towards: Vec<Vec3> = Vec::new();
        let mut j: usize = 0;
        while j < n
            invariant
                0 <= j <= n,
                n == self@.tunnel_ids.len(),
                skel_wf(skel@),
                (self.id as int) < skel@.landings.len(),
                skel@.landings[self.id as int] == self@,
                towards@.len() == j,
                forall|i: int|
                    0 <= i < j ==> (#[trigger] towards@[i])@ == towards_spec(skel@, self@, i)
                        && unit_scaled(towards@[i]@),
            decreases n - j,
        {
            let tid = self.tunnel_ids[j];
            proof {
                assert(skel@.landings[self.id as int].tunnel_ids[j as int] == tid as int);
                assert((tid as int) < skel@.tunnels.len());
            }
            let tunnel = skel.tunnels[tid];
            let other_connector = if tunnel.start_connector == ConnectorIdentifier::Landing(
                self.id,
            ) {
                tunnel.end_connector
            } else {
                tunnel.start_connector
            };
            let other = skel.connector_point(other_connector);
            let tw = other.sub(&self.point).normalize();
            towards.push(tw);
            j = j + 1;
        }
        // Bearing coordinates in the frame of mouth 0.
        let forwards = towards[0];
        let c = self.up.cross(&forwards);
        proof {
            lemma_cross_bound(self@.up, towards_spec(skel@, self@, 0), SCALE as int, SCALE as int);
            lemma_tdiv_bound(cross_v(self@.up, towards_spec(skel@, self@, 0)).x, SCALE as int,
                2 * SCALE);
            lemma_tdiv_bound(cross_v(self@.up, towards_spec(skel@, self@, 0)).y, SCALE as int,
                2 * SCALE);
            lemma_tdiv_bound(cross_v(self@.up, towards_spec(skel@, self@, 0)).z, SCALE as int,
                2 * SCALE);
        }
        let right = Vec3 { x: div_t(c.x, SCALE), y: div_t(c.y, SCALE), z: div_t(c.z, SCALE) };
        let mut mouths: Vec<DoorBearing> = Vec::new();
        let mut j: usize = 0;
        while j < n
            invariant
                0 <= j <= n,
                n == self@.tunnel_ids.len(),
                skel_wf(skel@),
                (self.id as int) < skel@.landings.len(),
                skel@.landings[self.id as int] == self@,
                towards@.len() == n,
                forall|i: int|
                    0 <= i < n ==> (#[trigger] towards@[i])@ == towards_spec(skel@, self@, i)
                        && unit_scaled(towards@[i]@),
                right@ == descale3(cross_v(self@.up, towards_spec(skel@, self@, 0))),
                bounded(right@, 2 * SCALE),
                forwards@ == towards_spec(skel@, self@, 0),
                unit_scaled(forwards@),
                mouths@.len() == j,
                forall|i: int| 0 <= i < j ==> #[trigger] mouths@[i] == bearing_of_spec(
                    skel@,
                    self@,
                    i,
                ),
                bearings_bounded(mouths@),
                forall|i: int| 0 <= i < j ==> unit_scaled((#[trigger] mouths@[i]).towards@),
            decreases n - j,
        {
            let tw = towards[j];
            proof {
                lemma_dot_bound(tw@, right@, SCALE as int, 2 * SCALE);
                lemma_dot_bound(tw@, forwards@, SCALE as int, SCALE as int);
                lemma_tdiv_bound(dot_v(tw@, right@), SCALE as int, 6 * SCALE);
                lemma_tdiv_bound(dot_v(tw@, forwards@), SCALE as int, 3 * SCALE);
            }
            let bx = crate::fixed::div_t_wide(tw.dot(&right), SCALE as i128) as i64;
            let by = crate::fixed::div_t_wide(tw.dot(&forwards), SCALE as i128) as i64;
            mouths.push(DoorBearing { tunnel_id: self.tunnel_ids[j], towards: tw, bx, by });
            j = j + 1;
        }
        proof {
            assert(mouths@ =~= bearings_of(skel@, self@));
        }
        let sorted = sort_doors(mouths);
        proof {
            assert(sorted@ == sort_doors_spec(bearings_of(skel@, self@)));
        }
        // Defense in depth: every circularly-adjacent gap must exceed the
        // minimum door separation.
        let mut k: usize = 0;
        while k < n
            invariant
                0 <= k <= n,
                n == sorted@.len(),
                2 <= n == self@.tunnel_ids.len(),
                n < 0x800_0000,
                sorted@ == sort_doors_spec(bearings_of(skel@, self@)),
                bearings_bounded(sorted@),
                forall|i: int|
                    0 <= i < k ==> {
                        let i2 = if i + 1 == sorted@.len() {
                            0int
                        } else {
                            i + 1
                        };
                        gap_exceeds_min(
                            (#[trigger] sorted@[i]).bx as int,
                            sorted@[i].by as int,
                            sorted@[i2].bx as int,
                            sorted@[i2].by as int,
                        )
                    },
            decreases n - k,
        {
            let k2 = if k + 1 == n {
                0
            } else {
                k + 1
            };
            if !crate::realize::gap_exceeds_min_exec(&sorted[k], &sorted[k2]) {
                proof {
                    assert(!circular_gaps_ok(sorted@)) by {
                        if circular_gaps_ok(sorted@) {
                            assert(gap_exceeds_min(
                                sorted@[k as int].bx as int,
                                sorted@[k as int].by as int,
                                sorted@[k2 as int].bx as int,
                                sorted@[k2 as int].by as int,
                            ));
                        }
                    };
                }
                return Err(MazeError::TunnelsTooClose);
            }
            k = k + 1;
        }
        // Doors: exit faces and the floor outline.
        let ftc = self.up.scale(TUNNEL_HEIGHT_FIX);
        let mut exit_faces: Vec<(EnvironmentIdentifier, Face)> = Vec::new();
        let mut floor_points: Vec<Vec3> = Vec::new();
        let mut k: usize = 0;
        while k < n
            invariant
                0 <= k <= n,
                n == sorted@.len(),
                2 <= n == self@.tunnel_ids.len(),
                n < 0x800_0000,
                skel_wf(skel@),
                (self.id as int) < skel@.landings.len(),
                skel@.landings[self.id as int] == self@,
                forall|i: int| 0 <= i < n ==> unit_scaled((#[trigger] sorted@[i]).towards@),
                exit_faces@.len() == k,
                floor_points@.len() == 2 * k,
                forall|i: int|
                    0 <= i < k ==> {
                        &&& (#[trigger] exit_faces@[i]).0 == EnvironmentIdentifier::Tunnel(
                            sorted@[i].tunnel_id,
                        )
                        &&& exit_faces@[i].1.wf()
                        &&& crate::face::zero_uvs(exit_faces@[i].1@)
                        &&& exit_faces@[i].1@.points == door_points(
                            door_center(self@, sorted@[i]),
                            self@.up,
                            sorted@[i].towards@,
                        )
                    },
                forall|i: int|
                    0 <= i < 2 * k ==> #[trigger] floor_points@[i]@ == floor_pt(
                        self@,
                        sorted@,
                        i,
                    ),
                forall|i: int|
                    0 <= i < 2 * k ==> bounded((#[trigger] floor_points@[i])@, 150994944),
            decreases n - k,
        {
            let d = sorted[k];
            let center = self.point.add(&d.towards.scale(LANDING_RADIUS_FIX));
            let door = make_door(&center, &self.up, &d.towards);
            let exit_face = door.to_face();
            exit_faces.push((EnvironmentIdentifier::Tunnel(d.tunnel_id), exit_face));
            floor_points.push(door.bottom_left);
            floor_points.push(door.bottom_right);
            k = k + 1;
        }
        // Ceiling: the floor translated one room height along up.
        let mut ceiling_points: Vec<Vec3> = Vec::new();
        let mut k: usize = 0;
        while k < 2 * n
            invariant
                0 <= k <= 2 * n,
                floor_points@.len() == 2 * n,
                2 <= n,
                n < 0x800_0000,
                bounded(ftc@, 8 * SCALE),
                forall|i: int|
                    0 <= i < 2 * n ==> bounded((#[trigger] floor_points@[i])@, 150994944),
                ceiling_points@.len() == k,
                forall|i: int|
                    0 <= i < k ==> #[trigger] ceiling_points@[i]@ == add_v(
                        floor_points@[i]@,
                        ftc@,
                    ),
                forall|i: int|
                    0 <= i < k ==> bounded((#[trigger] ceiling_points@[i])@, 160000000),
            decreases 2 * n - k,
        {
            ceiling_points.push(floor_points[k].add(&ftc));
            k = k + 1;
        }
        // Keep a copy of the floor outline for the walls; building the
        // floor face consumes the list itself.
        let mut floor_copy: Vec<Vec3> = Vec::new();
        let mut k: usize = 0;
        while k < 2 * n
            invariant
                0 <= k <= 2 * n,
                n < 0x800_0000,
                floor_points@.len() == 2 * n,
                floor_copy@.len() == k,
                forall|i: int| 0 <= i < k ==> #[trigger] floor_copy@[i] == floor_points@[i],
            decreases 2 * n - k,
        {
            floor_copy.push(floor_points[k]);
            k = k + 1;
        }
        proof {
            assert(floor_copy@ =~= floor_points@);
        }
        let ghost floor_pts_view = floor_points@;
        let floor = Face::new(floor_points);
        let ceiling = Face::new(ceiling_points);
        let mut faces: Vec<Face> = Vec::new();
        faces.push(floor);
        faces.push(ceiling);
        // Walls fill the spans between consecutive doors, wrapping around.
        let mut k: usize = 0;
        while k < n
            invariant
                0 <= k <= n,
                2 <= n == sorted@.len(),
                n < 0x800_0000,
                floor_copy@.len() == 2 * n,
                unit_scaled(self@.up),
                ftc@ == floor_to_ceiling(self@),
                bounded(ftc@, 8 * SCALE),
                forall|i: int|
                    0 <= i < 2 * n ==> bounded((#[trigger] floor_copy@[i])@, 150994944),
                forall|i: int|
                    0 <= i < 2 * n ==> #[trigger] floor_copy@[i]@ == floor_pt(
                        self@,
                        sorted@,
                        i,
                    ),
                faces@.len() == k + 2,
                faces@[0].wf(),
                faces@[1].wf(),
                faces@[0]@ == floor@,
                faces@[1]@ == ceiling@,
                crate::face::zero_uvs(floor@),
                crate::face::zero_uvs(ceiling@),
                forall|i: int| 2 <= i < k + 2 ==> (#[trigger] faces@[i]).wf(),
                forall|i: int| 2 <= i < k + 2 ==> crate::face::zero_uvs((#[trigger] faces@[i])@),
                forall|i: int|
                    2 <= i < k + 2 ==> (#[trigger] faces@[i])@.points == wall_points(
                        self@,
                        sorted@,
                        i - 2,
                    ),
            decreases n - k,
        {
            let a = floor_copy[2 * k + 1];
            let bi = if 2 * k + 2 == 2 * n {
                0
            } else {
                2 * k + 2
            };
            let b = floor_copy[bi];
            let mut wall_pts: Vec<Vec3> = Vec::new();
            wall_pts.push(a);
            wall_pts.push(b);
            wall_pts.push(b.add(&ftc));
            wall_pts.push(a.add(&ftc));
            let wall = Face::new(wall_pts);
            proof {
                assert(wall@.points =~= wall_points(self@, sorted@, k as int));
            }
            faces.push(wall);
            k = k + 1;
        }
        // Snapshot of the originating landing.
        let mut tids: Vec<usize> = Vec::new();
        let mut k: usize = 0;
        while k < n
            invariant
                0 <= k <= n,
                n == self@.tunnel_ids.len(),
                self.tunnel_ids@.len() == n,
                tids@.len() == k,
                forall|i: int| 0 <= i < k ==> #[trigger] tids@[i] == self.tunnel_ids@[i],
            decreases n - k,
        {
            tids.push(self.tunnel_ids[k]);
            k = k + 1;
        }
        let snapshot = Landing { id: self.id, up: self.up, point: self.point, tunnel_ids: tids };
        proof {
            assert(snapshot@.tunnel_ids =~= self@.tunnel_ids);
            assert forall|k: int| 0 <= k < sorted@.len() implies exists|j: int|
                0 <= j < self@.tunnel_ids.len() && (#[trigger] sorted@[k]).tunnel_id as int
                    == self@.tunnel_ids[j] by {
                assert(bearings_of(skel@, self@).contains(sorted@[k]));
                let j = choose|j: int|
                    0 <= j < bearings_of(skel@, self@).len() && bearings_of(skel@, self@)[j]
                        == sorted@[k];
                assert(bearings_of(skel@, self@)[j] == bearing_of_spec(skel@, self@, j));
                assert(sorted@[k].tunnel_id as int == self@.tunnel_ids[j]);
            };
        }
        Ok(LandingEnvironment { faces, exit_faces, doors: sorted, landing: snapshot })
    }
}

impl DeadEnd {
    /// Realize the dead end: a single door at its point, facing away from
    /// its tunnel.  A dead end that never received its tunnel is a modeling
    /// error and is reported, changing nothing.
    pub fn to_environment(&self, skel: &MazeSkeleton) -> (r: Result<
        DeadEndEnvironment,
        MazeError,
    >)
        requires
            skel_wf(skel@),
            (self.id as int) < skel@.dead_ends.len(),
            skel@.dead_ends[self.id as int] == self@,
        ensures
            self@.tunnel_id is None <==> r == Result::<DeadEndEnvironment, MazeError>::Err(
                MazeError::SingleTunnelRequired,
            ),
            r matches Err(e) ==> e == MazeError::SingleTunnelRequired,
            r matches Ok(env) ==> self@.tunnel_id matches Some(tid) && {
                &&& env.wf()
                &&& dead_end_env_matches(skel@, self@, env)
                &&& env.spec_dead_end() == self@
                &&& env.spec_exit_faces()[0].0 == EnvironmentIdentifier::Tunnel(tid as usize)
                &&& env.spec_faces()[0]@.points == door_points(
                    self@.point,
                    self@.up,
                    dead_end_door_direction(skel@, self@, tid),
                )
                &&& env.spec_exit_faces()[0].1@.points == env.spec_faces()[0]@.points
                &&& crate::face::zero_uvs(env.spec_faces()[0]@)
                &&& crate::face::zero_uvs(env.spec_exit_faces()[0].1@)
            },
    {
        let tunnel_id = match self.tunnel_id {
            None => {
                return Err(MazeError::SingleTunnelRequired);
            },
            Some(t) => t};
        let tunnel = skel.tunnels[tunnel_id];
        let is_start = match tunnel.start_connector {
            ConnectorIdentifier::DeadEnd(i) => i == self.id,
            _ => false};
        proof {
            assert(connector_valid(skel@, tunnel.start_connector));
            assert(connector_valid(skel@, tunnel.end_connector));
        }
        let away = if is_start {
            skel.connector_point(tunnel.end_connector).sub(
                &skel.connector_point(tunnel.start_connector),
            )
        } else {
            skel.connector_point(tunnel.start_connector).sub(
                &skel.connector_point(tunnel.end_connector),
            )
        };
        let direction = away.normalize();
        let door = make_door(&self.point, &self.up, &direction);
        let face = door.to_face();
        let exit_face = door.to_face();
        let mut faces: Vec<Face> = Vec::new();
        faces.push(face);
        let mut exit_faces: Vec<(EnvironmentIdentifier, Face)> = Vec::new();
        exit_faces.push((EnvironmentIdentifier::Tunnel(tunnel_id), exit_face));
        let snapshot = DeadEnd {
            id: self.id,
            up: self.up,
            point: self.point,
            tunnel_id: Some(tunnel_id),
        };
        Ok(DeadEndEnvironment { faces, exit_faces, dead_end: snapshot })
    }
}

/// The fixed-point texture scale: 0.2 texture units per world unit.
pub const UV_SCALE_FIX: i64 = 13107;

/// Texture `v` at a frame's bottom-right corner: `TUNNEL_HEIGHT * 0.2`.
pub const UV_V1: i64 = 52429;

/// Texture `v` at a frame's bottom-left corner:
/// `(TUNNEL_WIDTH + TUNNEL_HEIGHT) * 0.2`.
pub const UV_V2: i64 = 91750;

/// Texture `v` at a frame's top-left corner:
/// `(TUNNEL_WIDTH + 2 * TUNNEL_HEIGHT) * 0.2`.
pub const UV_V3: i64 = 144179;

/// Texture `v` where the perimeter wraps back to top-right:
/// `(2 * TUNNEL_WIDTH + 2 * TUNNEL_HEIGHT) * 0.2`.
pub const UV_V4: i64 = 183501;

/// Whether `u` is perpendicular to `v` up to the model's resolution: the
/// squared cosine of the angle between them is below `1/1024`, compared
/// through cross-multiplied squares, exactly.
pub open spec fn perp_ok(u: V3, v: V3) -> bool {
    1024 * (dot_v(u, v) * dot_v(u, v)) < nsq_v(u) * nsq_v(v)
}

/// Decide perpendicularity of a coupler's up against the tunnel vector.
pub fn perp_ok_exec(u: &Vec3, v: &Vec3) -> (r: bool)
    requires
        unit_scaled(u@),
        bounded(v@, 0x2000_0000),
    ensures
        r == perp_ok(u@, v@),
{
    proof {
        lemma_dot_bound(u@, v@, SCALE as int, 0x2000_0000);
        lemma_mul_bound(dot_v(u@, v@), dot_v(u@, v@), 0x3_0000_0000_0000, 0x3_0000_0000_0000);
        lemma_dot_bound(u@, u@, SCALE as int, SCALE as int);
        lemma_dot_bound(v@, v@, 0x2000_0000, 0x2000_0000);
        lemma_mul_bound(nsq_v(u@), nsq_v(v@), 0x3_0000_0000, 0x3_0000_0000_0000_0000);
    }
    let d: i128 = u.dot(v);
    let nu: i128 = u.nsq();
    let nv: i128 = v.nsq();
    1024 * (d * d) < nu * nv
}

/// Both coupler ups of a tunnel are perpendicular to the line between its
/// connectors.
pub open spec fn tunnel_perp_ok(s: SkelV, t: Tunnel) -> bool {
    let tv = sub_v(
        connector_point_spec(s, t.end_connector),
        connector_point_spec(s, t.start_connector),
    );
    perp_ok(connector_up_spec(s, t.start_connector), tv) && perp_ok(
        connector_up_spec(s, t.end_connector),
        tv,
    )
}

/// The mathematical shadow of one cross-section frame of a tunnel.
pub struct FrameV {
    pub top_right: V3,
    pub bottom_right: V3,
    pub bottom_left: V3,
    pub top_left: V3,
    pub uv_x: int}

/// The cross-section frame at subdivision `i` of a tunnel with couplers
/// `(sc, su)` and `(ec, eu)` and direction `dir`: its up is the spherical
/// interpolation of the end ups, its center the matching fraction along
/// the coupler-to-coupler segment.
pub open spec fn frame_spec(sc: V3, su: V3, ec: V3, eu: V3, dir: V3, i: int) -> FrameV {
    let p = tdiv(i * SCALE, TUNNEL_SUBDIVISIONS as int);
    let up = slerp_spec(su, eu, p);
    let right = neg_v(descale3(cross_v(up, dir)));
    let inner = sub_v(ec, sc);
    let center = add_v(sc, scale_v(p, inner));
    let c = corners_spec(center, up, right);
    let uvx = fxmul(p, fxmul(UV_SCALE_FIX as int, isqrt_spec(nsq_v(inner) as nat) as int));
    FrameV {
        top_right: c.top_right,
        bottom_right: c.bottom_right,
        bottom_left: c.bottom_left,
        top_left: c.top_left,
        uv_x: uvx}
}

/// The vertex list of wall triangle `m` (of eight) between consecutive
/// frames: two triangles per wall, walking the perimeter right, bottom,
/// left, top.
pub open spec fn tunnel_wall_points(f0: FrameV, f1: FrameV, m: int) -> Seq<V3> {
    if m == 0 {
        seq![f0.top_right, f1.top_right, f1.bottom_right]
    } else if m == 1 {
        seq![f1.bottom_right, f0.bottom_right, f0.top_right]
    } else if m == 2 {
        seq![f0.bottom_right, f1.bottom_right, f1.bottom_left]
    } else if m == 3 {
        seq![f1.bottom_left, f0.bottom_left, f0.bottom_right]
    } else if m == 4 {
        seq![f0.bottom_left, f1.bottom_left, f1.top_left]
    } else if m == 5 {
        seq![f1.top_left, f0.top_left, f0.bottom_left]
    } else if m == 6 {
        seq![f0.top_left, f1.top_left, f1.top_right]
    } else {
        seq![f1.top_right, f0.top_right, f0.top_left]
    }
}

/// The texture coordinates of wall triangle `m`, wrapping the perimeter's
/// `v` through the seam at the repeated top-right corner.
pub open spec fn tunnel_wall_uvs(f0: FrameV, f1: FrameV, m: int) -> Seq<UV2> {
    if m == 0 {
        seq![
            UV2 { u: f0.uv_x, v: 0 },
            UV2 { u: f1.uv_x, v: 0 },
            UV2 { u: f1.uv_x, v: UV_V1 as int },
        ]
    } else if m == 1 {
        seq![
            UV2 { u: f1.uv_x, v: UV_V1 as int },
            UV2 { u: f0.uv_x, v: UV_V1 as int },
            UV2 { u: f0.uv_x, v: 0 },
        ]
    } else if m == 2 {
        seq![
            UV2 { u: f0.uv_x, v: UV_V1 as int },
            UV2 { u: f1.uv_x, v: UV_V1 as int },
            UV2 { u: f1.uv_x, v: UV_V2 as int },
        ]
    } else if m == 3 {
        seq![
            UV2 { u: f1.uv_x, v: UV_V2 as int },
            UV2 { u: f0.uv_x, v: UV_V2 as int },
            UV2 { u: f0.uv_x, v: UV_V1 as int },
        ]
    } else if m == 4 {
        seq![
            UV2 { u: f0.uv_x, v: UV_V2 as int },
            UV2 { u: f1.uv_x, v: UV_V2 as int },
            UV2 { u: f1.uv_x, v: UV_V3 as int },
        ]
    } else if m == 5 {
        seq![
            UV2 { u: f1.uv_x, v: UV_V3 as int },
            UV2 { u: f0.uv_x, v: UV_V3 as int },
            UV2 { u: f0.uv_x, v: UV_V2 as int },
        ]
    } else if m == 6 {
        seq![
            UV2 { u: f0.uv_x, v: UV_V3 as int },
            UV2 { u: f1.uv_x, v: UV_V3 as int },
            UV2 { u: f1.uv_x, v: UV_V4 as int },
        ]
    } else {
        seq![
            UV2 { u: f1.uv_x, v: UV_V4 as int },
            UV2 { u: f0.uv_x, v: UV_V4 as int },
            UV2 { u: f0.uv_x, v: UV_V3 as int },
        ]
    }
}

/// Every face of a tunnel extrusion so far is the documented wall triangle
/// between its two frames.
pub open spec fn tunnel_walls_match(
    faces: Seq<Face>,
    scp: V3,
    su: V3,
    ecp: V3,
    eu: V3,
    dir: V3,
) -> bool {
    forall|j: int|
        0 <= j < faces.len() ==> {
            let f0 = frame_spec(scp, su, ecp, eu, dir, j / 8);
            let f1 = frame_spec(scp, su, ecp, eu, dir, j / 8 + 1);
            (#[trigger] faces[j])@.points == tunnel_wall_points(f0, f1, j % 8) && faces[j]@.uvs
                == tunnel_wall_uvs(f0, f1, j % 8)
        }
}

/// One executable cross-section frame.
#[derive(Clone, Copy, Debug)]
struct Frame {
    tr: Vec3,
    br: Vec3,
    bl: Vec3,
    tl: Vec3,
    uvx: i64}

/// The local up inside a tunnel at a camera position: the spherical
/// interpolation of the coupler ups at the position's fractional
/// projection onto the coupler segment.  The fraction is not clamped to
/// `[0, SCALE]` — positions beyond the couplers extrapolate — up to the
/// arithmetic cap of `SLERP_T_LIMIT` (256 tunnel lengths past an end).
pub open spec fn tunnel_up_spec(scp: V3, su: V3, ecp: V3, eu: V3, pos: V3) -> V3 {
    let tl = sub_v(ecp, scp);
    let n = nsq_v(tl);
    if n == 0 {
        su
    } else {
        let t0 = tdiv(dot_v(sub_v(pos, scp), tl) * SCALE, n);
        let t = if t0 > SLERP_T_LIMIT {
            SLERP_T_LIMIT as int
        } else if t0 < -SLERP_T_LIMIT {
            -SLERP_T_LIMIT as int
        } else {
            t0
        };
        slerp_spec(su, eu, t)
    }
}

/// The complete tie between a tunnel's environment and its skeleton edge:
/// couplers from the connectors, eight documented wall triangles per
/// subdivision, and the two end caps as exits.
pub open spec fn tunnel_env_matches(s: SkelV, t: Tunnel, env: TunnelEnvironment) -> bool {
    let dir = normalize_spec(
        sub_v(
            connector_point_spec(s, t.end_connector),
            connector_point_spec(s, t.start_connector),
        ),
    );
    let scp = connector_coupler_point_spec(s, t.start_connector, connector_point_spec(
        s,
        t.end_connector,
    ));
    let su = connector_up_spec(s, t.start_connector);
    let ecp = connector_coupler_point_spec(s, t.end_connector, connector_point_spec(
        s,
        t.start_connector,
    ));
    let eu = connector_up_spec(s, t.end_connector);
    let f0 = frame_spec(scp, su, ecp, eu, dir, 0);
    let fl = frame_spec(scp, su, ecp, eu, dir, TUNNEL_SUBDIVISIONS as int);
    &&& env.spec_tunnel() == t
    &&& env.spec_start_coupler() == (scp, su)
    &&& env.spec_end_coupler() == (ecp, eu)
    &&& env.spec_faces().len() == 8 * TUNNEL_SUBDIVISIONS
    &&& tunnel_walls_match(env.spec_faces(), scp, su, ecp, eu, dir)
    &&& env.spec_exit_faces().len() == 2
    &&& env.spec_exit_faces()[0].0 == t.start_connector.environment_identifier_spec()
    &&& env.spec_exit_faces()[1].0 == t.end_connector.environment_identifier_spec()
    &&& env.spec_exit_faces()[0].1@.points == seq![
        f0.top_right,
        f0.bottom_right,
        f0.bottom_left,
        f0.top_left,
    ]
    &&& env.spec_exit_faces()[1].1@.points == seq![
        fl.top_right,
        fl.bottom_right,
        fl.bottom_left,
        fl.top_left,
    ]
    &&& crate::face::zero_uvs(env.spec_exit_faces()[0].1@)
    &&& crate::face::zero_uvs(env.spec_exit_faces()[1].1@)
}

/// The realized geometry of a tunnel: a twisted extrusion of its
/// rectangular cross-section, with an exit cap at each end.
pub struct TunnelEnvironment {
    faces: Vec<Face>,
    tunnel: Tunnel,
    exit_faces: Vec<(EnvironmentIdentifier, Face)>,
    start_coupler: Coupler,
    end_coupler: Coupler}

impl TunnelEnvironment {
    pub closed spec fn spec_faces(self) -> Seq<Face> {
        self.faces@
    }

    pub closed spec fn spec_exit_faces(self) -> Seq<(EnvironmentIdentifier, Face)> {
        self.exit_faces@
    }

    pub closed spec fn spec_tunnel(self) -> Tunnel {
        self.tunnel
    }

    pub closed spec fn spec_start_coupler(self) -> (V3, V3) {
        (self.start_coupler.point@, self.start_coupler.up@)
    }

    pub closed spec fn spec_end_coupler(self) -> (V3, V3) {
        (self.end_coupler.point@, self.end_coupler.up@)
    }

    pub closed spec fn wf(self) -> bool {
        &&& self.faces@.len() == 8 * TUNNEL_SUBDIVISIONS
        &&& self.exit_faces@.len() == 2
        &&& forall|i: int| 0 <= i < self.faces@.len() ==> (#[trigger] self.faces@[i]).wf()
        &&& forall|i: int|
            0 <= i < self.exit_faces@.len() ==> (#[trigger] self.exit_faces@[i]).1.wf()
        &&& unit_scaled(self.start_coupler.up@)
        &&& unit_scaled(self.end_coupler.up@)
        &&& bounded(self.start_coupler.point@, GEN_LIMIT + 8 * SCALE)
        &&& bounded(self.end_coupler.point@, GEN_LIMIT + 8 * SCALE)
    }

    /// What well-formedness guarantees every consumer.
    pub proof fn lemma_wf_props(self)
        requires
            self.wf(),
        ensures
            self.spec_faces().len() == 8 * TUNNEL_SUBDIVISIONS,
            self.spec_exit_faces().len() == 2,
            forall|i: int|
                0 <= i < self.spec_faces().len() ==> (#[trigger] self.spec_faces()[i]).wf(),
            forall|i: int|
                0 <= i < self.spec_exit_faces().len() ==> (#[trigger] self.spec_exit_faces()[
                    i
                ]).1.wf(),
    {
    }

    /// The renderable faces: eight triangles per subdivision segment.
    pub fn faces(&self) -> (r: &Vec<Face>)
        ensures
            r@ == self.spec_faces(),
    {
        &self.faces
    }

    /// The two end caps, tagged with the environments beyond them.
    pub fn exit_faces(&self) -> (r: &Vec<(EnvironmentIdentifier, Face)>)
        ensures
            r@ == self.spec_exit_faces(),
    {
        &self.exit_faces
    }

    /// The attachment point and orientation at the tunnel's start.
    pub fn start_coupler(&self) -> (r: &Coupler)
        ensures
            (r.point@, r.up@) == self.spec_start_coupler(),
    {
        &self.start_coupler
    }

    /// The attachment point and orientation at the tunnel's end.
    pub fn end_coupler(&self) -> (r: &Coupler)
        ensures
            (r.point@, r.up@) == self.spec_end_coupler(),
    {
        &self.end_coupler
    }

    /// The originating edge.
    pub fn tunnel(&self) -> (r: &Tunnel)
        ensures
            *r == self.spec_tunnel(),
    {
        &self.tunnel
    }

    /// The local vertical at a position inside (or near) the tunnel.
    pub fn up(&self, camera_position: &Vec3) -> (r: Vec3)
        requires
            self.wf(),
            bounded(camera_position@, COORD_LIMIT as int),
        ensures
            r@ == tunnel_up_spec(
                self.spec_start_coupler().0,
                self.spec_start_coupler().1,
                self.spec_end_coupler().0,
                self.spec_end_coupler().1,
                camera_position@,
            ),
            unit_scaled(r@),
    {
        let tl = self.end_coupler.point.sub(&self.start_coupler.point);
        let n = tl.nsq();
        if n == 0 {
            self.start_coupler.up
        } else {
            let to_pos = camera_position.sub(&self.start_coupler.point);
            let d = to_pos.dot(&tl);
            proof {
                assert(bounded(to_pos@, 0x4000_0000));
                assert(bounded(tl@, 0x4000_0000));
                lemma_dot_bound(to_pos@, tl@, 0x4000_0000, 0x4000_0000);
                assert(iabs(d as int) <= 0x3000_0000_0000_0000);
                lemma_mul_bound(d as int, SCALE as int, 0x3000_0000_0000_0000, 0x1_0000);
            }
            let t0w = crate::fixed::div_t_wide(d * (SCALE as i128), n);
            let t: i64 = if t0w > SLERP_T_LIMIT as i128 {
                SLERP_T_LIMIT
            } else if t0w < -(SLERP_T_LIMIT as i128) {
                -SLERP_T_LIMIT
            } else {
                t0w as i64
            };
            crate::trig::slerp(&self.start_coupler.up, &self.end_coupler.up, t)
        }
    }
}

impl Tunnel {
    /// Realize the tunnel: check both couplers' ups are perpendicular to
    /// the tunnel line (a modeling invariant; its failure is reported),
    /// then extrude `TUNNEL_SUBDIVISIONS` twisted frames and stitch them
    /// into eight triangles per segment, with the two end caps as exit
    /// faces.
    #[verifier::rlimit(100)]
    pub fn to_environment(&self, skel: &MazeSkeleton) -> (r: Result<TunnelEnvironment, MazeError>)
        requires
            skel_wf(skel@),
            connector_valid(skel@, self.start_connector),
            connector_valid(skel@, self.end_connector),
        ensures
            r is Err <==> !tunnel_perp_ok(skel@, *self),
            r matches Err(e) ==> e == MazeError::CouplerNotPerpendicular,
            r matches Ok(env) ==> {
                &&& env.wf()
                &&& tunnel_env_matches(skel@, *self, env)
                &&& env.spec_tunnel() == *self
                &&& env.spec_start_coupler() == (
                    connector_coupler_point_spec(
                        skel@,
                        self.start_connector,
                        connector_point_spec(skel@, self.end_connector),
                    ),
                    connector_up_spec(skel@, self.start_connector),
                )
                &&& env.spec_end_coupler() == (
                    connector_coupler_point_spec(
                        skel@,
                        self.end_connector,
                        connector_point_spec(skel@, self.start_connector),
                    ),
                    connector_up_spec(skel@, self.end_connector),
                )
                &&& tunnel_walls_match(
                    env.spec_faces(),
                    env.spec_start_coupler().0,
                    env.spec_start_coupler().1,
                    env.spec_end_coupler().0,
                    env.spec_end_coupler().1,
                    normalize_spec(
                        sub_v(
                            connector_point_spec(skel@, self.end_connector),
                            connector_point_spec(skel@, self.start_connector),
                        ),
                    ),
                )
                &&& env.spec_exit_faces()[0].0
                    == self.start_connector.environment_identifier_spec()
                &&& env.spec_exit_faces()[1].0 == self.end_connector.environment_identifier_spec()
                &&& {
                    let f0 = frame_spec(
                        env.spec_start_coupler().0,
                        env.spec_start_coupler().1,
                        env.spec_end_coupler().0,
                        env.spec_end_coupler().1,
                        normalize_spec(
                            sub_v(
                                connector_point_spec(skel@, self.end_connector),
                                connector_point_spec(skel@, self.start_connector),
                            ),
                        ),
                        0,
                    );
                    env.spec_exit_faces()[0].1@.points == seq![
                        f0.top_right,
                        f0.bottom_right,
                        f0.bottom_left,
                        f0.top_left,
                    ]
                }
                &&& {
                    let fl = frame_spec(
                        env.spec_start_coupler().0,
                        env.spec_start_coupler().1,
                        env.spec_end_coupler().0,
                        env.spec_end_coupler().1,
                        normalize_spec(
                            sub_v(
                                connector_point_spec(skel@, self.end_connector),
                                connector_point_spec(skel@, self.start_connector),
                            ),
                        ),
                        TUNNEL_SUBDIVISIONS as int,
                    );
                    env.spec_exit_faces()[1].1@.points == seq![
                        fl.top_right,
                        fl.bottom_right,
                        fl.bottom_left,
                        fl.top_left,
                    ]
                }
                &&& crate::face::zero_uvs(env.spec_exit_faces()[0].1@)
                &&& crate::face::zero_uvs(env.spec_exit_faces()[1].1@)
            },
    {
        let start_point = skel.connector_point(self.start_connector);
        let end_point = skel.connector_point(self.end_connector);
        let tunnel_vec = end_point.sub(&start_point);
        let start_coupler = skel.connector_coupler(self.start_connector, &end_point);
        let end_coupler = skel.connector_coupler(self.end_connector, &start_point);
        if !perp_ok_exec(&start_coupler.up, &tunnel_vec) || !perp_ok_exec(
            &end_coupler.up,
            &tunnel_vec,
        ) {
            return Err(MazeError::CouplerNotPerpendicular);
        }
        let inner = end_coupler.point.sub(&start_coupler.point);
        let tunnel_dir = tunnel_vec.normalize();
        let inner_len = inner.magnitude();
        proof {
            lemma_mul_bound(UV_SCALE_FIX as int, inner_len as int, 16384, 0x1_0000_0000);
            lemma_tdiv_bound(UV_SCALE_FIX * inner_len, SCALE as int, 0x4000_0000);
        }
        let uv_len = crate::fixed::mul_fx(UV_SCALE_FIX, inner_len);
        let ghost scp = start_coupler.point@;
        let ghost su = start_coupler.up@;
        let ghost ecp = end_coupler.point@;
        let ghost eu = end_coupler.up@;
        let ghost dirv = tunnel_dir@;
        let mut frames: Vec<Frame> = Vec::new();
        let mut i: usize = 0;
        while i <= TUNNEL_SUBDIVISIONS
            invariant
                0 <= i <= TUNNEL_SUBDIVISIONS + 1,
                frames@.len() == i,
                unit_scaled(su),
                unit_scaled(eu),
                unit_scaled(dirv),
                bounded(scp, GEN_LIMIT + 8 * SCALE),
                bounded(ecp, GEN_LIMIT + 8 * SCALE),
                start_coupler.point@ == scp,
                start_coupler.up@ == su,
                end_coupler.point@ == ecp,
                end_coupler.up@ == eu,
                tunnel_dir@ == dirv,
                inner@ == sub_v(ecp, scp),
                uv_len == fxmul(UV_SCALE_FIX as int, isqrt_spec(nsq_v(sub_v(ecp, scp)) as nat)
                    as int),
                iabs(uv_len as int) <= 0x4000_0000,
                forall|j: int|
                    0 <= j < i ==> {
                        let f = frame_spec(scp, su, ecp, eu, dirv, j);
                        &&& (#[trigger] frames@[j]).tr@ == f.top_right
                        &&& frames@[j].br@ == f.bottom_right
                        &&& frames@[j].bl@ == f.bottom_left
                        &&& frames@[j].tl@ == f.top_left
                        &&& frames@[j].uvx as int == f.uv_x
                        &&& bounded(frames@[j].tr@, 150994944)
                        &&& bounded(frames@[j].br@, 150994944)
                        &&& bounded(frames@[j].bl@, 150994944)
                        &&& bounded(frames@[j].tl@, 150994944)
                    },
            decreases TUNNEL_SUBDIVISIONS + 1 - i,
        {
            proof {
                lemma_tdiv_bound((i as int) * SCALE, TUNNEL_SUBDIVISIONS as int, SCALE as int);
            }
            let p = div_t((i as i64) * SCALE, TUNNEL_SUBDIVISIONS as i64);
            let up = crate::trig::slerp(&start_coupler.up, &end_coupler.up, p);
            let cr = up.cross(&tunnel_dir);
            proof {
                lemma_cross_bound(up@, dirv, SCALE as int, SCALE as int);
                lemma_tdiv_bound(cross_v(up@, dirv).x, SCALE as int, 2 * SCALE);
                lemma_tdiv_bound(cross_v(up@, dirv).y, SCALE as int, 2 * SCALE);
                lemma_tdiv_bound(cross_v(up@, dirv).z, SCALE as int, 2 * SCALE);
            }
            let right = Vec3 {
                x: -div_t(cr.x, SCALE),
                y: -div_t(cr.y, SCALE),
                z: -div_t(cr.z, SCALE),
            };
            let center = start_coupler.point.add(&inner.scale_frac(p));
            let rect = crate::realize::corner_rect(&center, &up, &right);
            let uvx = crate::fixed::mul_fx(p, uv_len);
            frames.push(
                Frame {
                    tr: rect.top_right,
                    br: rect.bottom_right,
                    bl: rect.bottom_left,
                    tl: rect.top_left,
                    uvx},
            );
            i = i + 1;
        }
        // Eight triangles per segment: two per wall, walking the perimeter
        // right, bottom, left, top; the top pair closes the texture seam at
        // the repeated top-right corner.
        let mut faces: Vec<Face> = Vec::new();
        let mut k: usize = 0;
        while k < TUNNEL_SUBDIVISIONS
            invariant
                0 <= k <= TUNNEL_SUBDIVISIONS,
                frames@.len() == TUNNEL_SUBDIVISIONS + 1,
                forall|j: int|
                    0 <= j < frames@.len() ==> {
                        let f = frame_spec(scp, su, ecp, eu, dirv, j);
                        &&& (#[trigger] frames@[j]).tr@ == f.top_right
                        &&& frames@[j].br@ == f.bottom_right
                        &&& frames@[j].bl@ == f.bottom_left
                        &&& frames@[j].tl@ == f.top_left
                        &&& frames@[j].uvx as int == f.uv_x
                        &&& bounded(frames@[j].tr@, 150994944)
                        &&& bounded(frames@[j].br@, 150994944)
                        &&& bounded(frames@[j].bl@, 150994944)
                        &&& bounded(frames@[j].tl@, 150994944)
                    },
                faces@.len() == 8 * k,
                forall|j: int| 0 <= j < faces@.len() ==> (#[trigger] faces@[j]).wf(),
                tunnel_walls_match(faces@, scp, su, ecp, eu, dirv),
            decreases TUNNEL_SUBDIVISIONS - k,
        {
            let f0 = frames[k];
            let f1 = frames[k + 1];
            push_wall_triangle(&mut faces, f0.tr, f0.uvx, 0, f1.tr, f1.uvx, 0, f1.br, f1.uvx,
                UV_V1);
            push_wall_triangle(&mut faces, f1.br, f1.uvx, UV_V1, f0.br, f0.uvx, UV_V1, f0.tr,
                f0.uvx, 0);
            push_wall_triangle(&mut faces, f0.br, f0.uvx, UV_V1, f1.br, f1.uvx, UV_V1, f1.bl,
                f1.uvx, UV_V2);
            push_wall_triangle(&mut faces, f1.bl, f1.uvx, UV_V2, f0.bl, f0.uvx, UV_V2, f0.br,
                f0.uvx, UV_V1);
            push_wall_triangle(&mut faces, f0.bl, f0.uvx, UV_V2, f1.bl, f1.uvx, UV_V2, f1.tl,
                f1.uvx, UV_V3);
            push_wall_triangle(&mut faces, f1.tl, f1.uvx, UV_V3, f0.tl, f0.uvx, UV_V3, f0.bl,
                f0.uvx, UV_V2);
            push_wall_triangle(&mut faces, f0.tl, f0.uvx, UV_V3, f1.tl, f1.uvx, UV_V3, f1.tr,
                f1.uvx, UV_V4);
            push_wall_triangle(&mut faces, f1.tr, f1.uvx, UV_V4, f0.tr, f0.uvx, UV_V4, f0.tl,
                f0.uvx, UV_V3);
            proof {
                assert forall|j: int| 0 <= j < faces@.len() implies {
                    let g0 = frame_spec(scp, su, ecp, eu, dirv, j / 8);
                    let g1 = frame_spec(scp, su, ecp, eu, dirv, j / 8 + 1);
                    (#[trigger] faces@[j])@.points == tunnel_wall_points(g0, g1, j % 8)
                        && faces@[j]@.uvs == tunnel_wall_uvs(g0, g1, j % 8)
                } by {
                    if j >= 8 * k {
                        assert(j / 8 == k as int);
                        let g0 = frame_spec(scp, su, ecp, eu, dirv, k as int);
                        let g1 = frame_spec(scp, su, ecp, eu, dirv, k as int + 1);
                        assert(faces@[j]@.points =~= tunnel_wall_points(g0, g1, j % 8));
                        assert(faces@[j]@.uvs =~= tunnel_wall_uvs(g0, g1, j % 8));
                    }
                };
            }
            k = k + 1;
        }
        let first = frames[0];
        let last = frames[TUNNEL_SUBDIVISIONS];
        let start_face = cap_face(&first);
        let end_face = cap_face(&last);
        let mut exit_faces: Vec<(EnvironmentIdentifier, Face)> = Vec::new();
        exit_faces.push((self.start_connector.environment_identifier(), start_face));
        exit_faces.push((self.end_connector.environment_identifier(), end_face));
        Ok(
            TunnelEnvironment {
                faces,
                tunnel: Tunnel {
                    start_connector: self.start_connector,
                    end_connector: self.end_connector},
                exit_faces,
                start_coupler,
                end_coupler},
        )
    }
}

/// Push one textured wall triangle.
fn push_wall_triangle(
    faces: &mut Vec<Face>,
    a: Vec3,
    au: i64,
    av: i64,
    b: Vec3,
    bu: i64,
    bv: i64,
    c: Vec3,
    cu: i64,
    cv: i64,
)
    requires
        bounded(a@, 150994944),
        bounded(b@, 150994944),
        bounded(c@, 150994944),
        forall|j: int| 0 <= j < old(faces)@.len() ==> (#[trigger] old(faces)@[j]).wf(),
    ensures
        final(faces)@.len() == old(faces)@.len() + 1,
        forall|j: int| 0 <= j < old(faces)@.len() ==> final(faces)@[j] == old(faces)@[j],
        forall|j: int| 0 <= j < final(faces)@.len() ==> (#[trigger] final(faces)@[j]).wf(),
        final(faces)@.last()@.points == seq![a@, b@, c@],
        final(faces)@.last()@.uvs == seq![
            UV2 { u: au as int, v: av as int },
            UV2 { u: bu as int, v: bv as int },
            UV2 { u: cu as int, v: cv as int },
        ],
{
    let mut pairs: Vec<crate::face::UVPair> = Vec::new();
    pairs.push(crate::face::UVPair { point: a, uv: crate::face::UVec2 { u: au, v: av } });
    pairs.push(crate::face::UVPair { point: b, uv: crate::face::UVec2 { u: bu, v: bv } });
    pairs.push(crate::face::UVPair { point: c, uv: crate::face::UVec2 { u: cu, v: cv } });
    let f = Face::from_uv_pairs(pairs);
    proof {
        assert(f@.points =~= seq![a@, b@, c@]);
        assert(f@.uvs =~= seq![
            UV2 { u: au as int, v: av as int },
            UV2 { u: bu as int, v: bv as int },
            UV2 { u: cu as int, v: cv as int },
        ]);
    }
    faces.push(f);
}

/// The untextured cap face of a frame: top-right, bottom-right,
/// bottom-left, top-left.
fn cap_face(f: &Frame) -> (r: Face)
    requires
        bounded(f.tr@, 150994944),
        bounded(f.br@, 150994944),
        bounded(f.bl@, 150994944),
        bounded(f.tl@, 150994944),
    ensures
        r.wf(),
        crate::face::zero_uvs(r@),
        r@.points =~= seq![f.tr@, f.br@, f.bl@, f.tl@],
{
    let mut points: Vec<Vec3> = Vec::new();
    points.push(f.tr);
    points.push(f.br);
    points.push(f.bl);
    points.push(f.tl);
    let r = Face::new(points);
    proof {
        assert(r@.points =~= seq![f.tr@, f.br@, f.bl@, f.tl@]);
    }
    r
}

} // verus!
