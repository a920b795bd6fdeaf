//! The finished maze: one realized environment per skeleton node, the
//! retained skeleton they came from, and the queries the host needs —
//! navigation ticks, local up vectors, and flattened triangle buffers.

use vstd::prelude::*;

use crate::environment::{bearings_of, circular_gaps_ok, dead_end_env_matches,
    landing_env_matches, tunnel_env_matches, tunnel_perp_ok, DeadEndEnvironment,
    LandingEnvironment, TunnelEnvironment};
use crate::realize::{sort_doors_spec, sorted_doors};
use crate::face::Face;
use crate::fixed::SCALE;
use crate::generate::{generate_skeleton, skeleton_model};
use crate::nav::{any_exit_crossed, movement_blocked, segment_meets_face, NavOutcome};
use crate::params::{BLOCK_EPS_FIX, MAX_RECURSION_DEPTH};
use crate::skeleton::{connector_valid, skel_wf, EnvironmentIdentifier, MazeError, MazeSkeleton,
    SkelV};
use crate::vec3::{wf_coord, Vec3};

verus! {

/// Every exit face's target names an environment inside the given counts.
pub open spec fn exits_valid(
    exits: Seq<(EnvironmentIdentifier, Face)>,
    n_tunnels: int,
    n_landings: int,
    n_dead_ends: int,
) -> bool {
    forall|e: int|
        0 <= e < exits.len() ==> match (#[trigger] exits[e]).0 {
            EnvironmentIdentifier::Tunnel(i) => (i as int) < n_tunnels,
            EnvironmentIdentifier::Landing(i) => (i as int) < n_landings,
            EnvironmentIdentifier::DeadEnd(i) => (i as int) < n_dead_ends,
        }
}

/// A landing that can be realized: at least two tunnels, and every
/// circularly-adjacent pair of its bearing-sorted mouths farther apart
/// than the minimum door angle.
pub open spec fn landing_realizable(s: SkelV, j: int) -> bool {
    s.landings[j].tunnel_ids.len() >= 2 && circular_gaps_ok(
        sort_doors_spec(bearings_of(s, s.landings[j])),
    )
}

/// The whole skeleton can be realized: every landing is realizable, every
/// tunnel's couplers are perpendicular to it, and every dead end has its
/// tunnel.
pub open spec fn realization_ok(s: SkelV) -> bool {
    &&& forall|j: int| 0 <= j < s.landings.len() ==> #[trigger] landing_realizable(s, j)
    &&& forall|j: int| 0 <= j < s.tunnels.len() ==> tunnel_perp_ok(s, #[trigger] s.tunnels[j])
    &&& forall|j: int| 0 <= j < s.dead_ends.len() ==> (#[trigger] s.dead_ends[j]).tunnel_id is Some
}

/// The realized maze, read-only once generated.
pub struct Maze {
    landings: Vec<LandingEnvironment>,
    tunnels: Vec<TunnelEnvironment>,
    dead_ends: Vec<DeadEndEnvironment>,
    skeleton: MazeSkeleton}

impl Maze {
    pub closed spec fn spec_landings(self) -> Seq<LandingEnvironment> {
        self.landings@
    }

    pub closed spec fn spec_tunnels(self) -> Seq<TunnelEnvironment> {
        self.tunnels@
    }

    pub closed spec fn spec_dead_ends(self) -> Seq<DeadEndEnvironment> {
        self.dead_ends@
    }

    pub closed spec fn spec_skeleton(self) -> SkelV {
        self.skeleton@
    }

    /// Well-formedness: one environment per skeleton node, each realized
    /// from its node, with the angular-gap invariant holding at every
    /// landing and the perpendicularity invariant at every tunnel.
    pub closed spec fn wf(self) -> bool {
        &&& skel_wf(self.skeleton@)
        &&& self.landings@.len() == self.skeleton@.landings.len()
        &&& self.tunnels@.len() == self.skeleton@.tunnels.len()
        &&& self.dead_ends@.len() == self.skeleton@.dead_ends.len()
        &&& forall|k: int|
            0 <= k < self.landings@.len() ==> {
                &&& (#[trigger] self.landings@[k]).wf()
                &&& self.landings@[k].spec_landing() == self.skeleton@.landings[k]
                &&& landing_env_matches(self.skeleton@, self.skeleton@.landings[k],
                    self.landings@[k])
                &&& self.landings@[k].spec_doors() == sort_doors_spec(
                    bearings_of(self.skeleton@, self.skeleton@.landings[k]),
                )
                &&& sorted_doors(self.landings@[k].spec_doors())
                &&& circular_gaps_ok(self.landings@[k].spec_doors())
            }
        &&& forall|k: int|
            0 <= k < self.tunnels@.len() ==> {
                &&& (#[trigger] self.tunnels@[k]).wf()
                &&& self.tunnels@[k].spec_tunnel() == self.skeleton@.tunnels[k]
                &&& tunnel_env_matches(self.skeleton@, self.skeleton@.tunnels[k],
                    self.tunnels@[k])
                &&& tunnel_perp_ok(self.skeleton@, self.skeleton@.tunnels[k])
            }
        &&& forall|k: int|
            0 <= k < self.dead_ends@.len() ==> {
                &&& (#[trigger] self.dead_ends@[k]).wf()
                &&& self.dead_ends@[k].spec_dead_end() == self.skeleton@.dead_ends[k]
                &&& dead_end_env_matches(self.skeleton@, self.skeleton@.dead_ends[k],
                    self.dead_ends@[k])
            }
        &&& forall|k: int|
            0 <= k < self.landings@.len() ==> exits_valid(
                (#[trigger] self.landings@[k]).spec_exit_faces(),
                self.tunnels@.len() as int,
                self.landings@.len() as int,
                self.dead_ends@.len() as int,
            )
        &&& forall|k: int|
            0 <= k < self.tunnels@.len() ==> exits_valid(
                (#[trigger] self.tunnels@[k]).spec_exit_faces(),
                self.tunnels@.len() as int,
                self.landings@.len() as int,
                self.dead_ends@.len() as int,
            )
        &&& forall|k: int|
            0 <= k < self.dead_ends@.len() ==> exits_valid(
                (#[trigger] self.dead_ends@[k]).spec_exit_faces(),
                self.tunnels@.len() as int,
                self.landings@.len() as int,
                self.dead_ends@.len() as int,
            )
    }

    /// An environment identifier that names an environment of this maze.
    pub open spec fn env_valid(self, id: EnvironmentIdentifier) -> bool {
        match id {
            EnvironmentIdentifier::Tunnel(i) => (i as int) < self.spec_tunnels().len(),
            EnvironmentIdentifier::Landing(i) => (i as int) < self.spec_landings().len(),
            EnvironmentIdentifier::DeadEnd(i) => (i as int) < self.spec_dead_ends().len(),
        }
    }

    /// The renderable faces of one environment.
    pub open spec fn env_faces(self, id: EnvironmentIdentifier) -> Seq<Face> {
        match id {
            EnvironmentIdentifier::Tunnel(i) => self.spec_tunnels()[i as int].spec_faces(),
            EnvironmentIdentifier::Landing(i) => self.spec_landings()[i as int].spec_faces(),
            EnvironmentIdentifier::DeadEnd(i) => self.spec_dead_ends()[i as int].spec_faces(),
        }
    }

    /// The exit faces of one environment.
    pub open spec fn env_exits(self, id: EnvironmentIdentifier) -> Seq<
        (EnvironmentIdentifier, Face),
    > {
        match id {
            EnvironmentIdentifier::Tunnel(i) => self.spec_tunnels()[i as int].spec_exit_faces(),
            EnvironmentIdentifier::Landing(i) => self.spec_landings()[i as int].spec_exit_faces(),
            EnvironmentIdentifier::DeadEnd(i) => self.spec_dead_ends()[i as int].spec_exit_faces(),
        }
    }

    /// Generate the maze for a seed: build the skeleton, then realize every
    /// node.  Deterministic: the skeleton is exactly
    /// `skeleton_model(seed)`, and any failure is one of the geometric
    /// modeling invariants reported by the realizers.
    pub fn generate(rng_seed: u32) -> (r: Result<Maze, MazeError>)
        ensures
            (r is Ok) == realization_ok(skeleton_model(rng_seed as u64, MAX_RECURSION_DEPTH
                as nat)),
            r matches Ok(m) ==> {
                &&& m.wf()
                &&& m.spec_skeleton() == skeleton_model(
                    rng_seed as u64,
                    MAX_RECURSION_DEPTH as nat,
                )
                &&& m.spec_landings().len() == m.spec_skeleton().landings.len()
                &&& m.spec_tunnels().len() == m.spec_skeleton().tunnels.len()
                &&& m.spec_dead_ends().len() == m.spec_skeleton().dead_ends.len()
                &&& m.spec_landings().len() >= 1
                &&& m.spec_skeleton().landings[0].point == crate::generate::start_point_v()
                &&& m.spec_skeleton().landings[0].up == crate::generate::start_up_v()
                &&& m.spec_skeleton().landings[0].tunnel_ids.len() == 3
            },
            ({
                let s = skeleton_model(rng_seed as u64, MAX_RECURSION_DEPTH as nat);
                &&& r == Result::<Maze, MazeError>::Err(MazeError::TooFewTunnels) ==> exists|j: int|
                    0 <= j < s.landings.len() && (#[trigger] s.landings[j]).tunnel_ids.len() < 2
                &&& r == Result::<Maze, MazeError>::Err(MazeError::TunnelsTooClose)
                    ==> exists|j: int|
                    0 <= j < s.landings.len() && (#[trigger] s.landings[j]).tunnel_ids.len() >= 2
                        && !circular_gaps_ok(sort_doors_spec(bearings_of(s, s.landings[j])))
                &&& r == Result::<Maze, MazeError>::Err(MazeError::CouplerNotPerpendicular)
                    ==> exists|j: int|
                    0 <= j < s.tunnels.len() && !tunnel_perp_ok(s, #[trigger] s.tunnels[j])
                &&& r == Result::<Maze, MazeError>::Err(MazeError::SingleTunnelRequired)
                    ==> exists|j: int|
                    0 <= j < s.dead_ends.len() && (#[trigger] s.dead_ends[j]).tunnel_id is None
            }),
            r matches Err(e) ==> e == MazeError::TooFewTunnels || e == MazeError::TunnelsTooClose
                || e == MazeError::SingleTunnelRequired || e == MazeError::CouplerNotPerpendicular,
    {
        let skel = generate_skeleton(rng_seed);
        let landings = match realize_landings(&skel) {
            Ok(v) => v,
            Err(e) => {
                return Err(e);
            },
        };
        let tunnels = match realize_tunnels(&skel) {
            Ok(v) => v,
            Err(e) => {
                return Err(e);
            },
        };
        let dead_ends = match realize_dead_ends(&skel) {
            Ok(v) => v,
            Err(e) => {
                return Err(e);
            },
        };
        let maze = Maze { landings, tunnels, dead_ends, skeleton: skel };
        proof {
            let nt = maze.tunnels@.len() as int;
            let nl = maze.landings@.len() as int;
            let nd = maze.dead_ends@.len() as int;
            assert forall|k: int| 0 <= k < maze.landings@.len() implies exits_valid(
                (#[trigger] maze.landings@[k]).spec_exit_faces(),
                nt,
                nl,
                nd,
            ) by {
                assert(exits_valid(
                    maze.landings@[k].spec_exit_faces(),
                    maze.skeleton@.tunnels.len() as int,
                    maze.skeleton@.landings.len() as int,
                    maze.skeleton@.dead_ends.len() as int,
                ));
            };
            assert forall|k: int| 0 <= k < maze.tunnels@.len() implies exits_valid(
                (#[trigger] maze.tunnels@[k]).spec_exit_faces(),
                nt,
                nl,
                nd,
            ) by {
                assert(exits_valid(
                    maze.tunnels@[k].spec_exit_faces(),
                    maze.skeleton@.tunnels.len() as int,
                    maze.skeleton@.landings.len() as int,
                    maze.skeleton@.dead_ends.len() as int,
                ));
            };
            assert forall|k: int| 0 <= k < maze.dead_ends@.len() implies exits_valid(
                (#[trigger] maze.dead_ends@[k]).spec_exit_faces(),
                nt,
                nl,
                nd,
            ) by {
                assert(exits_valid(
                    maze.dead_ends@[k].spec_exit_faces(),
                    maze.skeleton@.tunnels.len() as int,
                    maze.skeleton@.landings.len() as int,
                    maze.skeleton@.dead_ends.len() as int,
                ));
            };
        }
        Ok(maze)
    }

    /// What well-formedness guarantees every consumer of a maze: arena
    /// sizes agree, every environment was realized from its node (whose id
    /// is its index), landings keep the angular-gap invariant over the
    /// bearing-sorted mouths of their actual tunnels, tunnels keep the
    /// coupler-perpendicularity invariant, and every exit face targets an
    /// environment of this maze.
    pub proof fn lemma_wf_props(self)
        requires
            self.wf(),
        ensures
            skel_wf(self.spec_skeleton()),
            self.spec_landings().len() == self.spec_skeleton().landings.len(),
            self.spec_tunnels().len() == self.spec_skeleton().tunnels.len(),
            self.spec_dead_ends().len() == self.spec_skeleton().dead_ends.len(),
            forall|k: int|
                0 <= k < self.spec_landings().len() ==> {
                    &&& (#[trigger] self.spec_landings()[k]).wf()
                    &&& self.spec_landings()[k].spec_landing() == self.spec_skeleton().landings[k]
                    &&& self.spec_landings()[k].spec_landing().id == k
                    &&& landing_env_matches(self.spec_skeleton(),
                        self.spec_skeleton().landings[k], self.spec_landings()[k])
                    &&& self.spec_landings()[k].spec_doors() == sort_doors_spec(
                        bearings_of(self.spec_skeleton(), self.spec_skeleton().landings[k]),
                    )
                    &&& sorted_doors(self.spec_landings()[k].spec_doors())
                    &&& circular_gaps_ok(self.spec_landings()[k].spec_doors())
                    &&& exits_valid(
                        self.spec_landings()[k].spec_exit_faces(),
                        self.spec_tunnels().len() as int,
                        self.spec_landings().len() as int,
                        self.spec_dead_ends().len() as int,
                    )
                },
            forall|k: int|
                0 <= k < self.spec_tunnels().len() ==> {
                    &&& (#[trigger] self.spec_tunnels()[k]).wf()
                    &&& self.spec_tunnels()[k].spec_tunnel() == self.spec_skeleton().tunnels[k]
                    &&& tunnel_env_matches(self.spec_skeleton(), self.spec_skeleton().tunnels[k],
                        self.spec_tunnels()[k])
                    &&& tunnel_perp_ok(self.spec_skeleton(), self.spec_skeleton().tunnels[k])
                    &&& exits_valid(
                        self.spec_tunnels()[k].spec_exit_faces(),
                        self.spec_tunnels().len() as int,
                        self.spec_landings().len() as int,
                        self.spec_dead_ends().len() as int,
                    )
                },
            forall|k: int|
                0 <= k < self.spec_dead_ends().len() ==> {
                    &&& (#[trigger] self.spec_dead_ends()[k]).wf()
                    &&& self.spec_dead_ends()[k].spec_dead_end() == self.spec_skeleton().dead_ends[
                        k
                    ]
                    &&& self.spec_dead_ends()[k].spec_dead_end().id == k
                    &&& dead_end_env_matches(self.spec_skeleton(),
                        self.spec_skeleton().dead_ends[k], self.spec_dead_ends()[k])
                    &&& exits_valid(
                        self.spec_dead_ends()[k].spec_exit_faces(),
                        self.spec_tunnels().len() as int,
                        self.spec_landings().len() as int,
                        self.spec_dead_ends().len() as int,
                    )
                },
    {
    }

    /// The landing environments, indexed by landing id.
    pub fn landings(&self) -> (r: &Vec<LandingEnvironment>)
        ensures
            r@ == self.spec_landings(),
    {
        &self.landings
    }

    /// The tunnel environments, indexed by tunnel id.
    pub fn tunnels(&self) -> (r: &Vec<TunnelEnvironment>)
        ensures
            r@ == self.spec_tunnels(),
    {
        &self.tunnels
    }

    /// The dead-end environments, indexed by dead-end id.
    pub fn dead_ends(&self) -> (r: &Vec<DeadEndEnvironment>)
        ensures
            r@ == self.spec_dead_ends(),
    {
        &self.dead_ends
    }

    /// One navigation tick: decide where the camera movement from
    /// `old_pos` to `new_pos` ends up.  Crossing an exit face of the
    /// current environment hands control to the environment beyond it and
    /// accepts the move; coming within the blocking threshold of a solid
    /// face rejects it; otherwise it is accepted in place.
    pub fn navigate(
        &self,
        current: EnvironmentIdentifier,
        old_pos: &Vec3,
        new_pos: &Vec3,
    ) -> (r: (EnvironmentIdentifier, Vec3))
        requires
            self.wf(),
            self.env_valid(current),
            wf_coord(old_pos@),
            wf_coord(new_pos@),
        ensures
            any_exit_crossed(self.env_exits(current), old_pos@, new_pos@) ==> r.1 == *new_pos
                && exists|k: int|
                {
                    &&& 0 <= k < self.env_exits(current).len()
                    &&& segment_meets_face(
                        (#[trigger] self.env_exits(current)[k]).1@,
                        old_pos@,
                        new_pos@,
                    )
                    &&& r.0 == self.env_exits(current)[k].0
                    &&& forall|j: int|
                        0 <= j < k ==> !segment_meets_face(
                            (#[trigger] self.env_exits(current)[j]).1@,
                            old_pos@,
                            new_pos@,
                        )
                },
            !any_exit_crossed(self.env_exits(current), old_pos@, new_pos@) && movement_blocked(
                self.env_faces(current),
                old_pos@,
                new_pos@,
                BLOCK_EPS_FIX as int,
            ) ==> r == (current, *old_pos),
            !any_exit_crossed(self.env_exits(current), old_pos@, new_pos@) && !movement_blocked(
                self.env_faces(current),
                old_pos@,
                new_pos@,
                BLOCK_EPS_FIX as int,
            ) ==> r == (current, *new_pos),
            self.env_valid(r.0),
    {
        let outcome = match current {
            EnvironmentIdentifier::Tunnel(i) => {
                proof {
                    self.spec_tunnels()[i as int].lemma_wf_props();
                }
                crate::nav::navigate(
                self.tunnels[i].faces(),
                self.tunnels[i].exit_faces(),
                old_pos,
                new_pos,
            )
            },
            EnvironmentIdentifier::Landing(i) => {
                proof {
                    self.spec_landings()[i as int].lemma_wf_props();
                }
                crate::nav::navigate(
                self.landings[i].faces(),
                self.landings[i].exit_faces(),
                old_pos,
                new_pos,
            )
            },
            EnvironmentIdentifier::DeadEnd(i) => {
                proof {
                    self.spec_dead_ends()[i as int].lemma_wf_props();
                }
                crate::nav::navigate(
                self.dead_ends[i].faces(),
                self.dead_ends[i].exit_faces(),
                old_pos,
                new_pos,
            )
            },
        };
        match outcome {
            NavOutcome::Handoff(id) => (id, *new_pos),
            NavOutcome::Blocked => (current, *old_pos),
            NavOutcome::Moved => (current, *new_pos),
        }
    }

    /// The local vertical at a camera position inside the current
    /// environment: fixed in rooms, interpolated along tunnels.
    pub fn up(&self, current: EnvironmentIdentifier, camera_position: &Vec3) -> (r: Vec3)
        requires
            self.wf(),
            self.env_valid(current),
            wf_coord(camera_position@),
        ensures
            current matches EnvironmentIdentifier::Landing(i) ==> r@ == self.spec_landings()[
                i as int].spec_landing().up,
            current matches EnvironmentIdentifier::DeadEnd(i) ==> r@ == self.spec_dead_ends()[
                i as int].spec_dead_end().up,
            current matches EnvironmentIdentifier::Tunnel(i) ==> r@
                == crate::environment::tunnel_up_spec(
                self.spec_tunnels()[i as int].spec_start_coupler().0,
                self.spec_tunnels()[i as int].spec_start_coupler().1,
                self.spec_tunnels()[i as int].spec_end_coupler().0,
                self.spec_tunnels()[i as int].spec_end_coupler().1,
                camera_position@,
            ),
    {
        match current {
            EnvironmentIdentifier::Tunnel(i) => self.tunnels[i].up(camera_position),
            EnvironmentIdentifier::Landing(i) => self.landings[i].up(camera_position),
            EnvironmentIdentifier::DeadEnd(i) => self.dead_ends[i].up(camera_position),
        }
    }
}

/// The flattened homogeneous positions of one face's fan triangulation:
/// four fixed-point values (x, y, z, one unit) per produced vertex.
pub open spec fn face_pts_flat(f: Face) -> Seq<i64> {
    Seq::new(
        (12 * (f@.points.len() - 2)) as nat,
        |i: int|
            {
                let v = crate::face::fan_vertex(f@.points, i / 4);
                if i % 4 == 0 {
                    v.x as i64
                } else if i % 4 == 1 {
                    v.y as i64
                } else if i % 4 == 2 {
                    v.z as i64
                } else {
                    SCALE
                }
            },
    )
}

/// The flat-shaded normals in the same layout: the face's unit normal,
/// repeated for each produced vertex.
pub open spec fn face_norms_flat(f: Face) -> Seq<i64> {
    Seq::new(
        (12 * (f@.points.len() - 2)) as nat,
        |i: int|
            {
                let nv = crate::face::normal_of(f@.points);
                if i % 4 == 0 {
                    nv.x as i64
                } else if i % 4 == 1 {
                    nv.y as i64
                } else if i % 4 == 2 {
                    nv.z as i64
                } else {
                    SCALE
                }
            },
    )
}

/// The texture coordinates of the fan: two values per produced vertex.
pub open spec fn face_uvs_flat(f: Face) -> Seq<i64> {
    Seq::new(
        (6 * (f@.points.len() - 2)) as nat,
        |i: int|
            {
                let uv = crate::face::fan_uv(f@.uvs, i / 2);
                if i % 2 == 0 {
                    uv.u as i64
                } else {
                    uv.v as i64
                }
            },
    )
}

/// The position buffer of a face list: each face's flattened fan, in order.
pub open spec fn faces_pts_flat(fs: Seq<Face>) -> Seq<i64>
    decreases fs.len(),
{
    if fs.len() == 0 {
        Seq::empty()
    } else {
        faces_pts_flat(fs.drop_last()) + face_pts_flat(fs.last())
    }
}

/// The normal buffer of a face list.
pub open spec fn faces_norms_flat(fs: Seq<Face>) -> Seq<i64>
    decreases fs.len(),
{
    if fs.len() == 0 {
        Seq::empty()
    } else {
        faces_norms_flat(fs.drop_last()) + face_norms_flat(fs.last())
    }
}

/// The texture buffer of a face list.
pub open spec fn faces_uvs_flat(fs: Seq<Face>) -> Seq<i64>
    decreases fs.len(),
{
    if fs.len() == 0 {
        Seq::empty()
    } else {
        faces_uvs_flat(fs.drop_last()) + face_uvs_flat(fs.last())
    }
}

/// All faces of a tunnel-environment list, in id order.
pub open spec fn tunnels_faces(es: Seq<TunnelEnvironment>) -> Seq<Face>
    decreases es.len(),
{
    if es.len() == 0 {
        Seq::empty()
    } else {
        tunnels_faces(es.drop_last()) + es.last().spec_faces()
    }
}

/// All faces of a landing-environment list, in id order.
pub open spec fn landings_faces(es: Seq<LandingEnvironment>) -> Seq<Face>
    decreases es.len(),
{
    if es.len() == 0 {
        Seq::empty()
    } else {
        landings_faces(es.drop_last()) + es.last().spec_faces()
    }
}

/// All faces of a dead-end-environment list, in id order.
pub open spec fn dead_ends_faces(es: Seq<DeadEndEnvironment>) -> Seq<Face>
    decreases es.len(),
{
    if es.len() == 0 {
        Seq::empty()
    } else {
        dead_ends_faces(es.drop_last()) + es.last().spec_faces()
    }
}

/// Every face of the maze, in the stable render order: tunnels, then
/// landings, then dead ends.
pub open spec fn maze_faces(m: Maze) -> Seq<Face> {
    tunnels_faces(m.spec_tunnels()) + landings_faces(m.spec_landings()) + dead_ends_faces(
        m.spec_dead_ends(),
    )
}

/// Flattening distributes over concatenation of face lists.
pub proof fn lemma_flat_concat(a: Seq<Face>, b: Seq<Face>)
    ensures
        faces_pts_flat(a + b) == faces_pts_flat(a) + faces_pts_flat(b),
        faces_norms_flat(a + b) == faces_norms_flat(a) + faces_norms_flat(b),
        faces_uvs_flat(a + b) == faces_uvs_flat(a) + faces_uvs_flat(b),
    decreases b.len(),
{
    if b.len() == 0 {
        assert(a + b =~= a);
        assert(faces_pts_flat(a) + faces_pts_flat(b) =~= faces_pts_flat(a));
        assert(faces_norms_flat(a) + faces_norms_flat(b) =~= faces_norms_flat(a));
        assert(faces_uvs_flat(a) + faces_uvs_flat(b) =~= faces_uvs_flat(a));
    } else {
        lemma_flat_concat(a, b.drop_last());
        assert((a + b).drop_last() =~= a + b.drop_last());
        assert((a + b).last() == b.last());
        assert(faces_pts_flat(a + b) =~= faces_pts_flat(a) + faces_pts_flat(b));
        assert(faces_norms_flat(a + b) =~= faces_norms_flat(a) + faces_norms_flat(b));
        assert(faces_uvs_flat(a + b) =~= faces_uvs_flat(a) + faces_uvs_flat(b));
    }
}

/// Append one environment's faces to the three aligned buffers.
fn push_env_faces(
    faces: &Vec<Face>,
    pts: &mut Vec<i64>,
    norms: &mut Vec<i64>,
    uvs: &mut Vec<i64>,
)
    requires
        forall|k: int| 0 <= k < faces@.len() ==> (#[trigger] faces@[k]).wf(),
        old(pts)@.len() == old(norms)@.len(),
        old(pts)@.len() % 12 == 0,
        old(uvs)@.len() * 2 == old(pts)@.len(),
    ensures
        final(pts)@ == old(pts)@ + faces_pts_flat(faces@),
        final(norms)@ == old(norms)@ + faces_norms_flat(faces@),
        final(uvs)@ == old(uvs)@ + faces_uvs_flat(faces@),
        final(pts)@.len() == final(norms)@.len(),
        final(pts)@.len() % 12 == 0,
        final(uvs)@.len() * 2 == final(pts)@.len(),
{
    let n = faces.len();
    let mut k: usize = 0;
    proof {
        assert(faces@.take(0int) =~= Seq::<Face>::empty());
        assert(pts@ =~= old(pts)@ + faces_pts_flat(faces@.take(0int)));
        assert(norms@ =~= old(norms)@ + faces_norms_flat(faces@.take(0int)));
        assert(uvs@ =~= old(uvs)@ + faces_uvs_flat(faces@.take(0int)));
    }
    while k < n
        invariant
            0 <= k <= n,
            n == faces@.len(),
            forall|j: int| 0 <= j < faces@.len() ==> (#[trigger] faces@[j]).wf(),
            pts@ == old(pts)@ + faces_pts_flat(faces@.take(k as int)),
            norms@ == old(norms)@ + faces_norms_flat(faces@.take(k as int)),
            uvs@ == old(uvs)@ + faces_uvs_flat(faces@.take(k as int)),
            pts@.len() == norms@.len(),
            pts@.len() % 12 == 0,
            uvs@.len() * 2 == pts@.len(),
        decreases n - k,
    {
        let f = &faces[k];
        let tris = f.break_into_triangles();
        let uv_tris = f.break_into_uv_triangles();
        let normal = *f.normal();
        let m = tris.len();
        proof {
            f.lemma_wf_props();
            assert(uv_tris@.len() == m);
        }
        let ghost p0 = pts@;
        let ghost n0 = norms@;
        let ghost u0 = uvs@;
        let mut v: usize = 0;
        proof {
            assert(pts@ =~= p0 + face_pts_flat(*f).take(0int));
            assert(norms@ =~= n0 + face_norms_flat(*f).take(0int));
            assert(uvs@ =~= u0 + face_uvs_flat(*f).take(0int));
        }
        while v < m
            invariant
                0 <= v <= m,
                m == tris@.len(),
                uv_tris@.len() == m,
                f.wf(),
                f == &faces@[k as int],
                0 <= k < faces@.len(),
                f@.points.len() >= 3,
                f@.uvs.len() == f@.points.len(),
                m == 3 * (f@.points.len() - 2),
                pts@.len() == p0.len() + 4 * v,
                norms@.len() == n0.len() + 4 * v,
                uvs@.len() == u0.len() + 2 * v,
                p0.len() == n0.len(),
                p0.len() % 12 == 0,
                u0.len() * 2 == p0.len(),
                normal@ == crate::face::normal_of(f@.points),
                forall|i: int|
                    0 <= i < m ==> #[trigger] tris@[i]@ == crate::face::fan_vertex(
                        f@.points,
                        i,
                    ),
                forall|i: int|
                    0 <= i < m ==> #[trigger] uv_tris@[i]@ == crate::face::fan_uv(f@.uvs, i),
                pts@ == p0 + face_pts_flat(*f).take(4 * v),
                norms@ == n0 + face_norms_flat(*f).take(4 * v),
                uvs@ == u0 + face_uvs_flat(*f).take(2 * v),
            decreases m - v,
        {
            let vert = tris[v];
            pts.push(vert.x);
            pts.push(vert.y);
            pts.push(vert.z);
            pts.push(SCALE);
            norms.push(normal.x);
            norms.push(normal.y);
            norms.push(normal.z);
            norms.push(SCALE);
            let uv = uv_tris[v];
            uvs.push(uv.u);
            uvs.push(uv.v);
            proof {
                assert(tris@[v as int]@ == crate::face::fan_vertex(f@.points, v as int));
                assert(uv_tris@[v as int]@ == crate::face::fan_uv(f@.uvs, v as int));
                assert forall|i: int| 4 * v <= i < 4 * (v + 1) implies #[trigger] face_pts_flat(
                    *f,
                )[i] == seq![vert.x, vert.y, vert.z, SCALE][i - 4 * v] by {
                    assert(i / 4 == v as int);
                };
                assert forall|i: int|
                    4 * v <= i < 4 * (v + 1) implies #[trigger] face_norms_flat(*f)[i] == seq![
                    normal.x,
                    normal.y,
                    normal.z,
                    SCALE,
                ][i - 4 * v] by {
                    assert(i / 4 == v as int);
                };
                assert forall|i: int| 2 * v <= i < 2 * (v + 1) implies #[trigger] face_uvs_flat(
                    *f,
                )[i] == seq![uv.u, uv.v][i - 2 * v] by {
                    assert(i / 2 == v as int);
                };
                assert(face_pts_flat(*f).take(4 * (v + 1)) =~= face_pts_flat(*f).take(4 * v)
                    + seq![vert.x, vert.y, vert.z, SCALE]);
                assert(face_norms_flat(*f).take(4 * (v + 1)) =~= face_norms_flat(*f).take(
                    4 * v,
                ) + seq![normal.x, normal.y, normal.z, SCALE]);
                assert(face_uvs_flat(*f).take(2 * (v + 1)) =~= face_uvs_flat(*f).take(2 * v)
                    + seq![uv.u, uv.v]);
                assert(pts@ =~= p0 + face_pts_flat(*f).take(4 * (v + 1)));
                assert(norms@ =~= n0 + face_norms_flat(*f).take(4 * (v + 1)));
                assert(uvs@ =~= u0 + face_uvs_flat(*f).take(2 * (v + 1)));
            }
            v = v + 1;
        }
        proof {
            assert(face_pts_flat(*f).take(4 * (m as int)) =~= face_pts_flat(*f));
            assert(face_norms_flat(*f).take(4 * (m as int)) =~= face_norms_flat(*f));
            assert(face_uvs_flat(*f).take(2 * (m as int)) =~= face_uvs_flat(*f));
            assert(faces@.take(k + 1).drop_last() =~= faces@.take(k as int));
            assert(faces@.take(k + 1).last() == faces@[k as int]);
            assert(pts@ =~= old(pts)@ + faces_pts_flat(faces@.take(k + 1)));
            assert(norms@ =~= old(norms)@ + faces_norms_flat(faces@.take(k + 1)));
            assert(uvs@ =~= old(uvs)@ + faces_uvs_flat(faces@.take(k + 1)));
        }
        k = k + 1;
    }
    proof {
        assert(faces@.take(n as int) =~= faces@);
    }
}

impl Maze {
    /// The flattened render buffers, in the stable order tunnels, then
    /// landings, then dead ends: homogeneous vertex positions (four
    /// fixed-point values per fan-triangle vertex), flat-shaded normals in
    /// the same layout, and texture coordinates (two values per vertex).
    /// The three buffers are index-aligned: vertex `j` occupies entries
    /// `4j..4j+4` of the first two and `2j..2j+2` of the third.
    pub fn render_buffers(&self) -> (r: (Vec<i64>, Vec<i64>, Vec<i64>))
        requires
            self.wf(),
        ensures
            r.0@ == faces_pts_flat(maze_faces(*self)),
            r.1@ == faces_norms_flat(maze_faces(*self)),
            r.2@ == faces_uvs_flat(maze_faces(*self)),
            r.0@.len() == r.1@.len(),
            r.0@.len() % 12 == 0,
            r.2@.len() * 2 == r.0@.len(),
    {
        let mut pts: Vec<i64> = Vec::new();
        let mut norms: Vec<i64> = Vec::new();
        let mut uvs: Vec<i64> = Vec::new();
        let mut k: usize = 0;
        let n = self.tunnels.len();
        proof {
            assert(self.spec_tunnels().take(0int) =~= Seq::<TunnelEnvironment>::empty());
            assert(pts@ =~= faces_pts_flat(tunnels_faces(self.spec_tunnels().take(0int))));
            assert(norms@ =~= faces_norms_flat(tunnels_faces(self.spec_tunnels().take(0int))));
            assert(uvs@ =~= faces_uvs_flat(tunnels_faces(self.spec_tunnels().take(0int))));
        }
        while k < n
            invariant
                0 <= k <= n,
                n == self.spec_tunnels().len(),
                self.wf(),
                pts@ == faces_pts_flat(tunnels_faces(self.spec_tunnels().take(k as int))),
                norms@ == faces_norms_flat(tunnels_faces(self.spec_tunnels().take(k as int))),
                uvs@ == faces_uvs_flat(tunnels_faces(self.spec_tunnels().take(k as int))),
                pts@.len() == norms@.len(),
                pts@.len() % 12 == 0,
                uvs@.len() * 2 == pts@.len(),
            decreases n - k,
        {
            proof {
                self.spec_tunnels()[k as int].lemma_wf_props();
            }
            push_env_faces(self.tunnels[k].faces(), &mut pts, &mut norms, &mut uvs);
            proof {
                let prefix = tunnels_faces(self.spec_tunnels().take(k as int));
                let fs = self.spec_tunnels()[k as int].spec_faces();
                lemma_flat_concat(prefix, fs);
                assert(self.spec_tunnels().take(k + 1).drop_last() =~= self.spec_tunnels().take(
                    k as int,
                ));
                assert(self.spec_tunnels().take(k + 1).last() == self.spec_tunnels()[k as int]);
                assert(tunnels_faces(self.spec_tunnels().take(k + 1)) == prefix + fs);
            }
            k = k + 1;
        }
        proof {
            assert(self.spec_tunnels().take(n as int) =~= self.spec_tunnels());
        }
        let ghost t_pts = pts@;
        let ghost t_norms = norms@;
        let ghost t_uvs = uvs@;
        let mut k: usize = 0;
        let n = self.landings.len();
        proof {
            assert(self.spec_landings().take(0int) =~= Seq::<LandingEnvironment>::empty());
            assert(pts@ =~= t_pts + faces_pts_flat(landings_faces(self.spec_landings().take(
                0int,
            ))));
            assert(norms@ =~= t_norms + faces_norms_flat(landings_faces(self.spec_landings().take(
                0int,
            ))));
            assert(uvs@ =~= t_uvs + faces_uvs_flat(landings_faces(self.spec_landings().take(
                0int,
            ))));
        }
        while k < n
            invariant
                0 <= k <= n,
                n == self.spec_landings().len(),
                self.wf(),
                t_pts == faces_pts_flat(tunnels_faces(self.spec_tunnels())),
                t_norms == faces_norms_flat(tunnels_faces(self.spec_tunnels())),
                t_uvs == faces_uvs_flat(tunnels_faces(self.spec_tunnels())),
                pts@ == t_pts + faces_pts_flat(landings_faces(self.spec_landings().take(
                    k as int,
                ))),
                norms@ == t_norms + faces_norms_flat(landings_faces(self.spec_landings().take(
                    k as int,
                ))),
                uvs@ == t_uvs + faces_uvs_flat(landings_faces(self.spec_landings().take(
                    k as int,
                ))),
                pts@.len() == norms@.len(),
                pts@.len() % 12 == 0,
                uvs@.len() * 2 == pts@.len(),
            decreases n - k,
        {
            proof {
                self.spec_landings()[k as int].lemma_wf_props();
            }
            push_env_faces(self.landings[k].faces(), &mut pts, &mut norms, &mut uvs);
            proof {
                let prefix = landings_faces(self.spec_landings().take(k as int));
                let fs = self.spec_landings()[k as int].spec_faces();
                lemma_flat_concat(prefix, fs);
                assert(self.spec_landings().take(k + 1).drop_last() =~= self.spec_landings().take(
                    k as int,
                ));
                assert(self.spec_landings().take(k + 1).last() == self.spec_landings()[k as int]);
                assert(landings_faces(self.spec_landings().take(k + 1)) == prefix + fs);
                assert(pts@ =~= t_pts + faces_pts_flat(landings_faces(self.spec_landings().take(
                    k + 1,
                ))));
                assert(norms@ =~= t_norms + faces_norms_flat(landings_faces(
                    self.spec_landings().take(k + 1),
                )));
                assert(uvs@ =~= t_uvs + faces_uvs_flat(landings_faces(self.spec_landings().take(
                    k + 1,
                ))));
            }
            k = k + 1;
        }
        proof {
            assert(self.spec_landings().take(n as int) =~= self.spec_landings());
        }
        let ghost l_pts = pts@;
        let ghost l_norms = norms@;
        let ghost l_uvs = uvs@;
        let mut k: usize = 0;
        let n = self.dead_ends.len();
        proof {
            assert(self.spec_dead_ends().take(0int) =~= Seq::<DeadEndEnvironment>::empty());
            assert(pts@ =~= l_pts + faces_pts_flat(dead_ends_faces(self.spec_dead_ends().take(
                0int,
            ))));
            assert(norms@ =~= l_norms + faces_norms_flat(dead_ends_faces(
                self.spec_dead_ends().take(0int),
            )));
            assert(uvs@ =~= l_uvs + faces_uvs_flat(dead_ends_faces(self.spec_dead_ends().take(
                0int,
            ))));
        }
        while k < n
            invariant
                0 <= k <= n,
                n == self.spec_dead_ends().len(),
                self.wf(),
                l_pts == faces_pts_flat(tunnels_faces(self.spec_tunnels())) + faces_pts_flat(
                    landings_faces(self.spec_landings()),
                ),
                l_norms == faces_norms_flat(tunnels_faces(self.spec_tunnels()))
                    + faces_norms_flat(landings_faces(self.spec_landings())),
                l_uvs == faces_uvs_flat(tunnels_faces(self.spec_tunnels())) + faces_uvs_flat(
                    landings_faces(self.spec_landings()),
                ),
                pts@ == l_pts + faces_pts_flat(dead_ends_faces(self.spec_dead_ends().take(
                    k as int,
                ))),
                norms@ == l_norms + faces_norms_flat(dead_ends_faces(self.spec_dead_ends().take(
                    k as int,
                ))),
                uvs@ == l_uvs + faces_uvs_flat(dead_ends_faces(self.spec_dead_ends().take(
                    k as int,
                ))),
                pts@.len() == norms@.len(),
                pts@.len() % 12 == 0,
                uvs@.len() * 2 == pts@.len(),
            decreases n - k,
        {
            proof {
                self.spec_dead_ends()[k as int].lemma_wf_props();
            }
            push_env_faces(self.dead_ends[k].faces(), &mut pts, &mut norms, &mut uvs);
            proof {
                let prefix = dead_ends_faces(self.spec_dead_ends().take(k as int));
                let fs = self.spec_dead_ends()[k as int].spec_faces();
                lemma_flat_concat(prefix, fs);
                assert(self.spec_dead_ends().take(k + 1).drop_last()
                    =~= self.spec_dead_ends().take(k as int));
                assert(self.spec_dead_ends().take(k + 1).last() == self.spec_dead_ends()[
                    k as int]);
                assert(dead_ends_faces(self.spec_dead_ends().take(k + 1)) == prefix + fs);
                assert(pts@ =~= l_pts + faces_pts_flat(dead_ends_faces(
                    self.spec_dead_ends().take(k + 1),
                )));
                assert(norms@ =~= l_norms + faces_norms_flat(dead_ends_faces(
                    self.spec_dead_ends().take(k + 1),
                )));
                assert(uvs@ =~= l_uvs + faces_uvs_flat(dead_ends_faces(
                    self.spec_dead_ends().take(k + 1),
                )));
            }
            k = k + 1;
        }
        proof {
            assert(self.spec_dead_ends().take(n as int) =~= self.spec_dead_ends());
            lemma_flat_concat(
                tunnels_faces(self.spec_tunnels()),
                landings_faces(self.spec_landings()),
            );
            lemma_flat_concat(
                tunnels_faces(self.spec_tunnels()) + landings_faces(self.spec_landings()),
                dead_ends_faces(self.spec_dead_ends()),
            );
            assert(pts@ =~= faces_pts_flat(maze_faces(*self)));
            assert(norms@ =~= faces_norms_flat(maze_faces(*self)));
            assert(uvs@ =~= faces_uvs_flat(maze_faces(*self)));
        }
        (pts, norms, uvs)
    }
}

/// Realize every landing of the skeleton, in id order.
#[verifier::rlimit(100)]
fn realize_landings(skel: &MazeSkeleton) -> (r: Result<Vec<LandingEnvironment>, MazeError>)
    requires
        skel_wf(skel@),
        skel@.tunnels.len() < 0x800_0000,
    ensures
        (r is Ok) == (forall|j: int|
            0 <= j < skel@.landings.len() ==> #[trigger] landing_realizable(skel@, j)),
        r matches Ok(v) ==> {
            &&& v@.len() == skel@.landings.len()
            &&& forall|j: int|
                0 <= j < v@.len() ==> {
                    &&& (#[trigger] v@[j]).wf()
                    &&& v@[j].spec_landing() == skel@.landings[j]
                    &&& landing_env_matches(skel@, skel@.landings[j], v@[j])
                    &&& v@[j].spec_doors() == sort_doors_spec(
                        bearings_of(skel@, skel@.landings[j]),
                    )
                    &&& sorted_doors(v@[j].spec_doors())
                    &&& circular_gaps_ok(v@[j].spec_doors())
                    &&& exits_valid(
                        v@[j].spec_exit_faces(),
                        skel@.tunnels.len() as int,
                        skel@.landings.len() as int,
                        skel@.dead_ends.len() as int,
                    )
                }
        },
        r == Result::<Vec<LandingEnvironment>, MazeError>::Err(MazeError::TooFewTunnels)
            ==> exists|j: int|
            0 <= j < skel@.landings.len() && (#[trigger] skel@.landings[j]).tunnel_ids.len() < 2,
        r == Result::<Vec<LandingEnvironment>, MazeError>::Err(MazeError::TunnelsTooClose)
            ==> exists|j: int|
            0 <= j < skel@.landings.len() && (#[trigger] skel@.landings[j]).tunnel_ids.len() >= 2
                && !circular_gaps_ok(sort_doors_spec(bearings_of(skel@, skel@.landings[j]))),
        r matches Err(e) ==> e == MazeError::TooFewTunnels || e == MazeError::TunnelsTooClose,
{
    let mut landings: Vec<LandingEnvironment> = Vec::new();
    let mut k: usize = 0;
    let n_landings = skel.landings.len();
    while k < n_landings
        invariant
            0 <= k <= n_landings,
            n_landings == skel@.landings.len(),
            skel_wf(skel@),
            skel@.tunnels.len() < 0x800_0000,
            landings@.len() == k,
            forall|j: int|
                0 <= j < k ==> {
                    &&& (#[trigger] landings@[j]).wf()
                    &&& landings@[j].spec_landing() == skel@.landings[j]
                    &&& landing_env_matches(skel@, skel@.landings[j], landings@[j])
                    &&& landings@[j].spec_doors() == sort_doors_spec(
                        bearings_of(skel@, skel@.landings[j]),
                    )
                    &&& sorted_doors(landings@[j].spec_doors())
                    &&& circular_gaps_ok(landings@[j].spec_doors())
                    &&& exits_valid(
                        landings@[j].spec_exit_faces(),
                        skel@.tunnels.len() as int,
                        skel@.landings.len() as int,
                        skel@.dead_ends.len() as int,
                    )
                },
            forall|j: int| 0 <= j < k ==> #[trigger] landing_realizable(skel@, j),
        decreases n_landings - k,
    {
        proof {
            assert(skel.landings@[k as int]@ == skel@.landings[k as int]);
        }
        let env = match skel.landings[k].to_environment(skel) {
            Ok(env) => env,
            Err(e) => {
                proof {
                    assert(!landing_realizable(skel@, k as int));
                }
                return Err(e);
            },
        };
        proof {
            assert(landing_realizable(skel@, k as int));
            let l = skel@.landings[k as int];
            assert forall|e: int|
                0 <= e < env.spec_exit_faces().len() implies match (
            #[trigger] env.spec_exit_faces()[e]).0 {
                EnvironmentIdentifier::Tunnel(i) => (i as int) < skel@.tunnels.len(),
                EnvironmentIdentifier::Landing(i) => (i as int) < skel@.landings.len(),
                EnvironmentIdentifier::DeadEnd(i) => (i as int) < skel@.dead_ends.len(),
            } by {
                let j2 = choose|j2: int|
                    0 <= j2 < l.tunnel_ids.len() && (env.spec_doors()[e]).tunnel_id as int
                        == l.tunnel_ids[j2];
                assert(0 <= l.tunnel_ids[j2] < skel@.tunnels.len());
            };
            assert(exits_valid(
                env.spec_exit_faces(),
                skel@.tunnels.len() as int,
                skel@.landings.len() as int,
                skel@.dead_ends.len() as int,
            ));
        }
        landings.push(env);
        k = k + 1;
    }
    Ok(landings)
}

/// Realize every tunnel of the skeleton, in id order.
#[verifier::rlimit(100)]
fn realize_tunnels(skel: &MazeSkeleton) -> (r: Result<Vec<TunnelEnvironment>, MazeError>)
    requires
        skel_wf(skel@),
    ensures
        (r is Ok) == (forall|j: int|
            0 <= j < skel@.tunnels.len() ==> tunnel_perp_ok(skel@, #[trigger] skel@.tunnels[j])),
        r is Err ==> exists|j: int|
            0 <= j < skel@.tunnels.len() && !tunnel_perp_ok(skel@, #[trigger] skel@.tunnels[j]),
        r matches Ok(v) ==> {
            &&& v@.len() == skel@.tunnels.len()
            &&& forall|j: int|
                0 <= j < v@.len() ==> {
                    &&& (#[trigger] v@[j]).wf()
                    &&& v@[j].spec_tunnel() == skel@.tunnels[j]
                    &&& tunnel_env_matches(skel@, skel@.tunnels[j], v@[j])
                    &&& tunnel_perp_ok(skel@, skel@.tunnels[j])
                    &&& exits_valid(
                        v@[j].spec_exit_faces(),
                        skel@.tunnels.len() as int,
                        skel@.landings.len() as int,
                        skel@.dead_ends.len() as int,
                    )
                }
        },
        r matches Err(e) ==> e == MazeError::CouplerNotPerpendicular,
{
    let mut tunnels: Vec<TunnelEnvironment> = Vec::new();
    let mut k: usize = 0;
    let n_tunnels = skel.tunnels.len();
    while k < n_tunnels
        invariant
            0 <= k <= n_tunnels,
            n_tunnels == skel@.tunnels.len(),
            skel_wf(skel@),
            tunnels@.len() == k,
            forall|j: int|
                0 <= j < k ==> {
                    &&& (#[trigger] tunnels@[j]).wf()
                    &&& tunnels@[j].spec_tunnel() == skel@.tunnels[j]
                    &&& tunnel_env_matches(skel@, skel@.tunnels[j], tunnels@[j])
                    &&& tunnel_perp_ok(skel@, skel@.tunnels[j])
                    &&& exits_valid(
                        tunnels@[j].spec_exit_faces(),
                        skel@.tunnels.len() as int,
                        skel@.landings.len() as int,
                        skel@.dead_ends.len() as int,
                    )
                },
        decreases n_tunnels - k,
    {
        let tunnel = skel.tunnels[k];
        let env = match tunnel.to_environment(skel) {
            Ok(env) => env,
            Err(e) => {
                proof {
                    assert(!tunnel_perp_ok(skel@, skel@.tunnels[k as int]));
                }
                return Err(e);
            },
        };
        proof {
            env.lemma_wf_props();
            assert(connector_valid(skel@, skel@.tunnels[k as int].start_connector));
            assert(connector_valid(skel@, skel@.tunnels[k as int].end_connector));
            assert(exits_valid(
                env.spec_exit_faces(),
                skel@.tunnels.len() as int,
                skel@.landings.len() as int,
                skel@.dead_ends.len() as int,
            ));
        }
        tunnels.push(env);
        k = k + 1;
    }
    proof {
        assert forall|j: int|
            0 <= j < skel@.tunnels.len() implies tunnel_perp_ok(
            skel@,
            #[trigger] skel@.tunnels[j],
        ) by {
            assert(tunnels@[j].wf());
        };
    }
    Ok(tunnels)
}

/// Realize every dead end of the skeleton, in id order.
#[verifier::rlimit(100)]
fn realize_dead_ends(skel: &MazeSkeleton) -> (r: Result<Vec<DeadEndEnvironment>, MazeError>)
    requires
        skel_wf(skel@),
    ensures
        (r is Ok) == (forall|j: int|
            0 <= j < skel@.dead_ends.len() ==> (#[trigger] skel@.dead_ends[j]).tunnel_id is Some),
        r is Err ==> exists|j: int|
            0 <= j < skel@.dead_ends.len() && (#[trigger] skel@.dead_ends[j]).tunnel_id is None,
        r matches Ok(v) ==> {
            &&& v@.len() == skel@.dead_ends.len()
            &&& forall|j: int|
                0 <= j < v@.len() ==> {
                    &&& (#[trigger] v@[j]).wf()
                    &&& v@[j].spec_dead_end() == skel@.dead_ends[j]
                    &&& dead_end_env_matches(skel@, skel@.dead_ends[j], v@[j])
                    &&& exits_valid(
                        v@[j].spec_exit_faces(),
                        skel@.tunnels.len() as int,
                        skel@.landings.len() as int,
                        skel@.dead_ends.len() as int,
                    )
                }
        },
        r matches Err(e) ==> e == MazeError::SingleTunnelRequired,
{
    let mut dead_ends: Vec<DeadEndEnvironment> = Vec::new();
    let mut k: usize = 0;
    let n_dead_ends = skel.dead_ends.len();
    while k < n_dead_ends
        invariant
            0 <= k <= n_dead_ends,
            n_dead_ends == skel@.dead_ends.len(),
            skel_wf(skel@),
            dead_ends@.len() == k,
            forall|j: int| 0 <= j < k ==> (#[trigger] skel@.dead_ends[j]).tunnel_id is Some,
            forall|j: int|
                0 <= j < k ==> {
                    &&& (#[trigger] dead_ends@[j]).wf()
                    &&& dead_ends@[j].spec_dead_end() == skel@.dead_ends[j]
                    &&& dead_end_env_matches(skel@, skel@.dead_ends[j], dead_ends@[j])
                    &&& exits_valid(
                        dead_ends@[j].spec_exit_faces(),
                        skel@.tunnels.len() as int,
                        skel@.landings.len() as int,
                        skel@.dead_ends.len() as int,
                    )
                },
        decreases n_dead_ends - k,
    {
        proof {
            assert(skel.dead_ends@[k as int]@ == skel@.dead_ends[k as int]);
        }
        let env = match skel.dead_ends[k].to_environment(skel) {
            Ok(env) => env,
            Err(e) => {
                proof {
                    assert(skel@.dead_ends[k as int].tunnel_id is None);
                }
                return Err(e);
            },
        };
        proof {
            env.lemma_wf_props();
            assert(skel@.dead_ends[k as int].tunnel_id matches Some(t) ==> 0 <= t
                < skel@.tunnels.len());
            assert forall|e: int|
                0 <= e < env.spec_exit_faces().len() implies match (
            #[trigger] env.spec_exit_faces()[e]).0 {
                EnvironmentIdentifier::Tunnel(i) => (i as int) < skel@.tunnels.len(),
                EnvironmentIdentifier::Landing(i) => (i as int) < skel@.landings.len(),
                EnvironmentIdentifier::DeadEnd(i) => (i as int) < skel@.dead_ends.len(),
            } by {
                assert(e == 0);
            };
            assert(exits_valid(
                env.spec_exit_faces(),
                skel@.tunnels.len() as int,
                skel@.landings.len() as int,
                skel@.dead_ends.len() as int,
            ));
        }
        dead_ends.push(env);
        k = k + 1;
    }
    Ok(dead_ends)
}

/// Determinism of generation: two mazes whose skeletons both equal the
/// seed's model are the same maze — the same counts, the same node points
/// and orientations, the same door layout at every landing, and the same
/// vertices and texture coordinates on every face and exit face.  Together
/// with `Maze::generate`'s contract (success is a function of the seed's
/// model too), two calls of `generate` on one seed cannot differ.
#[verifier::rlimit(100)]
pub proof fn lemma_generate_deterministic(seed: u32, m1: Maze, m2: Maze)
    requires
        m1.wf(),
        m2.wf(),
        m1.spec_skeleton() == skeleton_model(seed as u64, MAX_RECURSION_DEPTH as nat),
        m2.spec_skeleton() == skeleton_model(seed as u64, MAX_RECURSION_DEPTH as nat),
    ensures
        m1.spec_skeleton() == m2.spec_skeleton(),
        m1.spec_landings().len() == m2.spec_landings().len(),
        m1.spec_tunnels().len() == m2.spec_tunnels().len(),
        m1.spec_dead_ends().len() == m2.spec_dead_ends().len(),
        forall|k: int|
            0 <= k < m1.spec_skeleton().landings.len() ==> (#[trigger] m1.spec_skeleton().landings[
                k
            ]).point == m2.spec_skeleton().landings[k].point && m1.spec_skeleton().landings[k].up
                == m2.spec_skeleton().landings[k].up,
        forall|k: int|
            0 <= k < m1.spec_landings().len() ==> (#[trigger] m1.spec_landings()[k]).spec_doors()
                == m2.spec_landings()[k].spec_doors(),
        forall|k: int, j: int|
            0 <= k < m1.spec_landings().len() && 0 <= j < m1.spec_landings()[
                k
            ].spec_faces().len() ==> (#[trigger] m1.spec_landings()[k].spec_faces()[j])@ == (
            m2.spec_landings()[k].spec_faces()[j])@,
        forall|k: int, j: int|
            0 <= k < m1.spec_tunnels().len() && 0 <= j < m1.spec_tunnels()[
                k
            ].spec_faces().len() ==> (#[trigger] m1.spec_tunnels()[k].spec_faces()[j])@ == (
            m2.spec_tunnels()[k].spec_faces()[j])@,
        forall|k: int, j: int|
            0 <= k < m1.spec_dead_ends().len() && 0 <= j < m1.spec_dead_ends()[
                k
            ].spec_faces().len() ==> (#[trigger] m1.spec_dead_ends()[k].spec_faces()[j])@ == (
            m2.spec_dead_ends()[k].spec_faces()[j])@,
{
    m1.lemma_wf_props();
    m2.lemma_wf_props();
    let s = m1.spec_skeleton();
    assert forall|k: int, j: int|
        0 <= k < m1.spec_landings().len() && 0 <= j < m1.spec_landings()[
            k
        ].spec_faces().len() implies (#[trigger] m1.spec_landings()[k].spec_faces()[j])@ == (
    m2.spec_landings()[k].spec_faces()[j])@ by {
        let e1 = m1.spec_landings()[k];
        let e2 = m2.spec_landings()[k];
        let f1 = e1.spec_faces()[j]@;
        let f2 = e2.spec_faces()[j]@;
        assert(landing_env_matches(s, s.landings[k], e1));
        assert(landing_env_matches(s, s.landings[k], e2));
        if j == 0 || j == 1 {
            assert(f1.points =~= f2.points);
        } else {
            let kk = j - 2;
            let sd = sort_doors_spec(bearings_of(s, s.landings[k]));
            assert(e1.spec_faces()[kk + 2]@.points == crate::environment::wall_points(
                s.landings[k],
                sd,
                kk,
            ));
            assert(e2.spec_faces()[kk + 2]@.points == crate::environment::wall_points(
                s.landings[k],
                sd,
                kk,
            ));
            assert(f1.points == f2.points);
        }
        assert(f1.uvs =~= f2.uvs);
        assert(f1 == f2);
    };
    assert forall|k: int, j: int|
        0 <= k < m1.spec_tunnels().len() && 0 <= j < m1.spec_tunnels()[
            k
        ].spec_faces().len() implies (#[trigger] m1.spec_tunnels()[k].spec_faces()[j])@ == (
    m2.spec_tunnels()[k].spec_faces()[j])@ by {
        let e1 = m1.spec_tunnels()[k];
        let e2 = m2.spec_tunnels()[k];
        assert(tunnel_env_matches(s, s.tunnels[k], e1));
        assert(tunnel_env_matches(s, s.tunnels[k], e2));
        let t = s.tunnels[k];
        let dir = crate::vec3::normalize_spec(
            crate::vec3::sub_v(
                crate::skeleton::connector_point_spec(s, t.end_connector),
                crate::skeleton::connector_point_spec(s, t.start_connector),
            ),
        );
        let scp = crate::skeleton::connector_coupler_point_spec(
            s,
            t.start_connector,
            crate::skeleton::connector_point_spec(s, t.end_connector),
        );
        let su = crate::skeleton::connector_up_spec(s, t.start_connector);
        let ecp = crate::skeleton::connector_coupler_point_spec(
            s,
            t.end_connector,
            crate::skeleton::connector_point_spec(s, t.start_connector),
        );
        let eu = crate::skeleton::connector_up_spec(s, t.end_connector);
        assert(crate::environment::tunnel_walls_match(e1.spec_faces(), scp, su, ecp, eu, dir));
        assert(crate::environment::tunnel_walls_match(e2.spec_faces(), scp, su, ecp, eu, dir));
        let f1 = e1.spec_faces()[j]@;
        let f2 = e2.spec_faces()[j]@;
        let g0 = crate::environment::frame_spec(scp, su, ecp, eu, dir, j / 8);
        let g1 = crate::environment::frame_spec(scp, su, ecp, eu, dir, j / 8 + 1);
        assert(f1.points == crate::environment::tunnel_wall_points(g0, g1, j % 8));
        assert(f2.points == crate::environment::tunnel_wall_points(g0, g1, j % 8));
        assert(f1.uvs == crate::environment::tunnel_wall_uvs(g0, g1, j % 8));
        assert(f2.uvs == crate::environment::tunnel_wall_uvs(g0, g1, j % 8));
        assert(f1 == f2);
    };
    assert forall|k: int, j: int|
        0 <= k < m1.spec_dead_ends().len() && 0 <= j < m1.spec_dead_ends()[
            k
        ].spec_faces().len() implies (#[trigger] m1.spec_dead_ends()[k].spec_faces()[j])@ == (
    m2.spec_dead_ends()[k].spec_faces()[j])@ by {
        let e1 = m1.spec_dead_ends()[k];
        let e2 = m2.spec_dead_ends()[k];
        assert(dead_end_env_matches(s, s.dead_ends[k], e1));
        assert(dead_end_env_matches(s, s.dead_ends[k], e2));
        let f1 = e1.spec_faces()[j]@;
        let f2 = e2.spec_faces()[j]@;
        assert(j == 0);
        assert(f1.points == f2.points);
        assert(f1.uvs =~= f2.uvs);
        assert(f1 == f2);
    };
}

} // verus!
