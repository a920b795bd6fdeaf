//! The abstract maze: landings, dead ends and tunnels as single points and
//! edges, held in index arenas.  This is what the generator builds and the
//! realizer consumes.

use vstd::prelude::*;

use crate::params::{GEN_LIMIT, LANDING_RADIUS_FIX};
use crate::fixed::SCALE;
use crate::vec3::{add_v, bounded, normalize_spec, scale_v, sub_v, unit_scaled, Vec3, V3};

verus! {

/// A node a tunnel end can attach to, by arena index.
#[derive(Clone, Copy, Debug, PartialEq, Eq, Structural)]
pub enum ConnectorIdentifier {
    Landing(usize),
    DeadEnd(usize),
}

/// A realized room or corridor, by arena index.
#[derive(Clone, Copy, Debug, PartialEq, Eq, Structural)]
pub enum EnvironmentIdentifier {
    Tunnel(usize),
    Landing(usize),
    DeadEnd(usize),
}

impl ConnectorIdentifier {
    pub open spec fn environment_identifier_spec(self) -> EnvironmentIdentifier {
        match self {
            ConnectorIdentifier::Landing(id) => EnvironmentIdentifier::Landing(id),
            ConnectorIdentifier::DeadEnd(id) => EnvironmentIdentifier::DeadEnd(id),
        }
    }

    /// The environment a camera is in after crossing a tunnel's end cap on
    /// this connector's side.
    pub fn environment_identifier(&self) -> (r: EnvironmentIdentifier)
        ensures
            r == self.environment_identifier_spec(),
    {
        match self {
            ConnectorIdentifier::Landing(id) => EnvironmentIdentifier::Landing(*id),
            ConnectorIdentifier::DeadEnd(id) => EnvironmentIdentifier::DeadEnd(*id),
        }
    }
}

/// Violations of the maze's modeling invariants.  Each indicates a
/// geometrically inconsistent maze; they surface as errors, and the
/// contracts say exactly when each arises.
#[derive(Clone, Copy, Debug, PartialEq, Eq, Structural)]
pub enum MazeError {
    /// A dead end was asked to accept a second tunnel.
    DeadEndOccupied,
    /// A landing was realized with fewer than two tunnels.
    TooFewTunnels,
    /// A dead end was realized with no tunnel.
    SingleTunnelRequired,
    /// Two doors of a landing are closer than the minimum bearing gap.
    TunnelsTooClose,
    /// A coupler's up vector is not perpendicular to its tunnel.
    CouplerNotPerpendicular,
}

/// The point and orientation a tunnel end actually attaches to.
#[derive(Clone, Copy, Debug)]
pub struct Coupler {
    pub point: Vec3,
    pub up: Vec3,
}

/// A junction room: a point, its local vertical, and the tunnels that meet
/// there, in creation order.
#[derive(Debug)]
pub struct Landing {
    pub id: usize,
    pub up: Vec3,
    pub point: Vec3,
    pub tunnel_ids: Vec<usize>,
}

/// A terminal room: a point, its local vertical, and at most one tunnel.
#[derive(Debug)]
pub struct DeadEnd {
    pub id: usize,
    pub up: Vec3,
    pub point: Vec3,
    pub tunnel_id: Option<usize>,
}

/// An edge of the maze: the two connectors it joins.
#[derive(Clone, Copy, Debug, PartialEq, Eq, Structural)]
pub struct Tunnel {
    pub start_connector: ConnectorIdentifier,
    pub end_connector: ConnectorIdentifier,
}

/// The mathematical shadow of a landing.
pub struct LandingV {
    pub id: int,
    pub point: V3,
    pub up: V3,
    pub tunnel_ids: Seq<int>,
}

/// The mathematical shadow of a dead end.
pub struct DeadEndV {
    pub id: int,
    pub point: V3,
    pub up: V3,
    pub tunnel_id: Option<int>,
}

impl View for Landing {
    type V = LandingV;

    open spec fn view(&self) -> LandingV {
        LandingV {
            id: self.id as int,
            point: self.point@,
            up: self.up@,
            tunnel_ids: self.tunnel_ids@.map_values(|t: usize| t as int),
        }
    }
}

impl View for DeadEnd {
    type V = DeadEndV;

    open spec fn view(&self) -> DeadEndV {
        DeadEndV {
            id: self.id as int,
            point: self.point@,
            up: self.up@,
            tunnel_id: match self.tunnel_id {
                Some(t) => Some(t as int),
                None => None,
            },
        }
    }
}

/// The coupler a landing offers a tunnel toward `other`: offset
/// `LANDING_RADIUS` from the landing's center along the tunnel direction,
/// with the landing's own up.
pub open spec fn landing_coupler_point(point: V3, other: V3) -> V3 {
    add_v(point, scale_v(LANDING_RADIUS_FIX as int, normalize_spec(sub_v(other, point))))
}

impl Landing {
    pub fn new(id: usize, point: Vec3, up: Vec3) -> (r: Landing)
        ensures
            r@.id == id as int,
            r@.point == point@,
            r@.up == up@,
            r@.tunnel_ids == Seq::<int>::empty(),
    {
        let r = Landing { id, point, up, tunnel_ids: Vec::new() };
        proof {
            assert(r@.tunnel_ids =~= Seq::<int>::empty());
        }
        r
    }

    /// The tunnels that meet at this landing, in creation order.
    pub fn tunnel_ids(&self) -> (r: &Vec<usize>)
        ensures
            r@.map_values(|t: usize| t as int) == self@.tunnel_ids,
    {
        &self.tunnel_ids
    }

    /// Record one more incident tunnel.
    pub fn add_tunnel(&mut self, tunnel_id: usize)
        ensures
            final(self)@.id == old(self)@.id,
            final(self)@.point == old(self)@.point,
            final(self)@.up == old(self)@.up,
            final(self)@.tunnel_ids == old(self)@.tunnel_ids.push(tunnel_id as int),
    {
        self.tunnel_ids.push(tunnel_id);
        proof {
            assert(self@.tunnel_ids =~= old(self)@.tunnel_ids.push(tunnel_id as int));
        }
    }

    /// Where a tunnel toward `other_tunnel_end` attaches.
    pub fn coupler(&self, other_tunnel_end: &Vec3) -> (r: Coupler)
        requires
            bounded(self@.point, GEN_LIMIT as int),
            bounded(other_tunnel_end@, GEN_LIMIT as int),
        ensures
            r.point@ == landing_coupler_point(self@.point, other_tunnel_end@),
            r.up@ == self@.up,
            bounded(r.point@, GEN_LIMIT + 8 * SCALE),
    {
        let tunnel_dir = other_tunnel_end.sub(&self.point).normalize();
        let coupler_point = self.point.add(&tunnel_dir.scale(LANDING_RADIUS_FIX));
        Coupler { point: coupler_point, up: self.up }
    }
}

impl DeadEnd {
    pub fn new(id: usize, point: Vec3, up: Vec3) -> (r: DeadEnd)
        ensures
            r@.id == id as int,
            r@.point == point@,
            r@.up == up@,
            r@.tunnel_id is None,
    {
        DeadEnd { id, point, up, tunnel_id: None }
    }

    /// The single tunnel of this dead end, if one is attached yet.
    pub fn tunnel_id(&self) -> (r: Option<usize>)
        ensures
            match r {
                Some(t) => self@.tunnel_id == Some(t as int),
                None => self@.tunnel_id is None,
            },
    {
        self.tunnel_id
    }

    /// Attach the dead end's single tunnel.  A dead end may never gain a
    /// second tunnel: a second attempt fails and changes nothing.
    pub fn add_tunnel(&mut self, tunnel_id: usize) -> (r: Result<(), MazeError>)
        ensures
            final(self)@.id == old(self)@.id,
            final(self)@.point == old(self)@.point,
            final(self)@.up == old(self)@.up,
            old(self)@.tunnel_id is None ==> r is Ok && final(self)@.tunnel_id == Some(
                tunnel_id as int,
            ),
            old(self)@.tunnel_id is Some ==> r == Result::<(), MazeError>::Err(
                MazeError::DeadEndOccupied,
            ) && final(self)@.tunnel_id == old(self)@.tunnel_id,
    {
        match self.tunnel_id {
            Some(_) => Err(MazeError::DeadEndOccupied),
            None => {
                self.tunnel_id = Some(tunnel_id);
                Ok(())
            },
        }
    }

    /// A tunnel attaches directly at the dead end's own point.
    pub fn coupler(&self) -> (r: Coupler)
        ensures
            r.point@ == self@.point,
            r.up@ == self@.up,
    {
        Coupler { point: self.point, up: self.up }
    }
}

/// The mathematical shadow of the whole skeleton.
pub struct SkelV {
    pub landings: Seq<LandingV>,
    pub dead_ends: Seq<DeadEndV>,
    pub tunnels: Seq<Tunnel>,
}

/// The abstract maze: all landings, dead ends and tunnels by index.
#[derive(Debug)]
pub struct MazeSkeleton {
    pub landings: Vec<Landing>,
    pub dead_ends: Vec<DeadEnd>,
    pub tunnels: Vec<Tunnel>,
}

impl View for MazeSkeleton {
    type V = SkelV;

    open spec fn view(&self) -> SkelV {
        SkelV {
            landings: self.landings@.map_values(|l: Landing| l@),
            dead_ends: self.dead_ends@.map_values(|d: DeadEnd| d@),
            tunnels: self.tunnels@,
        }
    }
}

pub open spec fn connector_valid(s: SkelV, c: ConnectorIdentifier) -> bool {
    match c {
        ConnectorIdentifier::Landing(i) => (i as int) < s.landings.len(),
        ConnectorIdentifier::DeadEnd(i) => (i as int) < s.dead_ends.len(),
    }
}

pub open spec fn connector_point_spec(s: SkelV, c: ConnectorIdentifier) -> V3 {
    match c {
        ConnectorIdentifier::Landing(i) => s.landings[i as int].point,
        ConnectorIdentifier::DeadEnd(i) => s.dead_ends[i as int].point,
    }
}

pub open spec fn connector_up_spec(s: SkelV, c: ConnectorIdentifier) -> V3 {
    match c {
        ConnectorIdentifier::Landing(i) => s.landings[i as int].up,
        ConnectorIdentifier::DeadEnd(i) => s.dead_ends[i as int].up,
    }
}

/// The coupler a connector offers a tunnel whose far end is at `other`.
pub open spec fn connector_coupler_point_spec(s: SkelV, c: ConnectorIdentifier, other: V3) -> V3 {
    match c {
        ConnectorIdentifier::Landing(i) => landing_coupler_point(s.landings[i as int].point, other),
        ConnectorIdentifier::DeadEnd(i) => s.dead_ends[i as int].point,
    }
}

/// Arena consistency: ids equal indices, node geometry is in range, and all
/// cross-references point at existing entries.
pub open spec fn skel_wf(s: SkelV) -> bool {
    &&& forall|i: int|
        0 <= i < s.landings.len() ==> {
            &&& (#[trigger] s.landings[i]).id == i
            &&& bounded(s.landings[i].point, GEN_LIMIT as int)
            &&& unit_scaled(s.landings[i].up)
            &&& s.landings[i].tunnel_ids.len() <= s.tunnels.len()
            &&& forall|j: int|
                0 <= j < s.landings[i].tunnel_ids.len() ==> 0 <= #[trigger] s.landings[
                    i
                ].tunnel_ids[j] < s.tunnels.len()
        }
    &&& forall|i: int|
        0 <= i < s.dead_ends.len() ==> {
            &&& (#[trigger] s.dead_ends[i]).id == i
            &&& bounded(s.dead_ends[i].point, GEN_LIMIT as int)
            &&& unit_scaled(s.dead_ends[i].up)
            &&& (s.dead_ends[i].tunnel_id matches Some(t) ==> 0 <= t < s.tunnels.len())
        }
    &&& forall|i: int|
        0 <= i < s.tunnels.len() ==> connector_valid(s, (#[trigger] s.tunnels[i]).start_connector)
            && connector_valid(s, s.tunnels[i].end_connector)
}

/// Appending a landing, as a value transform.
pub open spec fn skel_add_landing(s: SkelV, point: V3, up: V3) -> SkelV {
    SkelV {
        landings: s.landings.push(
            LandingV { id: s.landings.len() as int, point, up, tunnel_ids: Seq::empty() },
        ),
        dead_ends: s.dead_ends,
        tunnels: s.tunnels,
    }
}

/// Appending a dead end, as a value transform.
pub open spec fn skel_add_dead_end(s: SkelV, point: V3, up: V3) -> SkelV {
    SkelV {
        landings: s.landings,
        dead_ends: s.dead_ends.push(
            DeadEndV { id: s.dead_ends.len() as int, point, up, tunnel_id: None },
        ),
        tunnels: s.tunnels,
    }
}

/// Recording tunnel `tid` on one connector, as a value transform.
pub open spec fn skel_attach(s: SkelV, c: ConnectorIdentifier, tid: int) -> SkelV {
    match c {
        ConnectorIdentifier::Landing(i) => SkelV {
            landings: s.landings.update(
                i as int,
                LandingV {
                    id: s.landings[i as int].id,
                    point: s.landings[i as int].point,
                    up: s.landings[i as int].up,
                    tunnel_ids: s.landings[i as int].tunnel_ids.push(tid),
                },
            ),
            dead_ends: s.dead_ends,
            tunnels: s.tunnels,
        },
        ConnectorIdentifier::DeadEnd(i) => SkelV {
            landings: s.landings,
            dead_ends: s.dead_ends.update(
                i as int,
                DeadEndV {
                    id: s.dead_ends[i as int].id,
                    point: s.dead_ends[i as int].point,
                    up: s.dead_ends[i as int].up,
                    tunnel_id: Some(tid),
                },
            ),
            tunnels: s.tunnels,
        },
    }
}

/// Appending a tunnel and wiring both of its connectors.
pub open spec fn skel_add_tunnel(s: SkelV, start: ConnectorIdentifier,
    end: ConnectorIdentifier) -> SkelV {
    let tid = s.tunnels.len() as int;
    let s1 = SkelV {
        landings: s.landings,
        dead_ends: s.dead_ends,
        tunnels: s.tunnels.push(Tunnel { start_connector: start, end_connector: end }),
    };
    skel_attach(skel_attach(s1, start, tid), end, tid)
}

/// A dead end that already has its tunnel cannot take another.
pub open spec fn dead_end_occupied(s: SkelV, c: ConnectorIdentifier) -> bool {
    c matches ConnectorIdentifier::DeadEnd(i) && s.dead_ends[i as int].tunnel_id is Some
}

/// A borrowed connector: the node a tunnel end attaches to.
pub enum ConnectorRef<'a> {
    Landing(&'a Landing),
    DeadEnd(&'a DeadEnd),
}

impl<'a> ConnectorRef<'a> {
    /// The connector's center point.
    pub fn point(&self) -> (r: Vec3)
        ensures
            match *self {
                ConnectorRef::Landing(l) => r@ == l@.point,
                ConnectorRef::DeadEnd(d) => r@ == d@.point,
            },
    {
        match self {
            ConnectorRef::Landing(l) => l.point,
            ConnectorRef::DeadEnd(d) => d.point,
        }
    }

    /// Where a tunnel whose far end is at `other_tunnel_end` attaches.
    pub fn coupler(&self, other_tunnel_end: &Vec3) -> (r: Coupler)
        requires
            self matches ConnectorRef::Landing(l) ==> bounded(l@.point, GEN_LIMIT as int),
            bounded(other_tunnel_end@, GEN_LIMIT as int),
        ensures
            match *self {
                ConnectorRef::Landing(l) => r.point@ == landing_coupler_point(
                    l@.point,
                    other_tunnel_end@,
                ) && r.up@ == l@.up,
                ConnectorRef::DeadEnd(d) => r.point@ == d@.point && r.up@ == d@.up,
            },
    {
        match self {
            ConnectorRef::Landing(l) => l.coupler(other_tunnel_end),
            ConnectorRef::DeadEnd(d) => d.coupler(),
        }
    }
}

impl MazeSkeleton {
    pub fn new() -> (r: MazeSkeleton)
        ensures
            r@.landings == Seq::<LandingV>::empty(),
            r@.dead_ends == Seq::<DeadEndV>::empty(),
            r@.tunnels == Seq::<Tunnel>::empty(),
            skel_wf(r@),
    {
        let r = MazeSkeleton { landings: Vec::new(), dead_ends: Vec::new(), tunnels: Vec::new() };
        proof {
            assert(r@.landings =~= Seq::<LandingV>::empty());
            assert(r@.dead_ends =~= Seq::<DeadEndV>::empty());
        }
        r
    }

    /// Append a new landing and return its identifier.
    pub fn add_landing(&mut self, location: Vec3, up: Vec3) -> (r: ConnectorIdentifier)
        requires
            skel_wf(old(self)@),
            bounded(location@, GEN_LIMIT as int),
            unit_scaled(up@),
            old(self)@.landings.len() < usize::MAX,
        ensures
            final(self)@ == skel_add_landing(old(self)@, location@, up@),
            skel_wf(final(self)@),
            r == ConnectorIdentifier::Landing(old(self)@.landings.len() as usize),
    {
        let id = self.landings.len();
        let landing = Landing::new(id, location, up);
        self.landings.push(landing);
        proof {
            assert(self@.landings =~= skel_add_landing(old(self)@, location@, up@).landings);
        }
        ConnectorIdentifier::Landing(id)
    }

    /// Append a new dead end and return its identifier.
    pub fn add_dead_end(&mut self, location: Vec3, up: Vec3) -> (r: ConnectorIdentifier)
        requires
            skel_wf(old(self)@),
            bounded(location@, GEN_LIMIT as int),
            unit_scaled(up@),
            old(self)@.dead_ends.len() < usize::MAX,
        ensures
            final(self)@ == skel_add_dead_end(old(self)@, location@, up@),
            skel_wf(final(self)@),
            r == ConnectorIdentifier::DeadEnd(old(self)@.dead_ends.len() as usize),
    {
        let id = self.dead_ends.len();
        let dead_end = DeadEnd::new(id, location, up);
        self.dead_ends.push(dead_end);
        proof {
            assert(self@.dead_ends =~= skel_add_dead_end(old(self)@, location@, up@).dead_ends);
        }
        ConnectorIdentifier::DeadEnd(id)
    }

    /// Append a tunnel between two distinct connectors and record it on
    /// both.  Fails, changing nothing, exactly when an endpoint is a dead
    /// end that already has its tunnel.  A tunnel joins two different
    /// nodes by construction; a self-loop is a modeling error and is
    /// excluded by contract.
    pub fn add_tunnel(&mut self, start_connector: ConnectorIdentifier,
        end_connector: ConnectorIdentifier) -> (r: Result<usize, MazeError>)
        requires
            skel_wf(old(self)@),
            connector_valid(old(self)@, start_connector),
            connector_valid(old(self)@, end_connector),
            start_connector != end_connector,
            old(self)@.tunnels.len() < usize::MAX,
        ensures
            skel_wf(final(self)@),
            dead_end_occupied(old(self)@, start_connector) || dead_end_occupied(
                old(self)@,
                end_connector,
            ) ==> r == Result::<usize, MazeError>::Err(MazeError::DeadEndOccupied) && final(self)@
                == old(self)@,
            !(dead_end_occupied(old(self)@, start_connector) || dead_end_occupied(
                old(self)@,
                end_connector,
            )) ==> r == Result::<usize, MazeError>::Ok(old(self)@.tunnels.len() as usize)
                && final(self)@ == skel_add_tunnel(old(self)@, start_connector, end_connector),
    {
        let occupied_start = match start_connector {
            ConnectorIdentifier::DeadEnd(i) => self.dead_ends[i].tunnel_id().is_some(),
            _ => false,
        };
        let occupied_end = match end_connector {
            ConnectorIdentifier::DeadEnd(i) => self.dead_ends[i].tunnel_id().is_some(),
            _ => false,
        };
        if occupied_start || occupied_end {
            return Err(MazeError::DeadEndOccupied);
        }
        let new_tunnel_id = self.tunnels.len();
        self.tunnels.push(Tunnel { start_connector, end_connector });
        let ghost s1 = self@;
        match start_connector {
            ConnectorIdentifier::Landing(i) => {
                let l = &mut self.landings[i];
                l.add_tunnel(new_tunnel_id);
            },
            ConnectorIdentifier::DeadEnd(i) => {
                let d = &mut self.dead_ends[i];
                let res = d.add_tunnel(new_tunnel_id);
                if res.is_err() {
                    return Err(MazeError::DeadEndOccupied);
                }
            },
        }
        proof {
            assert(self@.landings =~= skel_attach(s1, start_connector,
                new_tunnel_id as int).landings);
            assert(self@.dead_ends =~= skel_attach(s1, start_connector,
                new_tunnel_id as int).dead_ends);
        }
        let ghost s2 = self@;
        match end_connector {
            ConnectorIdentifier::Landing(i) => {
                let l = &mut self.landings[i];
                l.add_tunnel(new_tunnel_id);
            },
            ConnectorIdentifier::DeadEnd(i) => {
                let d = &mut self.dead_ends[i];
                let res = d.add_tunnel(new_tunnel_id);
                if res.is_err() {
                    return Err(MazeError::DeadEndOccupied);
                }
            },
        }
        proof {
            assert(self@.landings =~= skel_attach(s2, end_connector,
                new_tunnel_id as int).landings);
            assert(self@.dead_ends =~= skel_attach(s2, end_connector,
                new_tunnel_id as int).dead_ends);
            assert(self@ == skel_add_tunnel(old(self)@, start_connector, end_connector));
        }
        Ok(new_tunnel_id)
    }

    /// Fetch a connector by identifier, dispatching on its kind.
    pub fn get_connector(&self, c: ConnectorIdentifier) -> (r: ConnectorRef)
        requires
            connector_valid(self@, c),
        ensures
            match c {
                ConnectorIdentifier::Landing(i) => r matches ConnectorRef::Landing(l) && l@
                    == self@.landings[i as int],
                ConnectorIdentifier::DeadEnd(i) => r matches ConnectorRef::DeadEnd(d) && d@
                    == self@.dead_ends[i as int],
            },
    {
        match c {
            ConnectorIdentifier::Landing(i) => {
                proof {
                    assert(self.landings@[i as int]@ == self@.landings[i as int]);
                }
                ConnectorRef::Landing(&self.landings[i])
            },
            ConnectorIdentifier::DeadEnd(i) => {
                proof {
                    assert(self.dead_ends@[i as int]@ == self@.dead_ends[i as int]);
                }
                ConnectorRef::DeadEnd(&self.dead_ends[i])
            },
        }
    }

    /// Fetch a connector's center point.
    pub fn connector_point(&self, c: ConnectorIdentifier) -> (r: Vec3)
        requires
            connector_valid(self@, c),
        ensures
            r@ == connector_point_spec(self@, c),
    {
        match c {
            ConnectorIdentifier::Landing(i) => self.landings[i].point,
            ConnectorIdentifier::DeadEnd(i) => self.dead_ends[i].point,
        }
    }

    /// Fetch the coupler a connector offers a tunnel whose far end is at
    /// `other_tunnel_end`.
    pub fn connector_coupler(&self, c: ConnectorIdentifier, other_tunnel_end: &Vec3) -> (r:
        Coupler)
        requires
            skel_wf(self@),
            connector_valid(self@, c),
            bounded(other_tunnel_end@, GEN_LIMIT as int),
        ensures
            r.point@ == connector_coupler_point_spec(self@, c, other_tunnel_end@),
            r.up@ == connector_up_spec(self@, c),
            bounded(r.point@, GEN_LIMIT + 8 * SCALE),
            unit_scaled(r.up@),
    {
        match c {
            ConnectorIdentifier::Landing(i) => {
                proof {
                    assert(self.landings@[i as int]@ == self@.landings[i as int]);
                }
                self.landings[i].coupler(other_tunnel_end)
            },
            ConnectorIdentifier::DeadEnd(i) => {
                proof {
                    assert(self.dead_ends@[i as int]@ == self@.dead_ends[i as int]);
                }
                self.dead_ends[i].coupler()
            },
        }
    }
}

} // verus!
