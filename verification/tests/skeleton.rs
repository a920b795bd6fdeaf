use maze_engine::skeleton::{ConnectorIdentifier, DeadEnd, EnvironmentIdentifier, Landing,
    MazeError, MazeSkeleton};
use maze_engine::vec3::Vec3;

const S: i64 = 65536;

#[test]
fn test_environment_identifier_mapping() {
    assert_eq!(
        ConnectorIdentifier::Landing(3).environment_identifier(),
        EnvironmentIdentifier::Landing(3),
    );
    assert_eq!(
        ConnectorIdentifier::DeadEnd(7).environment_identifier(),
        EnvironmentIdentifier::DeadEnd(7),
    );
}

#[test]
fn test_dead_end_refuses_second_tunnel() {
    // A dead end takes exactly one tunnel; a second attempt fails and
    // changes nothing.
    let mut de = DeadEnd::new(0, Vec3::new(0, 0, 0), Vec3::new(0, S, 0));
    assert_eq!(de.tunnel_id(), None);
    assert!(de.add_tunnel(4).is_ok());
    assert_eq!(de.tunnel_id(), Some(4));
    assert_eq!(de.add_tunnel(5), Err(MazeError::DeadEndOccupied));
    assert_eq!(de.tunnel_id(), Some(4));
}

#[test]
fn test_skeleton_wiring() {
    let mut skel = MazeSkeleton::new();
    let a = skel.add_landing(Vec3::new(0, 0, 0), Vec3::new(0, S, 0));
    let b = skel.add_landing(Vec3::new(30 * S, 0, 0), Vec3::new(0, S, 0));
    let d = skel.add_dead_end(Vec3::new(0, 0, 30 * S), Vec3::new(0, S, 0));
    assert_eq!(a, ConnectorIdentifier::Landing(0));
    assert_eq!(b, ConnectorIdentifier::Landing(1));
    assert_eq!(d, ConnectorIdentifier::DeadEnd(0));

    let t0 = skel.add_tunnel(a, b).unwrap();
    let t1 = skel.add_tunnel(a, d).unwrap();
    assert_eq!(t0, 0);
    assert_eq!(t1, 1);
    assert_eq!(skel.landings[0].tunnel_ids(), &vec![0, 1]);
    assert_eq!(skel.landings[1].tunnel_ids(), &vec![0]);
    assert_eq!(skel.dead_ends[0].tunnel_id(), Some(1));

    // The dead end already has its tunnel: wiring another to it fails and
    // the arena is unchanged.
    let before = skel.tunnels.len();
    assert_eq!(skel.add_tunnel(b, d), Err(MazeError::DeadEndOccupied));
    assert_eq!(skel.tunnels.len(), before);
    assert_eq!(skel.dead_ends[0].tunnel_id(), Some(1));
}

#[test]
fn test_landing_coupler_offset() {
    // The coupler sits LANDING_RADIUS (2 units) from the center toward the
    // far end, carrying the landing's up.
    let l = Landing::new(0, Vec3::new(0, 0, 0), Vec3::new(0, S, 0));
    let c = l.coupler(&Vec3::new(40 * S, 0, 0));
    assert_eq!(c.point, Vec3::new(2 * S, 0, 0));
    assert_eq!(c.up, Vec3::new(0, S, 0));
}
