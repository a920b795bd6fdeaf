use maze_engine::environment::{DeadEndEnvironment, LandingEnvironment};
use maze_engine::skeleton::{EnvironmentIdentifier, MazeError, MazeSkeleton};
use maze_engine::vec3::Vec3;

const S: i64 = 65536;

#[test]
fn test_landing_with_too_few_tunnels_is_refused() {
    let mut skel = MazeSkeleton::new();
    skel.add_landing(Vec3::new(0, 0, 0), Vec3::new(0, S, 0));
    let r: Result<LandingEnvironment, MazeError> = skel.landings[0].to_environment(&skel);
    assert_eq!(r.err(), Some(MazeError::TooFewTunnels));
}

#[test]
fn test_dead_end_without_tunnel_is_refused() {
    let mut skel = MazeSkeleton::new();
    skel.add_dead_end(Vec3::new(0, 0, 0), Vec3::new(0, S, 0));
    let r: Result<DeadEndEnvironment, MazeError> = skel.dead_ends[0].to_environment(&skel);
    assert_eq!(r.err(), Some(MazeError::SingleTunnelRequired));
}

#[test]
fn test_doors_too_close_are_refused() {
    // Two tunnels leaving a landing at nearly the same bearing violate the
    // minimum door separation.
    let mut skel = MazeSkeleton::new();
    let a = skel.add_landing(Vec3::new(0, 0, 0), Vec3::new(0, S, 0));
    let b = skel.add_dead_end(Vec3::new(30 * S, 0, 0), Vec3::new(0, S, 0));
    let c = skel.add_dead_end(Vec3::new(30 * S, 0, S), Vec3::new(0, S, 0));
    skel.add_tunnel(a, b).unwrap();
    skel.add_tunnel(a, c).unwrap();
    let r = skel.landings[0].to_environment(&skel);
    assert_eq!(r.err(), Some(MazeError::TunnelsTooClose));
}

#[test]
fn test_widely_separated_doors_are_accepted() {
    let mut skel = MazeSkeleton::new();
    let a = skel.add_landing(Vec3::new(0, 0, 0), Vec3::new(0, S, 0));
    let b = skel.add_dead_end(Vec3::new(30 * S, 0, 0), Vec3::new(0, S, 0));
    let c = skel.add_dead_end(Vec3::new(-30 * S, 0, 0), Vec3::new(0, S, 0));
    skel.add_tunnel(a, b).unwrap();
    skel.add_tunnel(a, c).unwrap();
    let env = skel.landings[0].to_environment(&skel).unwrap();
    // Two doors: floor, ceiling and two walls, plus one exit per door.
    assert_eq!(env.faces().len(), 4);
    assert_eq!(env.exit_faces().len(), 2);
    let targets: Vec<EnvironmentIdentifier> = env.exit_faces().iter().map(|e| e.0).collect();
    assert!(targets.contains(&EnvironmentIdentifier::Tunnel(0)));
    assert!(targets.contains(&EnvironmentIdentifier::Tunnel(1)));
}

#[test]
fn test_tilted_coupler_is_refused() {
    // A dead end whose up leans along the tunnel line fails the
    // perpendicularity invariant.
    let mut skel = MazeSkeleton::new();
    let a = skel.add_dead_end(Vec3::new(0, 0, 0), Vec3::new(S, 0, 0));
    let b = skel.add_dead_end(Vec3::new(30 * S, 0, 0), Vec3::new(0, S, 0));
    skel.add_tunnel(a, b).unwrap();
    let tunnel = skel.tunnels[0];
    let r = tunnel.to_environment(&skel);
    assert_eq!(r.err(), Some(MazeError::CouplerNotPerpendicular));
}

#[test]
fn test_straight_tunnel_realizes() {
    // A straight tunnel between two well-oriented dead ends realizes into
    // eight triangles per subdivision and two exit caps.
    let mut skel = MazeSkeleton::new();
    let a = skel.add_dead_end(Vec3::new(0, 0, 0), Vec3::new(0, S, 0));
    let b = skel.add_dead_end(Vec3::new(30 * S, 0, 0), Vec3::new(0, S, 0));
    skel.add_tunnel(a, b).unwrap();
    let tunnel = skel.tunnels[0];
    let env = tunnel.to_environment(&skel).unwrap();
    assert_eq!(env.faces().len(), 160);
    assert_eq!(env.exit_faces().len(), 2);
    assert_eq!(env.exit_faces()[0].0, EnvironmentIdentifier::DeadEnd(0));
    assert_eq!(env.exit_faces()[1].0, EnvironmentIdentifier::DeadEnd(1));
    assert_eq!(env.start_coupler().point, Vec3::new(0, 0, 0));
    assert_eq!(env.end_coupler().point, Vec3::new(30 * S, 0, 0));
    // A straight tunnel with equal end ups keeps its up all along.
    let u = env.up(&Vec3::new(15 * S, 0, 0));
    assert_eq!(u, Vec3::new(0, S, 0));
}

#[test]
fn test_dead_end_environment_door() {
    let mut skel = MazeSkeleton::new();
    let a = skel.add_landing(Vec3::new(0, 0, 0), Vec3::new(0, S, 0));
    let b = skel.add_dead_end(Vec3::new(30 * S, 0, 0), Vec3::new(0, S, 0));
    let c = skel.add_dead_end(Vec3::new(-30 * S, 0, 0), Vec3::new(0, S, 0));
    skel.add_tunnel(a, b).unwrap();
    skel.add_tunnel(a, c).unwrap();
    let env = skel.dead_ends[0].to_environment(&skel).unwrap();
    assert_eq!(env.faces().len(), 1);
    assert_eq!(env.exit_faces().len(), 1);
    assert_eq!(env.exit_faces()[0].0, EnvironmentIdentifier::Tunnel(0));
    // The single door is both the room's one face and its exit.
    assert_eq!(env.faces()[0].points(), env.exit_faces()[0].1.points());
    assert_eq!(env.up(&Vec3::new(0, 0, 0)), Vec3::new(0, S, 0));
}
