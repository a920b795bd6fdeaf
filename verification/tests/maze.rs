use maze_engine::maze::Maze;
use maze_engine::nav::{navigate, NavOutcome};
use maze_engine::face::Face;
use maze_engine::realize::gap_exceeds_min_exec;
use maze_engine::rng::SeededRng;
use maze_engine::skeleton::{ConnectorIdentifier, EnvironmentIdentifier};
use maze_engine::vec3::Vec3;
use rand::RngCore;
use rand::SeedableRng;

const S: i64 = 65536;

#[test]
fn test_generation() {
    let mut rng = rand::thread_rng();
    for _ in 0..100 {
        Maze::generate(rng.next_u32()).unwrap();
    }
}

#[test]
fn test_generation_deterministic() {
    // The same seed yields the same maze: identical counts and identical
    // flattened geometry, bit for bit.
    let m1 = Maze::generate(42).unwrap();
    let m2 = Maze::generate(42).unwrap();
    assert_eq!(m1.landings().len(), m2.landings().len());
    assert_eq!(m1.tunnels().len(), m2.tunnels().len());
    assert_eq!(m1.dead_ends().len(), m2.dead_ends().len());
    let (p1, n1, u1) = m1.render_buffers();
    let (p2, n2, u2) = m2.render_buffers();
    assert_eq!(p1, p2);
    assert_eq!(n1, n2);
    assert_eq!(u1, u2);
}

#[test]
fn test_word_stream_matches_generator() {
    // The word source reads the ChaCha8 stream of the seed at increasing
    // positions: it must agree with the generator read sequentially.
    let mut ours = SeededRng::new(9);
    let mut reference = rand_chacha::ChaCha8Rng::seed_from_u64(9);
    for _ in 0..8 {
        assert_eq!(ours.next_word(), reference.next_u32());
    }
}

fn connector_point(maze: &Maze, c: ConnectorIdentifier) -> Vec3 {
    match c {
        ConnectorIdentifier::Landing(i) => maze.landings()[i].landing().point,
        ConnectorIdentifier::DeadEnd(i) => maze.dead_ends()[i].dead_end().point,
    }
}

fn connector_up(maze: &Maze, c: ConnectorIdentifier) -> Vec3 {
    match c {
        ConnectorIdentifier::Landing(i) => maze.landings()[i].landing().up,
        ConnectorIdentifier::DeadEnd(i) => maze.dead_ends()[i].dead_end().up,
    }
}

#[test]
fn test_seed_one_start_landing() {
    // Seed 1: the start landing sits at the origin with up (0, 1, 0), has
    // exactly three incident tunnels, and each runs a length within the
    // sampled range (20 to 60 units, up to fixed-point rounding).
    let maze = Maze::generate(1).unwrap();
    let start = maze.landings()[0].landing();
    assert_eq!(start.point, Vec3::new(0, 0, 0));
    assert_eq!(start.up, Vec3::new(0, S, 0));
    assert_eq!(start.tunnel_ids().len(), 3);
    for &tid in start.tunnel_ids() {
        let tunnel = *maze.tunnels()[tid].tunnel();
        let a = connector_point(&maze, tunnel.start_connector);
        let b = connector_point(&maze, tunnel.end_connector);
        let dx = (a.x - b.x) as f64 / S as f64;
        let dy = (a.y - b.y) as f64 / S as f64;
        let dz = (a.z - b.z) as f64 / S as f64;
        let d = (dx * dx + dy * dy + dz * dz).sqrt();
        assert!(d >= 19.9 && d <= 60.1, "tunnel length {}", d);
    }
}

#[test]
fn test_angular_gaps_exceed_minimum() {
    // Every realized landing's circularly-adjacent door mouths are
    // separated by more than the minimum angle.
    let maze = Maze::generate(7).unwrap();
    for env in maze.landings() {
        let doors = env.doors();
        let n = doors.len();
        assert!(n >= 2);
        for k in 0..n {
            let k2 = if k + 1 == n { 0 } else { k + 1 };
            assert!(gap_exceeds_min_exec(&doors[k], &doors[k2]));
        }
    }
}

#[test]
fn test_coupler_perpendicularity() {
    // For every tunnel, both end couplers' up vectors are perpendicular to
    // the tunnel's line, within the model's resolution.
    let maze = Maze::generate(3).unwrap();
    for env in maze.tunnels() {
        let tunnel = *env.tunnel();
        let a = connector_point(&maze, tunnel.start_connector);
        let b = connector_point(&maze, tunnel.end_connector);
        let tv = Vec3::new(b.x - a.x, b.y - a.y, b.z - a.z);
        for up in [
            connector_up(&maze, tunnel.start_connector),
            connector_up(&maze, tunnel.end_connector),
        ] {
            let dot = (up.x as i128) * (tv.x as i128) + (up.y as i128) * (tv.y as i128)
                + (up.z as i128) * (tv.z as i128);
            let nu = (up.x as i128) * (up.x as i128) + (up.y as i128) * (up.y as i128)
                + (up.z as i128) * (up.z as i128);
            let nv = (tv.x as i128) * (tv.x as i128) + (tv.y as i128) * (tv.y as i128)
                + (tv.z as i128) * (tv.z as i128);
            assert!(1024 * dot * dot < nu * nv, "dot {} nu {} nv {}", dot, nu, nv);
        }
    }
}

fn solid_square() -> Face {
    Face::new(vec![
        Vec3::new(0, 0, 0),
        Vec3::new(S, 0, 0),
        Vec3::new(S, S, 0),
        Vec3::new(0, S, 0),
    ])
}

#[test]
fn test_navigation_handoff() {
    // A movement crossing a known exit face reports the environment behind
    // it, regardless of any nearby solid face.
    let faces = vec![solid_square()];
    let exits = vec![(EnvironmentIdentifier::Tunnel(5), solid_square())];
    let outcome = navigate(
        &faces,
        &exits,
        &Vec3::new(S / 2, S / 2, S),
        &Vec3::new(S / 2, S / 2, -S),
    );
    assert_eq!(outcome, NavOutcome::Handoff(EnvironmentIdentifier::Tunnel(5)));
}

#[test]
fn test_navigation_blocked() {
    // A movement that crosses no exit but ends within 0.1 units of a solid
    // face is rejected.
    let faces = vec![solid_square()];
    let exits: Vec<(EnvironmentIdentifier, Face)> = Vec::new();
    let outcome = navigate(
        &faces,
        &exits,
        &Vec3::new(S / 2, S / 2, S),
        &Vec3::new(S / 2, S / 2, 3277),
    );
    assert_eq!(outcome, NavOutcome::Blocked);
}

#[test]
fn test_navigation_blocked_by_crossing() {
    // A movement that passes straight through a wall is blocked even if
    // every sampled point along it is far from the wall.
    let wall = Face::new(vec![
        Vec3::new(S, 0, 0),
        Vec3::new(S, S, 0),
        Vec3::new(S, S, S),
        Vec3::new(S, 0, S),
    ]);
    let faces = vec![wall];
    let exits: Vec<(EnvironmentIdentifier, Face)> = Vec::new();
    let outcome = navigate(
        &faces,
        &exits,
        &Vec3::new(0, S / 2, S / 2),
        &Vec3::new(4 * S, S / 2, S / 2),
    );
    assert_eq!(outcome, NavOutcome::Blocked);
}

#[test]
fn test_navigation_moved() {
    // A movement far from every face is accepted.
    let faces = vec![solid_square()];
    let exits: Vec<(EnvironmentIdentifier, Face)> = Vec::new();
    let outcome = navigate(
        &faces,
        &exits,
        &Vec3::new(S / 2, S / 2, 2 * S),
        &Vec3::new(S / 2, S / 2, S),
    );
    assert_eq!(outcome, NavOutcome::Moved);
}

#[test]
fn test_maze_navigate_tick() {
    // Inside a generated maze, a tiny movement at the start landing's
    // center is accepted in place; the environment does not change.
    let maze = Maze::generate(1).unwrap();
    let start = maze.landings()[0].landing().point;
    let current = EnvironmentIdentifier::Landing(0);
    let up_off = Vec3::new(start.x, start.y + S, start.z);
    let target = Vec3::new(start.x + 100, start.y + S, start.z);
    let (env, pos) = maze.navigate(current, &up_off, &target);
    assert_eq!(env, current);
    assert_eq!(pos, target);
}

#[test]
fn test_maze_navigate_handoff_through_door() {
    // Walking from the start landing's center straight through one of its
    // doors hands the camera to the tunnel behind that door and accepts
    // the move.
    let maze = Maze::generate(1).unwrap();
    let start_env = &maze.landings()[0];
    let start = start_env.landing().point;
    let door = start_env.doors()[0];
    // Three units along the door's bearing: past the landing circle
    // (radius two units) and through the door.
    let target = Vec3::new(
        start.x + 3 * door.towards.x,
        start.y + 3 * door.towards.y,
        start.z + 3 * door.towards.z,
    );
    let (env, pos) = maze.navigate(EnvironmentIdentifier::Landing(0), &start, &target);
    assert_eq!(pos, target);
    match env {
        EnvironmentIdentifier::Tunnel(t) => {
            assert!(start_env.landing().tunnel_ids().contains(&t));
        },
        other => panic!("expected a tunnel handoff, got {:?}", other),
    }
}

#[test]
fn test_render_buffers_aligned() {
    let maze = Maze::generate(5).unwrap();
    let (pts, norms, uvs) = maze.render_buffers();
    assert_eq!(pts.len(), norms.len());
    assert_eq!(pts.len() % 12, 0);
    assert_eq!(uvs.len() * 2, pts.len());
    assert!(pts.len() > 0);
    // Homogeneous coordinate: every fourth entry is one unit.
    for chunk in pts.chunks(4) {
        assert_eq!(chunk[3], S);
    }
}

#[test]
fn test_local_up_queries() {
    let maze = Maze::generate(2).unwrap();
    // In a landing the up is the landing's own.
    let l0 = maze.landings()[0].landing();
    let u = maze.up(EnvironmentIdentifier::Landing(0), &l0.point);
    assert_eq!(u, l0.up);
    // Inside a tunnel the up interpolates between the end couplers; at any
    // sampled point it stays unit-sized.
    let t = *maze.tunnels()[0].tunnel();
    let a = connector_point(&maze, t.start_connector);
    let b = connector_point(&maze, t.end_connector);
    let mid = Vec3::new((a.x + b.x) / 2, (a.y + b.y) / 2, (a.z + b.z) / 2);
    let u = maze.up(EnvironmentIdentifier::Tunnel(0), &mid);
    let nsq = (u.x as i128) * (u.x as i128) + (u.y as i128) * (u.y as i128) + (u.z as i128)
        * (u.z as i128);
    let target = (S as i128) * (S as i128);
    assert!((nsq - target).abs() <= 3 * (S as i128), "{:?}", u);
}
