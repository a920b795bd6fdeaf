use maze_engine::face::{Face, UVPair, UVec2};
use maze_engine::vec3::Vec3;

const S: i64 = 65536;

fn square_points() -> Vec<Vec3> {
    vec![
        Vec3::new(0, 0, 0),
        Vec3::new(S, 0, 0),
        Vec3::new(S, S, 0),
        Vec3::new(0, S, 0),
    ]
}

#[test]
fn test_fan_triangulation_counts() {
    // An N-point face yields exactly N - 2 triangles, 3 vertices each.
    let f3 = Face::new(square_points()[..3].to_vec());
    assert_eq!(f3.break_into_triangles().len(), 3);
    let f4 = Face::new(square_points());
    assert_eq!(f4.break_into_triangles().len(), 6);
    let mut five = square_points();
    five.push(Vec3::new(-S, S / 2, 0));
    let f5 = Face::new(five);
    assert_eq!(f5.break_into_triangles().len(), 9);
    // The texture fan has the same shape, one coordinate per vertex.
    assert_eq!(f5.break_into_uv_triangles().len(), 9);
}

#[test]
fn test_fan_triangulation_order() {
    let f = Face::new(square_points());
    let tris = f.break_into_triangles();
    // Triangle 0: (p0, p1, p2); triangle 1: (p0, p2, p3).
    assert_eq!(tris[0], Vec3::new(0, 0, 0));
    assert_eq!(tris[1], Vec3::new(S, 0, 0));
    assert_eq!(tris[2], Vec3::new(S, S, 0));
    assert_eq!(tris[3], Vec3::new(0, 0, 0));
    assert_eq!(tris[4], Vec3::new(S, S, 0));
    assert_eq!(tris[5], Vec3::new(0, S, 0));
}

#[test]
fn test_normal_of_square() {
    // The normal is cross(p2 - p1, normalize(p1 - p0)): for this winding in
    // the XY plane it points along -Z, and reversing the winding flips it.
    let f = Face::new(square_points());
    let n = *f.normal();
    assert_eq!(n, Vec3::new(0, 0, -S));
    let mut rev = square_points();
    rev.reverse();
    let f = Face::new(rev);
    assert_eq!(*f.normal(), Vec3::new(0, 0, S));
}

#[test]
fn test_untextured_face_has_zero_uvs() {
    let f = Face::new(square_points());
    for uv in f.uvs() {
        assert_eq!(*uv, UVec2 { u: 0, v: 0 });
    }
}

#[test]
fn test_from_uv_pairs() {
    let pairs = vec![
        UVPair { point: Vec3::new(0, 0, 0), uv: UVec2 { u: 0, v: 0 } },
        UVPair { point: Vec3::new(S, 0, 0), uv: UVec2 { u: S, v: 0 } },
        UVPair { point: Vec3::new(S, S, 0), uv: UVec2 { u: S, v: S } },
    ];
    let f = Face::from_uv_pairs(pairs);
    assert_eq!(f.points().len(), 3);
    assert_eq!(f.uvs()[1], UVec2 { u: S, v: 0 });
    let uv_tris = f.break_into_uv_triangles();
    assert_eq!(uv_tris.len(), 3);
    assert_eq!(uv_tris[2], UVec2 { u: S, v: S });
}

#[test]
fn test_face_bounding_box() {
    let f = Face::new(vec![
        Vec3::new(-S, 0, S),
        Vec3::new(S, -S, 0),
        Vec3::new(0, S, -S),
    ]);
    let bb = f.bounding_box();
    assert_eq!(bb.min_pt, Vec3::new(-S, -S, -S));
    assert_eq!(bb.max_pt, Vec3::new(S, S, S));
}
