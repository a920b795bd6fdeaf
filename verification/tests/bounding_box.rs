use maze_engine::bbox::BoundingBox;
use maze_engine::vec3::Vec3;

const S: i64 = 65536;

#[test]
fn test_construction() {
    let bb = BoundingBox::from_points(&[Vec3::new(0, 0, 0)]);
    assert_eq!(bb.min_pt, Vec3::new(0, 0, 0));
    assert_eq!(bb.max_pt, Vec3::new(0, 0, 0));

    let bb = BoundingBox::from_points(&[Vec3::new(-S, 0, 0), Vec3::new(S, S, S)]);
    assert_eq!(bb.min_pt, Vec3::new(-S, 0, 0));
    assert_eq!(bb.max_pt, Vec3::new(S, S, S));

    let bb = BoundingBox::from_points(&[
        Vec3::new(-S, 0, S),
        Vec3::new(S, -S, 0),
        Vec3::new(0, S, -S),
    ]);
    assert_eq!(bb.min_pt, Vec3::new(-S, -S, -S));
    assert_eq!(bb.max_pt, Vec3::new(S, S, S));
}

#[test]
fn test_intersection() {
    // The corners of these cubes touch.
    let bb1 = BoundingBox { min_pt: Vec3::new(0, 0, 0), max_pt: Vec3::new(S, S, S) };
    let bb2 = BoundingBox { min_pt: Vec3::new(S, S, S), max_pt: Vec3::new(2 * S, 2 * S, 2 * S) };
    assert!(bb1.intersects_with(&bb2));
    assert!(bb2.intersects_with(&bb1));

    // X and Y ranges overlap, but not Z.
    let bb1 = BoundingBox { min_pt: Vec3::new(0, 0, 0), max_pt: Vec3::new(S, S, S) };
    let bb2 = BoundingBox {
        min_pt: Vec3::new(0, 0, 2 * S),
        max_pt: Vec3::new(S, S, 3 * S),
    };
    assert!(!bb1.intersects_with(&bb2));
    assert!(!bb2.intersects_with(&bb1));

    // X range is fully within the other X range.
    let bb1 = BoundingBox { min_pt: Vec3::new(0, 0, 0), max_pt: Vec3::new(S, S, S) };
    let bb2 = BoundingBox {
        min_pt: Vec3::new(S / 2, S / 2, 0),
        max_pt: Vec3::new(S / 2, S / 2, S),
    };
    assert!(bb1.intersects_with(&bb2));
    assert!(bb2.intersects_with(&bb1));
}

#[test]
fn test_includes_point() {
    let bb = BoundingBox { min_pt: Vec3::new(0, 0, 0), max_pt: Vec3::new(S, S, S) };
    assert!(bb.includes_point(&Vec3::new(S / 2, S / 2, S / 2)));
    assert!(bb.includes_point(&Vec3::new(0, 0, 0)));
    assert!(bb.includes_point(&Vec3::new(S, S, S)));
    assert!(!bb.includes_point(&Vec3::new(S + 1, S, S)));
    assert!(!bb.includes_point(&Vec3::new(-1, 0, 0)));
}
