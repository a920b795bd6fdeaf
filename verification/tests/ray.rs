use maze_engine::face::Face;
use maze_engine::ray::{Ray, Ray2, Vec2};
use maze_engine::vec3::Vec3;

const S: i64 = 65536;

fn v2(x: i64, y: i64) -> Vec2 {
    Vec2 { x, y }
}

/// Assert the intersection of two segments in all eight
/// orientation/argument-order combinations.
fn assert_intersection(ray_a: &Ray2, ray_b: &Ray2, expected: Option<Vec2>) {
    assert_eq!(ray_a.ray_intersection(ray_b), expected);
    assert_eq!(ray_b.ray_intersection(ray_a), expected);
    assert_eq!(ray_a.invert().ray_intersection(ray_b), expected);
    assert_eq!(ray_b.invert().ray_intersection(ray_a), expected);
    assert_eq!(ray_a.ray_intersection(&ray_b.invert()), expected);
    assert_eq!(ray_b.ray_intersection(&ray_a.invert()), expected);
    assert_eq!(ray_a.invert().ray_intersection(&ray_b.invert()), expected);
    assert_eq!(ray_b.invert().ray_intersection(&ray_a.invert()), expected);
}

#[test]
fn test_face_intersection() {
    // See the segment/face tests below, which exercise the same query on
    // axis-aligned faces.
}

#[test]
fn test_2d_ray_intersection() {
    let vert_ray = Ray2::new(v2(0, 0), v2(0, S));
    let horiz_ray = Ray2::new(v2(-S / 2, S / 2), v2(S / 2, S / 2));

    assert_intersection(&vert_ray, &horiz_ray, Some(v2(0, S / 2)));
    let diagonal_ray_1 = Ray2::new(v2(-S / 2, 0), v2(S / 2, S));
    assert_intersection(&vert_ray, &diagonal_ray_1, Some(v2(0, S / 2)));
    assert_intersection(&horiz_ray, &diagonal_ray_1, Some(v2(0, S / 2)));
    let diagonal_ray_2 = Ray2::new(v2(S / 2, 0), v2(-S / 2, S));
    assert_intersection(&horiz_ray, &diagonal_ray_2, Some(v2(0, S / 2)));

    assert_intersection(
        &Ray2::new(v2(0, 0), v2(0, S / 2)),
        &Ray2::new(v2(6554, 6554), v2(S / 2, S / 2)),
        None,
    );
}

fn unit_square_face() -> Face {
    Face::new(vec![
        Vec3::new(0, 0, 0),
        Vec3::new(S, 0, 0),
        Vec3::new(S, S, 0),
        Vec3::new(0, S, 0),
    ])
}

#[test]
fn test_segment_through_face() {
    let face = unit_square_face();

    // Through the middle of the face.
    let ray = Ray::new(Vec3::new(S / 2, S / 2, S), Vec3::new(S / 2, S / 2, -S));
    assert!(ray.face_intersection(&face));
    assert!(ray.invert().face_intersection(&face));

    // Ending exactly on the face still touches it.
    let ray = Ray::new(Vec3::new(S / 2, S / 2, 0), Vec3::new(S / 2, S / 2, -S));
    assert!(ray.face_intersection(&face));

    // Right on the edge of the face.
    let ray = Ray::new(Vec3::new(S, S, S), Vec3::new(S, S, -S));
    assert!(ray.face_intersection(&face));

    // The segment does not reach far enough to pierce the face.
    let ray = Ray::new(Vec3::new(S / 2, S / 2, S), Vec3::new(S / 2, S / 2, S / 10));
    assert!(!ray.face_intersection(&face));

    // The segment misses the face's extent entirely.
    let ray = Ray::new(Vec3::new(2 * S, 2 * S, S), Vec3::new(2 * S, 2 * S, -S));
    assert!(!ray.face_intersection(&face));
    assert!(!ray.invert().face_intersection(&face));
}

#[test]
fn test_coplanar_segment_outside_face() {
    // A segment lying in the face's plane but entirely outside the face
    // does not intersect it; one overlapping the face in its plane does.
    let face = unit_square_face();
    let outside = Ray::new(Vec3::new(2 * S, 2 * S, 0), Vec3::new(3 * S, 2 * S, 0));
    assert!(!outside.face_intersection(&face));
    let through = Ray::new(Vec3::new(-S, S / 2, 0), Vec3::new(2 * S, S / 2, 0));
    assert!(through.face_intersection(&face));
    let inside = Ray::new(Vec3::new(S / 4, S / 4, 0), Vec3::new(S / 2, S / 2, 0));
    assert!(inside.face_intersection(&face));
}

#[test]
fn test_ray_accessors() {
    let ray = Ray::new(Vec3::new(1, 2, 3), Vec3::new(4, 5, 6));
    assert_eq!(*ray.start(), Vec3::new(1, 2, 3));
    assert_eq!(*ray.end(), Vec3::new(4, 5, 6));
    assert_eq!(ray.to_vector(), Vec3::new(3, 3, 3));
    let bb = ray.bounding_box();
    assert_eq!(bb.min_pt, Vec3::new(1, 2, 3));
    assert_eq!(bb.max_pt, Vec3::new(4, 5, 6));
}
