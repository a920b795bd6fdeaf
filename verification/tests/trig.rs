use maze_engine::trig::{acos_fix, cos_fix, sin_fix, slerp, rotate_axis_angle, HALF_PI_FIX,
    PI_FIX, TWO_PI_FIX};
use maze_engine::vec3::Vec3;

const S: i64 = 65536;

#[test]
fn test_sin_values() {
    assert_eq!(sin_fix(0), 0);
    assert_eq!(sin_fix(HALF_PI_FIX), 65526);
    assert_eq!(sin_fix(PI_FIX), 0);
    assert_eq!(sin_fix(-HALF_PI_FIX), -65526);
    // Periodicity of the reduction.
    assert_eq!(sin_fix(TWO_PI_FIX + HALF_PI_FIX), 65526);
}

#[test]
fn test_cos_values() {
    assert_eq!(cos_fix(0), 65526);
    assert_eq!(cos_fix(PI_FIX), -65526);
}

#[test]
fn test_acos_values() {
    assert_eq!(acos_fix(S), 0);
    assert_eq!(acos_fix(0), 102943);
    assert_eq!(acos_fix(-S), 205886);
}

fn close(a: i64, b: i64, tol: i64) -> bool {
    (a - b).abs() <= tol
}

#[test]
fn test_rotate_quarter_turn() {
    // Rotating x around y by a quarter turn lands near -z (right-handed).
    let v = Vec3::new(S, 0, 0);
    let k = Vec3::new(0, S, 0);
    let r = rotate_axis_angle(&v, &k, HALF_PI_FIX);
    assert!(close(r.x, 0, 64), "{:?}", r);
    assert!(close(r.y, 0, 64), "{:?}", r);
    assert!(close(r.z, -S, 64), "{:?}", r);
    // A half turn lands near -x.
    let r = rotate_axis_angle(&v, &k, PI_FIX);
    assert!(close(r.x, -S, 64), "{:?}", r);
    assert!(close(r.z, 0, 64), "{:?}", r);
}

#[test]
fn test_rotate_preserves_axis() {
    // Rotating the axis itself changes nothing (up to rounding).
    let k = Vec3::new(0, S, 0);
    let r = rotate_axis_angle(&k, &k, 12345);
    assert!(close(r.x, 0, 8), "{:?}", r);
    assert!(close(r.y, S, 8), "{:?}", r);
    assert!(close(r.z, 0, 8), "{:?}", r);
}

#[test]
fn test_slerp_endpoints_and_midpoint() {
    let a = Vec3::new(S, 0, 0);
    let b = Vec3::new(0, 0, S);
    // At the ends the interpolation returns the ends (up to rounding).
    let r0 = slerp(&a, &b, 0);
    assert!(close(r0.x, S, 64) && close(r0.z, 0, 64), "{:?}", r0);
    let r1 = slerp(&a, &b, S);
    assert!(close(r1.x, 0, 64) && close(r1.z, S, 64), "{:?}", r1);
    // Halfway between two perpendicular units: both components equal,
    // near S / sqrt(2) = 46341.
    let rh = slerp(&a, &b, S / 2);
    assert!(close(rh.x, 46341, 128), "{:?}", rh);
    assert!(close(rh.z, 46341, 128), "{:?}", rh);
    // Nearly-parallel inputs fall back to straight interpolation.
    let c = Vec3::new(S, 1, 0);
    let rp = slerp(&a, &c, S / 2);
    assert!(close(rp.x, S, 64), "{:?}", rp);
}

#[test]
fn test_normalize_axes_and_magnitude() {
    let v = Vec3::new(300 * S, 0, 0);
    assert_eq!(v.normalize(), Vec3::new(S, 0, 0));
    let v = Vec3::new(0, -7 * S, 0);
    assert_eq!(v.normalize(), Vec3::new(0, -S, 0));
    // A diagonal normalizes to magnitude near S.
    let v = Vec3::new(3 * S, 4 * S, 12 * S);
    let n = v.normalize();
    let nsq = (n.x as i128) * (n.x as i128) + (n.y as i128) * (n.y as i128) + (n.z as i128)
        * (n.z as i128);
    let target = (S as i128) * (S as i128);
    assert!((nsq - target).abs() <= 3 * (S as i128), "{:?}", n);
    assert_eq!(v.magnitude(), 13 * S);
}
