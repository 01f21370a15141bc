//! Fixed-point scalar, vector and matrix arithmetic.

use render_core::fp::{SCALE, div_i64, isqrt_i64, isqrt_u64, mul_fp};
use render_core::mat4::Mat4;
use render_core::transform::resolve_transform_hierarchy;
use render_core::vec3::Vec3;

#[test]
fn division_truncates_toward_zero() {
    assert_eq!(div_i64(7, 2), 3);
    assert_eq!(div_i64(-7, 2), -3);
    assert_eq!(div_i64(7, -2), -3);
    assert_eq!(div_i64(-7, -2), 3);
    assert_eq!(div_i64(0, 5), 0);
}

#[test]
fn integer_square_roots() {
    assert_eq!(isqrt_u64(0), 0);
    assert_eq!(isqrt_u64(1), 1);
    assert_eq!(isqrt_u64(99), 9);
    assert_eq!(isqrt_u64(100), 10);
    assert_eq!(isqrt_u64(10_000_000_000), 100_000);
    assert_eq!(isqrt_i64(2), 1);
}

#[test]
fn fixed_point_products() {
    // 1.0 * 1.0 == 1.0
    assert_eq!(mul_fp(SCALE, SCALE), SCALE);
    // 2.5 * 4.0 == 10.0
    assert_eq!(mul_fp(250_000, 400_000), 1_000_000);
    // Truncation toward zero on negatives.
    assert_eq!(mul_fp(-150_000, 100_001), -150_001);
}

#[test]
fn vector_operations() {
    let a = Vec3 { x: 300_000, y: 400_000, z: 0 };
    // A 3-4-5 triangle: |(3,4,0)| == 5.
    assert_eq!(a.norm(), 500_000);
    let b = Vec3 { x: 100_000, y: 0, z: 0 };
    assert_eq!(a.dot(b), 300_000);
    let unit = a.normalize().unwrap();
    assert_eq!(unit.x, 60_000);
    assert_eq!(unit.y, 80_000);
    assert_eq!(unit.z, 0);
    assert!(Vec3 { x: 0, y: 0, z: 0 }.normalize().is_none());
}

#[test]
fn cross_product_of_axes() {
    let x = Vec3 { x: SCALE, y: 0, z: 0 };
    let y = Vec3 { x: 0, y: SCALE, z: 0 };
    let c = x.cross(y);
    assert_eq!((c.x, c.y, c.z), (0, 0, SCALE));
}

#[test]
fn matrix_identity_is_multiplicative_unit() {
    let id = Mat4::identity();
    let m = id.mul(&id);
    assert_eq!(m, id);
    let p = Vec3 { x: 123, y: -456, z: 789 };
    let q = id.transform_point_affine(p);
    assert_eq!((q.x, q.y, q.z), (123, -456, 789));
}

#[test]
fn affine_translation_moves_points() {
    let mut t = Mat4::identity();
    t.m03 = 200_000;
    t.m13 = -100_000;
    let p = Vec3 { x: 0, y: 0, z: 50_000 };
    let q = t.transform_point_affine(p);
    assert_eq!((q.x, q.y, q.z), (200_000, -100_000, 50_000));
}

#[test]
fn transform_hierarchy_composes_parent_chains() {
    let mut root = Mat4::identity();
    root.m03 = 100_000;
    let mut child_local = Mat4::identity();
    child_local.m13 = 200_000;
    let mut grandchild_local = Mat4::identity();
    grandchild_local.m23 = 300_000;
    let locals = vec![root, child_local, grandchild_local];
    let parents = vec![None, Some(0), Some(1)];
    let globals = resolve_transform_hierarchy(&locals, &parents).unwrap();
    assert_eq!(globals[0].m03, 100_000);
    // The child inherits the root's translation.
    assert_eq!((globals[1].m03, globals[1].m13), (100_000, 200_000));
    // The grandchild accumulates the whole chain.
    assert_eq!(
        (globals[2].m03, globals[2].m13, globals[2].m23),
        (100_000, 200_000, 300_000)
    );
}
