//! Cascade split distances and the shadow-cascade fitter.

use render_core::camera::PerspectiveCamera;
use render_core::fp::SCALE;
use render_core::light_directional::{
    CORNER_BOUND, LIGHT_VIEW_OFFSET, LightDirectional, compute_cascade_splits, fit_cascade,
};
use render_core::vec3::Vec3;

#[test]
fn cascade_splits_are_strictly_increasing_and_pinned() {
    // near 0.1, far 100 world units.
    let splits = compute_cascade_splits(10_000, 10_000_000);
    assert_eq!(splits[0], 10_000);
    assert_eq!(splits[3], 10_000_000);
    // near + (far - near) * 0.2 and near + (far - near) * 0.5, exactly.
    assert_eq!(splits[1], 10_000 + 1_998_000);
    assert_eq!(splits[2], 10_000 + 4_995_000);
    for i in 0..3 {
        assert!(splits[i] < splits[i + 1]);
    }
}

#[test]
fn cascade_splits_hold_for_a_tiny_range() {
    let splits = compute_cascade_splits(0, 5);
    assert_eq!(splits[0], 0);
    assert_eq!(splits[3], 5);
    assert!(splits[0] < splits[1] && splits[1] < splits[2] && splits[2] < splits[3]);
}

fn cube_corners(half: i64, center_z: i64) -> [Vec3; 8] {
    [
        Vec3 { x: -half, y: -half, z: center_z - half },
        Vec3 { x: half, y: -half, z: center_z - half },
        Vec3 { x: half, y: half, z: center_z - half },
        Vec3 { x: -half, y: half, z: center_z - half },
        Vec3 { x: -half, y: -half, z: center_z + half },
        Vec3 { x: half, y: -half, z: center_z + half },
        Vec3 { x: half, y: half, z: center_z + half },
        Vec3 { x: -half, y: half, z: center_z + half },
    ]
}

#[test]
fn fitted_bounds_contain_every_corner_and_extrusion() {
    // A unit light direction pointing down; the fitter must bound all eight
    // corners and their extrusions toward the light in light space.
    let corners = cube_corners(1_000_000, -2_000_000);
    let direction = Vec3 { x: 0, y: -SCALE, z: 0 };
    let fit = fit_cascade(&corners, &direction).unwrap();
    let extrusion = direction.scale(LIGHT_VIEW_OFFSET);
    for corner in corners.iter() {
        for point in [*corner, corner.sub(extrusion)].iter() {
            let ls = fit.view.transform_point_affine(*point);
            assert!(fit.bounds_min.x <= ls.x && ls.x <= fit.bounds_max.x);
            assert!(fit.bounds_min.y <= ls.y && ls.y <= fit.bounds_max.y);
            assert!(fit.bounds_min.z <= ls.z && ls.z <= fit.bounds_max.z);
        }
    }
}

#[test]
fn fitter_falls_back_when_light_is_vertical() {
    // A light along the fixed up axis forces the alternate up axis; fitting
    // still succeeds.
    let corners = cube_corners(1_000_000, 0);
    let direction = Vec3 { x: 0, y: 0, z: -SCALE };
    let fit = fit_cascade(&corners, &direction).unwrap();
    assert!(fit.bounds_max.x > fit.bounds_min.x);
}

#[test]
fn fitter_rejects_a_zero_direction() {
    let corners = cube_corners(1_000_000, 0);
    let direction = Vec3 { x: 0, y: 0, z: 0 };
    assert!(fit_cascade(&corners, &direction).is_err());
}

#[test]
fn directional_light_refits_every_cascade() {
    // A camera close in, so its frustum corners stay within the fitter's
    // working range.
    let camera = PerspectiveCamera::new(
        Vec3 { x: 0, y: 0, z: 0 },
        Vec3 { x: 0, y: 0, z: -1_000_000 },
        SCALE,
        SCALE,
        10_000,
        5_000_000,
    )
    .unwrap();
    let corners = camera.compute_view_frustum_corners_world_space_coordinates();
    for corner in corners.iter() {
        assert!(corner.within(CORNER_BOUND));
    }
    let mut light = LightDirectional::new(
        Vec3 { x: 0, y: -SCALE, z: 0 },
        [SCALE, SCALE, SCALE],
        SCALE,
    );
    light.update_cascade_splits(camera.near, camera.far);
    assert_eq!(light.cascade_splits[0], camera.near);
    assert_eq!(light.cascade_splits[3], camera.far);
    light
        .update_view_projection_matrices_from_camera_frustum_corners(&corners)
        .unwrap();
    // Each cascade's view-projection stays within the culling range.
    for vp in light.view_projection_matrices.iter() {
        assert!(vp.within(render_core::fp::FP_BOUND / 2));
    }
}

#[test]
fn camera_frustum_corners_sit_on_their_planes() {
    let camera = PerspectiveCamera::new(
        Vec3 { x: 0, y: 0, z: 0 },
        Vec3 { x: 0, y: 0, z: -1_000_000 },
        SCALE,
        SCALE,
        100_000,
        1_000_000,
    )
    .unwrap();
    let corners = camera.compute_view_frustum_corners_world_space_coordinates();
    // Near quad at z == -near, far quad at z == -far, extents d * tan.
    for i in 0..4 {
        assert_eq!(corners[i].z, -100_000);
        assert_eq!(corners[i].x.abs(), 100_000);
        assert_eq!(corners[i].y.abs(), 100_000);
    }
    for i in 4..8 {
        assert_eq!(corners[i].z, -1_000_000);
        assert_eq!(corners[i].x.abs(), 1_000_000);
        assert_eq!(corners[i].y.abs(), 1_000_000);
    }
}
