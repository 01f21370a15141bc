//! Frustum-plane derivation and box culling, including the end-to-end
//! render-set scenarios with a camera at the origin looking down negative z.

use render_core::GraphicsDesc;
use render_core::aabb::AABB;
use render_core::errors::{EngineGraphicsError, EngineTimeError};
use render_core::camera::PerspectiveCamera;
use render_core::fp::SCALE;
use render_core::frustum::{aabb_in_frustum, frustum_planes_from_matrix};
use render_core::renderer::Renderer;
use render_core::vec3::Vec3;
use render_core::visibility::{RenderItem, RenderSet, select_ids};

fn origin_camera() -> PerspectiveCamera {
    // At the origin, looking down negative z, 90-degree vertical field of
    // view, square aspect, near 0.1 and far 100 world units.
    PerspectiveCamera::new(
        Vec3 { x: 0, y: 0, z: 0 },
        Vec3 { x: 0, y: 0, z: -10_000_000 },
        SCALE,
        SCALE,
        10_000,
        10_000_000,
    )
    .unwrap()
}

fn box_around(center_z: i64, frustum_cull: bool) -> AABB {
    // A box spanning one world unit around (0, 0, center_z).
    let lo = Vec3 { x: -100_000, y: -100_000, z: center_z - 100_000 };
    let hi = Vec3 { x: 100_000, y: 100_000, z: center_z + 100_000 };
    AABB::new_from_vertex_positions(&vec![lo, hi], frustum_cull)
}

#[test]
fn normalized_planes_have_unit_normals() {
    let camera = origin_camera();
    let planes = frustum_planes_from_matrix(&camera.view_projection_matrix);
    for plane in planes.iter() {
        let len = plane.normal.norm();
        // Unit length to within a handful of quanta of 1/SCALE.
        assert!(
            (len - SCALE).abs() <= 4,
            "normal length {} out of tolerance",
            len
        );
    }
}

#[test]
fn box_in_front_of_camera_is_visible() {
    let camera = origin_camera();
    let planes = frustum_planes_from_matrix(&camera.view_projection_matrix);
    let b = box_around(-1_000_000, true);
    assert!(aabb_in_frustum(&b.min_ws, &b.max_ws, &planes));
}

#[test]
fn box_behind_far_plane_is_culled() {
    let camera = origin_camera();
    let planes = frustum_planes_from_matrix(&camera.view_projection_matrix);
    // Centered at z = +50: behind the camera, far outside every padding.
    let b = box_around(5_000_000, true);
    assert!(!aabb_in_frustum(&b.min_ws, &b.max_ws, &planes));
}

#[test]
fn opted_out_box_is_always_kept() {
    let camera = origin_camera();
    let planes = frustum_planes_from_matrix(&camera.view_projection_matrix);
    let b = box_around(5_000_000, false);
    let items = vec![RenderItem { id: 7, aabb: Some(b), forward_rendered: false, shadow_casting: false }];
    let kept = select_ids(&items, &planes, RenderSet::Opaque);
    assert_eq!(kept, vec![7]);
}

#[test]
fn mesh_without_bounds_is_always_kept() {
    let camera = origin_camera();
    let planes = frustum_planes_from_matrix(&camera.view_projection_matrix);
    let items = vec![RenderItem { id: 9, aabb: None, forward_rendered: false, shadow_casting: false }];
    let kept = select_ids(&items, &planes, RenderSet::Opaque);
    assert_eq!(kept, vec![9]);
}

#[test]
fn mesh_in_view_enters_opaque_set() {
    // Camera at origin looking down -z, near 0.1, far 100; a mesh box
    // centered at (0, 0, -10) spanning one unit with culling on is selected.
    let camera = origin_camera();
    let renderer = Renderer::new(
        &GraphicsDesc {
            viewport_width: 800,
            viewport_height: 600,
            render_width: None,
            render_height: None,
        },
    );
    let items = vec![
        RenderItem {
            id: 1,
            aabb: Some(box_around(-1_000_000, true)),
            forward_rendered: false,
            shadow_casting: false,
        },
    ];
    let plan = renderer.render(&camera, &vec![], &vec![], &items);
    assert_eq!(plan.meshes_rendered, vec![1]);
    assert_eq!(plan.meshes_forward_rendered, Vec::<u64>::new());
}

#[test]
fn mesh_behind_far_plane_is_excluded_from_both_sets() {
    // The same camera; a mesh box centered at (0, 0, +50) sits behind the
    // camera and is excluded, and its forward-rendered twin is excluded from
    // the forward set by the identical cull logic.
    let camera = origin_camera();
    let renderer = Renderer::new(
        &GraphicsDesc {
            viewport_width: 800,
            viewport_height: 600,
            render_width: None,
            render_height: None,
        },
    );
    let items = vec![
        RenderItem {
            id: 1,
            aabb: Some(box_around(5_000_000, true)),
            forward_rendered: false,
            shadow_casting: false,
        },
        RenderItem {
            id: 2,
            aabb: Some(box_around(5_000_000, true)),
            forward_rendered: true,
            shadow_casting: false,
        },
    ];
    let plan = renderer.render(&camera, &vec![], &vec![], &items);
    assert_eq!(plan.meshes_rendered, Vec::<u64>::new());
    assert_eq!(plan.meshes_forward_rendered, Vec::<u64>::new());
}

#[test]
fn forward_meshes_follow_the_same_cull_logic() {
    let camera = origin_camera();
    let planes = frustum_planes_from_matrix(&camera.view_projection_matrix);
    let items = vec![
        RenderItem {
            id: 1,
            aabb: Some(box_around(-1_000_000, true)),
            forward_rendered: true,
            shadow_casting: false,
        },
        RenderItem {
            id: 2,
            aabb: Some(box_around(-1_000_000, true)),
            forward_rendered: false,
            shadow_casting: false,
        },
    ];
    let forward = select_ids(&items, &planes, RenderSet::Forward);
    let opaque = select_ids(&items, &planes, RenderSet::Opaque);
    assert_eq!(forward, vec![1]);
    assert_eq!(opaque, vec![2]);
}

#[test]
fn aabb_update_transforms_world_bounds() {
    let mut b = box_around(0, true);
    let mut t = render_core::mat4::Mat4::identity();
    t.m03 = 1_000_000;
    b.update(&t);
    assert_eq!(b.min_ws.x, 900_000);
    assert_eq!(b.max_ws.x, 1_100_000);
    assert_eq!(b.min_ws.y, -100_000);
    // Model-space bounds are untouched.
    assert_eq!(b.min.x, -100_000);
}

#[test]
fn degenerate_camera_is_rejected() {
    let r = PerspectiveCamera::new(
        Vec3 { x: 0, y: 0, z: 0 },
        Vec3 { x: 0, y: 0, z: 0 },
        SCALE,
        SCALE,
        10_000,
        10_000_000,
    );
    assert!(r.is_err());
    let e = r.err().unwrap();
    assert!(!e.message().is_empty());
}

#[test]
fn error_variants_carry_their_messages() {
    let gltf = EngineGraphicsError::GltfError("missing primitive".to_string());
    assert_eq!(gltf.message(), "missing primitive");
    let renderer = EngineGraphicsError::RendererError("surface lost".to_string());
    assert_eq!(renderer.message(), "surface lost");
    let file = EngineGraphicsError::FileError("atlas not found".to_string(), "atlas.png".to_string());
    assert_eq!(file.message(), "atlas not found");
    assert!(matches!(file, EngineGraphicsError::FileError(_, _)));
    let time = EngineTimeError::TimeError("clock went backwards".to_string());
    assert_eq!(time.message(), "clock went backwards");
}
