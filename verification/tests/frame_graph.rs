//! The pass-graph order: recording a frame yields the exact fixed sequence,
//! whatever the light counts.

use render_core::GraphicsDesc;
use render_core::camera::PerspectiveCamera;
use render_core::fp::SCALE;
use render_core::light_directional::LightDirectional;
use render_core::light_spot::LightSpot;
use render_core::renderer::{PassEvent, Renderer, record_frame_events};
use render_core::text::{AtlasRegion, MeshText};
use render_core::vec3::Vec3;
use render_core::visibility::RenderItem;

fn fixed_tail() -> Vec<PassEvent> {
    vec![
        PassEvent::LightingSubmit,
        PassEvent::ReflectionSubmit,
        PassEvent::ForwardSubmit,
        PassEvent::ParticlesSubmit,
        PassEvent::PostSubmit,
        PassEvent::TextSubmit,
        PassEvent::OutputSubmit,
    ]
}

#[test]
fn frame_with_no_lights_runs_the_fixed_sequence() {
    let events = record_frame_events(0, 0);
    let mut expected = vec![PassEvent::ContextBufferUpdate, PassEvent::GeometrySubmit];
    expected.extend(fixed_tail());
    assert_eq!(events, expected);
}

#[test]
fn frame_with_one_of_each_light_inserts_shadow_layers() {
    let events = record_frame_events(1, 1);
    let mut expected = vec![PassEvent::ContextBufferUpdate, PassEvent::GeometrySubmit];
    expected.push(PassEvent::ShadowDirectionalSubmit { light: 0, cascade: 0 });
    expected.push(PassEvent::ShadowDirectionalSubmit { light: 0, cascade: 1 });
    expected.push(PassEvent::ShadowDirectionalSubmit { light: 0, cascade: 2 });
    expected.push(PassEvent::ShadowSpotSubmit { light: 0 });
    expected.extend(fixed_tail());
    assert_eq!(events, expected);
}

#[test]
fn frame_sequence_scales_with_light_counts() {
    // Up to a full complement of lights the sequence keeps its shape:
    // 9 fixed events, 3 per directional light, 1 per spot light.
    for n_dir in [0usize, 1, 4, 8] {
        for n_spot in [0usize, 1, 8] {
            let events = record_frame_events(n_dir, n_spot);
            assert_eq!(events.len(), 9 + 3 * n_dir + n_spot);
            assert_eq!(events[0], PassEvent::ContextBufferUpdate);
            assert_eq!(events[1], PassEvent::GeometrySubmit);
            assert_eq!(*events.last().unwrap(), PassEvent::OutputSubmit);
            // Directional layers precede spot layers precede lighting.
            for li in 0..n_dir {
                for ci in 0..3 {
                    assert_eq!(
                        events[2 + 3 * li + ci],
                        PassEvent::ShadowDirectionalSubmit { light: li, cascade: ci }
                    );
                }
            }
            for si in 0..n_spot {
                assert_eq!(
                    events[2 + 3 * n_dir + si],
                    PassEvent::ShadowSpotSubmit { light: si }
                );
            }
        }
    }
}

#[test]
fn planned_frame_carries_shadow_sets_per_light() {
    let camera = PerspectiveCamera::new(
        Vec3 { x: 0, y: 0, z: 0 },
        Vec3 { x: 0, y: 0, z: -10_000_000 },
        SCALE,
        SCALE,
        10_000,
        10_000_000,
    )
    .unwrap();
    let renderer = Renderer::new(
        &GraphicsDesc {
            viewport_width: 1920,
            viewport_height: 1080,
            render_width: Some(960),
            render_height: Some(540),
        },
    );
    let light_dir = LightDirectional::new(
        Vec3 { x: 0, y: -SCALE, z: 0 },
        [SCALE, SCALE, SCALE],
        SCALE,
    );
    let light_spot = LightSpot::new(SCALE, 10_000, 1_000_000, [SCALE, 0, 0], SCALE);
    // A mesh with no bounding data casts shadows unconditionally... but the
    // shadow set requires bounding data; give it an opted-out box.
    let b = render_core::aabb::AABB::new_from_vertex_positions(
        &vec![Vec3 { x: -100_000, y: -100_000, z: -100_000 }, Vec3 { x: 100_000, y: 100_000, z: 100_000 }],
        false,
    );
    let items = vec![
        RenderItem { id: 5, aabb: Some(b), forward_rendered: false, shadow_casting: true },
        RenderItem { id: 6, aabb: None, forward_rendered: false, shadow_casting: true },
    ];
    let plan = renderer.render(&camera, &vec![light_dir], &vec![light_spot], &items);
    assert_eq!(plan.events.len(), 9 + 3 + 1);
    assert_eq!(plan.shadow_casting_per_light_directional.len(), 1);
    assert_eq!(plan.shadow_casting_per_light_directional[0].len(), 3);
    // The opted-out box is kept in every cascade; the boundless mesh has no
    // bounding data and is excluded from shadow sets.
    for cascade_set in plan.shadow_casting_per_light_directional[0].iter() {
        assert_eq!(*cascade_set, vec![5]);
    }
    assert_eq!(plan.shadow_casting_per_light_spot.len(), 1);
    assert_eq!(plan.shadow_casting_per_light_spot[0], vec![5]);
}

#[test]
fn render_sizes_fall_back_to_the_viewport() {
    let with_internal = GraphicsDesc {
        viewport_width: 1920,
        viewport_height: 1080,
        render_width: Some(960),
        render_height: None,
    };
    assert_eq!(with_internal.effective_render_width(), 960);
    assert_eq!(with_internal.effective_render_height(), 1080);
}

#[test]
fn text_state_packs_interaction_flags() {
    let mut mesh = MeshText {
        id: 1,
        vertices: vec![],
        indices: vec![],
        draw_range: 0,
        bounds_min: [0, 0],
        bounds_max: [0, 0],
        state: 0,
    };
    mesh.update_state(true, false, true, false);
    assert_eq!(mesh.state, 0b0101);
    mesh.update_state(false, true, false, true);
    assert_eq!(mesh.state, 0b1010);
    mesh.update_state(false, false, false, false);
    assert_eq!(mesh.state, 0);
}

#[test]
fn glyph_layout_emits_quads_and_bounds() {
    let map = vec![
        (
            'a',
            AtlasRegion {
                x: 0,
                y: 0,
                width: 800_000,
                height: 1_600_000,
                offset_x: 0,
                offset_y: 0,
                advance_x: Some(1_000_000),
            },
        ),
        (
            'b',
            AtlasRegion {
                x: 800_000,
                y: 0,
                width: 800_000,
                height: 1_600_000,
                offset_x: 100_000,
                offset_y: 0,
                advance_x: None,
            },
        ),
    ];
    // "ab!" — the '!' has no glyph and is skipped.
    let text = vec!['a', 'b', '!'];
    let mesh = MeshText::new_from_string(
        7,
        &text,
        &map,
        1_600_000,
        1_600_000,
        192_000_000,
        108_000_000,
    );
    assert_eq!(mesh.vertices.len(), 8);
    assert_eq!(mesh.indices.len(), 12);
    assert_eq!(mesh.draw_range, 12);
    // First quad at the origin, second offset by the first advance plus its
    // own bearing.
    assert_eq!(mesh.vertices[0].position, [0, 0]);
    assert_eq!(mesh.vertices[1].position, [800_000, 0]);
    assert_eq!(mesh.vertices[4].position, [1_100_000, 0]);
    // Triangles index into their own quad.
    assert_eq!(&mesh.indices[0..6], &[0, 1, 2, 0, 2, 3]);
    assert_eq!(&mesh.indices[6..12], &[4, 5, 6, 4, 6, 7]);
    // Normalized atlas coordinates: 'a' spans [0, 0.5] in u.
    assert_eq!(mesh.vertices[0].uv_coords, [0, 0]);
    assert_eq!(mesh.vertices[1].uv_coords, [50_000, 0]);
    // Pixel bounds cover both quads.
    assert_eq!(mesh.bounds_min, [0, 0]);
    assert_eq!(mesh.bounds_max, [1_900_000, 1_600_000]);
}
