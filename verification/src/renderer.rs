//! The render-pass graph: the per-frame orchestrator.
//!
//! A frame is a strict linear sequence of pass submissions — geometry,
//! directional and spot shadows, lighting, reflections, forward
//! transparency, particles, post, text, output — with one submission per
//! (directional light, cascade) pair and per spot light. The orchestrator
//! culls the scene against the camera and every shadow frustum, then records
//! the exact submission sequence as plain data for the GPU layer to execute.

use vstd::prelude::*;

use crate::GraphicsDesc;
use crate::camera::PerspectiveCamera;
use crate::fp::FP_BOUND;
use crate::frustum::{FrustumPlane, frustum_planes_from_matrix, normalized_plane, plane_fits,
    raw_plane};
use crate::light_directional::LightDirectional;
use crate::light_spot::LightSpot;
use crate::mat4::{Mat4, mat_within};
use crate::visibility::{RenderItem, RenderSet, item_fits, select_ids, selected};

verus! {

/// One GPU command-sequence submission of a frame, in the order the
/// orchestrator issues them.
#[derive(Clone, Copy, Debug, PartialEq, Eq, Structural)]
pub enum PassEvent {
    /// The shared per-frame uniform buffer is written.
    ContextBufferUpdate,
    /// The geometry buffer pass draws all opaque visible meshes.
    GeometrySubmit,
    /// One directional shadow layer: a (light, cascade) pair.
    ShadowDirectionalSubmit { light: usize, cascade: usize },
    /// One spot shadow layer.
    ShadowSpotSubmit { light: usize },
    /// The full-screen lighting resolve.
    LightingSubmit,
    /// The screen-space reflection pass.
    ReflectionSubmit,
    /// The forward transparency pass.
    ForwardSubmit,
    /// The instanced particle pass.
    ParticlesSubmit,
    /// The screen-space post effect.
    PostSubmit,
    /// The text overlay pass.
    TextSubmit,
    /// The composite onto the presentable surface.
    OutputSubmit,
}

/// Where a submission stands in the fixed pass order.
pub open spec fn stage_index(e: PassEvent) -> int {
    match e {
        PassEvent::ContextBufferUpdate => 0,
        PassEvent::GeometrySubmit => 1,
        PassEvent::ShadowDirectionalSubmit { .. } => 2,
        PassEvent::ShadowSpotSubmit { .. } => 3,
        PassEvent::LightingSubmit => 4,
        PassEvent::ReflectionSubmit => 5,
        PassEvent::ForwardSubmit => 6,
        PassEvent::ParticlesSubmit => 7,
        PassEvent::PostSubmit => 8,
        PassEvent::TextSubmit => 9,
        PassEvent::OutputSubmit => 10,
    }
}

/// The directional-shadow submissions: three cascades per light, lights in
/// order.
pub open spec fn shadow_directional_events(n: int) -> Seq<PassEvent>
    decreases n,
{
    if n <= 0 {
        Seq::empty()
    } else {
        shadow_directional_events(n - 1) + seq![
            PassEvent::ShadowDirectionalSubmit { light: (n - 1) as usize, cascade: 0 },
            PassEvent::ShadowDirectionalSubmit { light: (n - 1) as usize, cascade: 1 },
            PassEvent::ShadowDirectionalSubmit { light: (n - 1) as usize, cascade: 2 },
        ]
    }
}

/// The spot-shadow submissions, one per light, lights in order.
pub open spec fn shadow_spot_events(n: int) -> Seq<PassEvent>
    decreases n,
{
    if n <= 0 {
        Seq::empty()
    } else {
        shadow_spot_events(n - 1) + seq![
            PassEvent::ShadowSpotSubmit { light: (n - 1) as usize },
        ]
    }
}

/// The exact submission sequence of one frame: the fixed prefix, one shadow
/// submission per (directional light, cascade) and per spot light, and the
/// fixed tail through to the output composite.
pub open spec fn frame_sequence(n_dir: int, n_spot: int) -> Seq<PassEvent> {
    seq![PassEvent::ContextBufferUpdate, PassEvent::GeometrySubmit] + shadow_directional_events(
        n_dir,
    ) + shadow_spot_events(n_spot) + seq![
        PassEvent::LightingSubmit,
        PassEvent::ReflectionSubmit,
        PassEvent::ForwardSubmit,
        PassEvent::ParticlesSubmit,
        PassEvent::PostSubmit,
        PassEvent::TextSubmit,
        PassEvent::OutputSubmit,
    ]
}

/// The stage a frame-sequence index falls in: the fixed prefix, the two
/// shadow segments sized by the light counts, then the fixed tail.
pub open spec fn expected_stage(n_dir: int, n_spot: int, i: int) -> int {
    if i == 0 {
        0
    } else if i == 1 {
        1
    } else if i < 2 + 3 * n_dir {
        2
    } else if i < 2 + 3 * n_dir + n_spot {
        3
    } else {
        4 + (i - (2 + 3 * n_dir + n_spot))
    }
}

/// Every directional-shadow event sits at the directional-shadow stage.
proof fn lemma_shadow_directional_stages(n: int)
    requires
        n >= 0,
    ensures
        shadow_directional_events(n).len() == 3 * n,
        forall|k: int|
            0 <= k < 3 * n ==> stage_index(#[trigger] shadow_directional_events(n)[k]) == 2,
    decreases n,
{
    if n > 0 {
        lemma_shadow_directional_stages(n - 1);
    }
}

/// Every spot-shadow event sits at the spot-shadow stage.
proof fn lemma_shadow_spot_stages(n: int)
    requires
        n >= 0,
    ensures
        shadow_spot_events(n).len() == n,
        forall|k: int| 0 <= k < n ==> stage_index(#[trigger] shadow_spot_events(n)[k]) == 3,
    decreases n,
{
    if n > 0 {
        lemma_shadow_spot_stages(n - 1);
    }
}

/// Pass-graph ordering: whatever the light counts, a frame's submissions
/// follow the fixed stage order — the shared-buffer update, then geometry,
/// every directional-shadow layer, every spot-shadow layer, lighting,
/// reflections, forward transparency, particles, post, text, and the output
/// composite last.
pub proof fn lemma_frame_sequence_order(n_dir: int, n_spot: int)
    requires
        n_dir >= 0,
        n_spot >= 0,
    ensures
        frame_sequence(n_dir, n_spot).len() == 9 + 3 * n_dir + n_spot,
        forall|i: int|
            0 <= i < frame_sequence(n_dir, n_spot).len() ==> stage_index(
                #[trigger] frame_sequence(n_dir, n_spot)[i],
            ) == expected_stage(n_dir, n_spot, i),
        forall|i: int, j: int|
            0 <= i <= j < frame_sequence(n_dir, n_spot).len() ==> stage_index(
                #[trigger] frame_sequence(n_dir, n_spot)[i],
            ) <= stage_index(#[trigger] frame_sequence(n_dir, n_spot)[j]),
        frame_sequence(n_dir, n_spot)[0] == PassEvent::ContextBufferUpdate,
        frame_sequence(n_dir, n_spot).last() == PassEvent::OutputSubmit,
{
    lemma_shadow_directional_stages(n_dir);
    lemma_shadow_spot_stages(n_spot);
    let s = frame_sequence(n_dir, n_spot);
    assert(s.len() == 9 + 3 * n_dir + n_spot);
    assert forall|i: int| 0 <= i < s.len() implies stage_index(#[trigger] s[i]) == expected_stage(
        n_dir,
        n_spot,
        i,
    ) by {
        if i < 2 {
        } else if i < 2 + 3 * n_dir {
            assert(s[i] == shadow_directional_events(n_dir)[i - 2]);
        } else if i < 2 + 3 * n_dir + n_spot {
            assert(s[i] == shadow_spot_events(n_spot)[i - 2 - 3 * n_dir]);
        } else {
            let suffix = seq![
                PassEvent::LightingSubmit,
                PassEvent::ReflectionSubmit,
                PassEvent::ForwardSubmit,
                PassEvent::ParticlesSubmit,
                PassEvent::PostSubmit,
                PassEvent::TextSubmit,
                PassEvent::OutputSubmit,
            ];
            assert(s[i] == suffix[i - (2 + 3 * n_dir + n_spot)]);
        }
    }
    assert forall|i: int, j: int| 0 <= i <= j < s.len() implies stage_index(#[trigger] s[i])
        <= stage_index(#[trigger] s[j]) by {
        assert(stage_index(s[i]) == expected_stage(n_dir, n_spot, i));
        assert(stage_index(s[j]) == expected_stage(n_dir, n_spot, j));
    }
    assert(s.last() == s[s.len() - 1]);
    assert(stage_index(s[s.len() - 1]) == 10);
    let suffix = seq![
        PassEvent::LightingSubmit,
        PassEvent::ReflectionSubmit,
        PassEvent::ForwardSubmit,
        PassEvent::ParticlesSubmit,
        PassEvent::PostSubmit,
        PassEvent::TextSubmit,
        PassEvent::OutputSubmit,
    ];
    assert(s[s.len() - 1] == suffix[6]);
}

/// Record the submission events of one frame, in order.
pub fn record_frame_events(n_lights_directional: usize, n_lights_spot: usize) -> (r: Vec<
    PassEvent,
>)
    requires
        n_lights_directional < 1000,
        n_lights_spot < 1000,
    ensures
        r@ == frame_sequence(n_lights_directional as int, n_lights_spot as int),
{
    let mut events: Vec<PassEvent> = Vec::new();
    events.push(PassEvent::ContextBufferUpdate);
    events.push(PassEvent::GeometrySubmit);
    let ghost prefix = seq![PassEvent::ContextBufferUpdate, PassEvent::GeometrySubmit];
    assert(events@ =~= prefix);
    let mut li: usize = 0;
    while li < n_lights_directional
        invariant
            0 <= li <= n_lights_directional,
            n_lights_directional < 1000,
            events@ == prefix + shadow_directional_events(li as int),
        decreases n_lights_directional - li,
    {
        events.push(PassEvent::ShadowDirectionalSubmit { light: li, cascade: 0 });
        events.push(PassEvent::ShadowDirectionalSubmit { light: li, cascade: 1 });
        events.push(PassEvent::ShadowDirectionalSubmit { light: li, cascade: 2 });
        proof {
            assert(events@ =~= prefix + shadow_directional_events(li as int + 1));
        }
        li = li + 1;
    }
    let ghost after_dir = prefix + shadow_directional_events(n_lights_directional as int);
    let mut si: usize = 0;
    while si < n_lights_spot
        invariant
            0 <= si <= n_lights_spot,
            n_lights_spot < 1000,
            events@ == after_dir + shadow_spot_events(si as int),
        decreases n_lights_spot - si,
    {
        events.push(PassEvent::ShadowSpotSubmit { light: si });
        proof {
            assert(events@ =~= after_dir + shadow_spot_events(si as int + 1));
        }
        si = si + 1;
    }
    events.push(PassEvent::LightingSubmit);
    events.push(PassEvent::ReflectionSubmit);
    events.push(PassEvent::ForwardSubmit);
    events.push(PassEvent::ParticlesSubmit);
    events.push(PassEvent::PostSubmit);
    events.push(PassEvent::TextSubmit);
    events.push(PassEvent::OutputSubmit);
    proof {
        assert(events@ =~= frame_sequence(n_lights_directional as int, n_lights_spot as int));
    }
    events
}

/// The six camera-space culling planes of a view-projection matrix.
pub open spec fn camera_planes_spec(m: Mat4) -> Seq<FrustumPlane> {
    Seq::new(6, |i: int| normalized_plane(raw_plane(m, i)))
}

/// Everything one frame draws, as plain data: the submission sequence, the
/// opaque and forward render sets, and the shadow-caster sets per
/// directional cascade and per spot light.
#[derive(Clone, Debug)]
pub struct FramePlan {
    pub events: Vec<PassEvent>,
    pub meshes_rendered: Vec<u64>,
    pub meshes_forward_rendered: Vec<u64>,
    pub shadow_casting_per_light_directional: Vec<Vec<Vec<u64>>>,
    pub shadow_casting_per_light_spot: Vec<Vec<u64>>,
}

/// The shadow-caster sets of one directional light: one id list per cascade,
/// each selected against that cascade's frustum.
pub open spec fn dir_shadow_sets_ok(
    l: LightDirectional,
    sets: Vec<Vec<u64>>,
    items: Seq<RenderItem>,
) -> bool {
    &&& sets@.len() == 3
    &&& forall|ci: int|
        0 <= ci < 3 ==> (#[trigger] sets@[ci])@ == selected(
            items,
            camera_planes_spec(l.view_projection_matrices@[ci]),
            RenderSet::Shadow,
        )
}

/// The renderer: it owns the pass configuration and sequences the fixed pass
/// graph once per frame.
#[derive(Clone, Copy, Debug)]
pub struct Renderer {
    pub desc: GraphicsDesc,
}

impl Renderer {
    /// A renderer for the given configuration.
    pub fn new(desc: &GraphicsDesc) -> (r: Renderer)
        ensures
            r.desc == *desc,
    {
        Renderer { desc: *desc }
    }

    /// Plan one frame: cull the scene against the camera and against every
    /// shadow frustum, and record the fixed submission sequence. The GPU
    /// layer executes the returned plan in order.
    pub fn render(
        &self,
        camera: &PerspectiveCamera,
        lights_directional: &Vec<LightDirectional>,
        lights_spot: &Vec<LightSpot>,
        items: &Vec<RenderItem>,
    ) -> (r: FramePlan)
        requires
            mat_within(camera.view_projection_matrix, FP_BOUND as int / 2),
            forall|li: int, ci: int|
                0 <= li < lights_directional@.len() && 0 <= ci < 3 ==> mat_within(
                    #[trigger] lights_directional@[li].view_projection_matrices@[ci],
                    FP_BOUND as int / 2,
                ),
            forall|si: int|
                0 <= si < lights_spot@.len() ==> mat_within(
                    (#[trigger] lights_spot@[si]).view_projection_matrix,
                    FP_BOUND as int / 2,
                ),
            forall|k: int| 0 <= k < items@.len() ==> item_fits(#[trigger] items@[k]),
            lights_directional@.len() < 1000,
            lights_spot@.len() < 1000,
        ensures
            r.events@ == frame_sequence(
                lights_directional@.len() as int,
                lights_spot@.len() as int,
            ),
            r.meshes_rendered@ == selected(
                items@,
                camera_planes_spec(camera.view_projection_matrix),
                RenderSet::Opaque,
            ),
            r.meshes_forward_rendered@ == selected(
                items@,
                camera_planes_spec(camera.view_projection_matrix),
                RenderSet::Forward,
            ),
            r.shadow_casting_per_light_directional@.len() == lights_directional@.len(),
            forall|li: int|
                0 <= li < lights_directional@.len() ==> dir_shadow_sets_ok(
                    lights_directional@[li],
                    #[trigger] r.shadow_casting_per_light_directional@[li],
                    items@,
                ),
            r.shadow_casting_per_light_spot@.len() == lights_spot@.len(),
            forall|si: int|
                0 <= si < lights_spot@.len() ==> (
                #[trigger] r.shadow_casting_per_light_spot@[si])@ == selected(
                    items@,
                    camera_planes_spec(lights_spot@[si].view_projection_matrix),
                    RenderSet::Shadow,
                ),
    {
        let camera_planes = frustum_planes_from_matrix(&camera.view_projection_matrix);
        proof {
            assert(camera_planes@ =~= camera_planes_spec(camera.view_projection_matrix));
        }
        let meshes_rendered = select_ids(items, &camera_planes, RenderSet::Opaque);
        let meshes_forward_rendered = select_ids(items, &camera_planes, RenderSet::Forward);
        let mut shadow_dir: Vec<Vec<Vec<u64>>> = Vec::new();
        let mut li: usize = 0;
        while li < lights_directional.len()
            invariant
                0 <= li <= lights_directional@.len(),
                shadow_dir@.len() == li,
                forall|k: int| 0 <= k < items@.len() ==> item_fits(#[trigger] items@[k]),
                forall|l: int, ci: int|
                    0 <= l < lights_directional@.len() && 0 <= ci < 3 ==> mat_within(
                        #[trigger] lights_directional@[l].view_projection_matrices@[ci],
                        FP_BOUND as int / 2,
                    ),
                forall|l: int|
                    0 <= l < li ==> dir_shadow_sets_ok(
                        lights_directional@[l],
                        #[trigger] shadow_dir@[l],
                        items@,
                    ),
            decreases lights_directional@.len() - li,
        {
            let light = &lights_directional[li];
            let mut sets: Vec<Vec<u64>> = Vec::new();
            let planes0 = frustum_planes_from_matrix(&light.view_projection_matrices[0]);
            proof {
                assert(planes0@ =~= camera_planes_spec(light.view_projection_matrices@[0]));
            }
            sets.push(select_ids(items, &planes0, RenderSet::Shadow));
            let planes1 = frustum_planes_from_matrix(&light.view_projection_matrices[1]);
            proof {
                assert(planes1@ =~= camera_planes_spec(light.view_projection_matrices@[1]));
            }
            sets.push(select_ids(items, &planes1, RenderSet::Shadow));
            let planes2 = frustum_planes_from_matrix(&light.view_projection_matrices[2]);
            proof {
                assert(planes2@ =~= camera_planes_spec(light.view_projection_matrices@[2]));
            }
            sets.push(select_ids(items, &planes2, RenderSet::Shadow));
            proof {
                assert(dir_shadow_sets_ok(lights_directional@[li as int], sets, items@)) by {
                    assert forall|ci: int| 0 <= ci < 3 implies (#[trigger] sets@[ci])@ == selected(
                        items@,
                        camera_planes_spec(
                            lights_directional@[li as int].view_projection_matrices@[ci],
                        ),
                        RenderSet::Shadow,
                    ) by {
                        if ci == 0 {
                        } else if ci == 1 {
                        } else {
                            assert(ci == 2);
                        }
                    }
                }
            }
            shadow_dir.push(sets);
            li = li + 1;
        }
        let mut shadow_spot: Vec<Vec<u64>> = Vec::new();
        let mut si: usize = 0;
        while si < lights_spot.len()
            invariant
                0 <= si <= lights_spot@.len(),
                shadow_spot@.len() == si,
                forall|k: int| 0 <= k < items@.len() ==> item_fits(#[trigger] items@[k]),
                forall|l: int|
                    0 <= l < lights_spot@.len() ==> mat_within(
                        (#[trigger] lights_spot@[l]).view_projection_matrix,
                        FP_BOUND as int / 2,
                    ),
                forall|l: int|
                    0 <= l < si ==> (#[trigger] shadow_spot@[l])@ == selected(
                        items@,
                        camera_planes_spec(lights_spot@[l].view_projection_matrix),
                        RenderSet::Shadow,
                    ),
            decreases lights_spot@.len() - si,
        {
            let light = &lights_spot[si];
            let planes = frustum_planes_from_matrix(&light.view_projection_matrix);
            proof {
                assert(planes@ =~= camera_planes_spec(light.view_projection_matrix));
            }
            shadow_spot.push(select_ids(items, &planes, RenderSet::Shadow));
            si = si + 1;
        }
        let events = record_frame_events(lights_directional.len(), lights_spot.len());
        FramePlan {
            events,
            meshes_rendered,
            meshes_forward_rendered,
            shadow_casting_per_light_directional: shadow_dir,
            shadow_casting_per_light_spot: shadow_spot,
        }
    }
}

} // verus!
