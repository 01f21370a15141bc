//! Axis-aligned bounding boxes: a model-space box derived from vertex
//! positions, and a world-space box recomputed from the owning transform
//! each frame. A box whose `frustum_cull` flag is off is never culled.

use vstd::prelude::*;

use crate::fp::FP_BOUND;
use crate::mat4::{Mat4, affine_within, transform_affine_spec};
use crate::vec3::{
    Vec3, each_component_attained, fold_bounds, is_lower_bound, is_upper_bound, vec_within,
};

verus! {

/// Magnitude bound on model-space vertex positions: a hundred world units.
pub const MODEL_BOUND: i64 = 10000000;

/// The eight corners of the box `[bmin, bmax]`, in the order the renderer
/// lays them out: the near-z quad counter-clockwise, then the far-z quad.
pub open spec fn corner_of(bmin: Vec3, bmax: Vec3, i: int) -> Vec3 {
    if i == 0 {
        Vec3 { x: bmin.x, y: bmin.y, z: bmin.z }
    } else if i == 1 {
        Vec3 { x: bmax.x, y: bmin.y, z: bmin.z }
    } else if i == 2 {
        Vec3 { x: bmax.x, y: bmax.y, z: bmin.z }
    } else if i == 3 {
        Vec3 { x: bmin.x, y: bmax.y, z: bmin.z }
    } else if i == 4 {
        Vec3 { x: bmin.x, y: bmin.y, z: bmax.z }
    } else if i == 5 {
        Vec3 { x: bmax.x, y: bmin.y, z: bmax.z }
    } else if i == 6 {
        Vec3 { x: bmax.x, y: bmax.y, z: bmax.z }
    } else {
        Vec3 { x: bmin.x, y: bmax.y, z: bmax.z }
    }
}

/// The world-space images of a box's eight corners under a transform.
pub open spec fn transformed_corners(m: Mat4, bmin: Vec3, bmax: Vec3) -> Seq<Vec3> {
    Seq::new(8, |i: int| transform_affine_spec(m, corner_of(bmin, bmax, i)))
}

/// An axis-aligned bounding box: model-space bounds and corners, the
/// world-space set recomputed each frame, and the culling opt-out flag.
#[derive(Clone, Copy, Debug)]
pub struct AABB {
    pub min: Vec3,
    pub max: Vec3,
    pub corners: [Vec3; 8],
    pub min_ws: Vec3,
    pub max_ws: Vec3,
    pub corners_ws: [Vec3; 8],
    pub frustum_cull: bool,
}

/// Well-formedness of the model-space half: ordered bounds within the model
/// range, with the corner array spelling out the box.
pub open spec fn aabb_wf(a: AABB) -> bool {
    &&& a.min.x <= a.max.x && a.min.y <= a.max.y && a.min.z <= a.max.z
    &&& vec_within(a.min, MODEL_BOUND as int)
    &&& vec_within(a.max, MODEL_BOUND as int)
    &&& forall|i: int| 0 <= i < 8 ==> #[trigger] a.corners@[i] == corner_of(a.min, a.max, i)
}

/// Well-formedness of the world-space half: ordered bounds within the
/// working range, with the corner array spelling out the box.
pub open spec fn aabb_ws_wf(a: AABB) -> bool {
    &&& a.min_ws.x <= a.max_ws.x && a.min_ws.y <= a.max_ws.y && a.min_ws.z <= a.max_ws.z
    &&& vec_within(a.min_ws, FP_BOUND as int)
    &&& vec_within(a.max_ws, FP_BOUND as int)
    &&& forall|i: int|
        0 <= i < 8 ==> #[trigger] a.corners_ws@[i] == corner_of(a.min_ws, a.max_ws, i)
}

/// Build the eight-corner array of a box.
fn make_corners(bmin: Vec3, bmax: Vec3) -> (r: [Vec3; 8])
    ensures
        forall|i: int| 0 <= i < 8 ==> #[trigger] r@[i] == corner_of(bmin, bmax, i),
{
    let r = [
        Vec3 { x: bmin.x, y: bmin.y, z: bmin.z },
        Vec3 { x: bmax.x, y: bmin.y, z: bmin.z },
        Vec3 { x: bmax.x, y: bmax.y, z: bmin.z },
        Vec3 { x: bmin.x, y: bmax.y, z: bmin.z },
        Vec3 { x: bmin.x, y: bmin.y, z: bmax.z },
        Vec3 { x: bmax.x, y: bmin.y, z: bmax.z },
        Vec3 { x: bmax.x, y: bmax.y, z: bmax.z },
        Vec3 { x: bmin.x, y: bmax.y, z: bmax.z },
    ];
    assert forall|i: int| 0 <= i < 8 implies #[trigger] r@[i] == corner_of(bmin, bmax, i) by {
        if i == 0 {
            assert(r@[0] == corner_of(bmin, bmax, 0));
        } else if i == 1 {
            assert(r@[1] == corner_of(bmin, bmax, 1));
        } else if i == 2 {
            assert(r@[2] == corner_of(bmin, bmax, 2));
        } else if i == 3 {
            assert(r@[3] == corner_of(bmin, bmax, 3));
        } else if i == 4 {
            assert(r@[4] == corner_of(bmin, bmax, 4));
        } else if i == 5 {
            assert(r@[5] == corner_of(bmin, bmax, 5));
        } else if i == 6 {
            assert(r@[6] == corner_of(bmin, bmax, 6));
        } else {
            assert(r@[7] == corner_of(bmin, bmax, 7));
        }
    }
    r
}

impl AABB {
    /// Fit the tightest box around a mesh's vertex positions; the world-space
    /// set starts equal to the model-space set until a transform updates it.
    pub fn new_from_vertex_positions(vertex_positions: &Vec<Vec3>, frustum_cull: bool) -> (r: AABB)
        requires
            vertex_positions@.len() > 0,
            forall|k: int|
                0 <= k < vertex_positions@.len() ==> vec_within(
                    #[trigger] vertex_positions@[k],
                    MODEL_BOUND as int,
                ),
        ensures
            aabb_wf(r),
            aabb_ws_wf(r),
            is_lower_bound(r.min, vertex_positions@),
            is_upper_bound(r.max, vertex_positions@),
            each_component_attained(r.min, vertex_positions@),
            each_component_attained(r.max, vertex_positions@),
            r.min_ws == r.min && r.max_ws == r.max,
            r.frustum_cull == frustum_cull,
    {
        let (bmin, bmax) = fold_bounds(vertex_positions);
        let corners = make_corners(bmin, bmax);
        assert(vec_within(bmin, MODEL_BOUND as int) && vec_within(bmax, MODEL_BOUND as int)) by {
            let kx = choose|i: int|
                0 <= i < vertex_positions@.len() && (#[trigger] vertex_positions@[i]).x == bmin.x;
            assert(vec_within(vertex_positions@[kx], MODEL_BOUND as int));
            let ky = choose|i: int|
                0 <= i < vertex_positions@.len() && (#[trigger] vertex_positions@[i]).y == bmin.y;
            assert(vec_within(vertex_positions@[ky], MODEL_BOUND as int));
            let kz = choose|i: int|
                0 <= i < vertex_positions@.len() && (#[trigger] vertex_positions@[i]).z == bmin.z;
            assert(vec_within(vertex_positions@[kz], MODEL_BOUND as int));
            let jx = choose|i: int|
                0 <= i < vertex_positions@.len() && (#[trigger] vertex_positions@[i]).x == bmax.x;
            assert(vec_within(vertex_positions@[jx], MODEL_BOUND as int));
            let jy = choose|i: int|
                0 <= i < vertex_positions@.len() && (#[trigger] vertex_positions@[i]).y == bmax.y;
            assert(vec_within(vertex_positions@[jy], MODEL_BOUND as int));
            let jz = choose|i: int|
                0 <= i < vertex_positions@.len() && (#[trigger] vertex_positions@[i]).z == bmax.z;
            assert(vec_within(vertex_positions@[jz], MODEL_BOUND as int));
        }
        assert(bmin.x <= vertex_positions@[0].x <= bmax.x);
        AABB {
            min: bmin,
            max: bmax,
            corners,
            min_ws: bmin,
            max_ws: bmax,
            corners_ws: corners,
            frustum_cull,
        }
    }

    /// Recompute the world-space bounds from the owning transform: transform
    /// the eight model-space corners and fit a new box around the images.
    pub fn update(&mut self, global_transform: &Mat4)
        requires
            aabb_wf(*old(self)),
            affine_within(*global_transform),
        ensures
            final(self).min == old(self).min,
            final(self).max == old(self).max,
            final(self).corners == old(self).corners,
            final(self).frustum_cull == old(self).frustum_cull,
            aabb_wf(*final(self)),
            aabb_ws_wf(*final(self)),
            is_lower_bound(
                final(self).min_ws,
                transformed_corners(*global_transform, old(self).min, old(self).max),
            ),
            is_upper_bound(
                final(self).max_ws,
                transformed_corners(*global_transform, old(self).min, old(self).max),
            ),
            each_component_attained(
                final(self).min_ws,
                transformed_corners(*global_transform, old(self).min, old(self).max),
            ),
            each_component_attained(
                final(self).max_ws,
                transformed_corners(*global_transform, old(self).min, old(self).max),
            ),
    {
        let ghost tc = transformed_corners(*global_transform, self.min, self.max);
        let mut images: Vec<Vec3> = Vec::new();
        let mut i: usize = 0;
        while i < 8
            invariant
                0 <= i <= 8,
                aabb_wf(*self),
                affine_within(*global_transform),
                tc == transformed_corners(*global_transform, self.min, self.max),
                images@.len() == i,
                forall|k: int| 0 <= k < i ==> #[trigger] images@[k] == tc[k],
                forall|k: int|
                    0 <= k < i ==> vec_within(#[trigger] images@[k], FP_BOUND as int),
            decreases 8 - i,
        {
            let corner = self.corners[i];
            proof {
                crate::mat4::lemma_transform_affine_within(
                    *global_transform,
                    corner,
                    MODEL_BOUND as int,
                );
            }
            let image = global_transform.transform_point_affine(corner);
            images.push(image);
            i = i + 1;
        }
        assert(images@ =~= tc);
        let (bmin, bmax) = fold_bounds(&images);
        assert(vec_within(bmin, FP_BOUND as int) && vec_within(bmax, FP_BOUND as int)) by {
            let kx = choose|i: int| 0 <= i < images@.len() && (#[trigger] images@[i]).x == bmin.x;
            assert(vec_within(images@[kx], FP_BOUND as int));
            let ky = choose|i: int| 0 <= i < images@.len() && (#[trigger] images@[i]).y == bmin.y;
            assert(vec_within(images@[ky], FP_BOUND as int));
            let kz = choose|i: int| 0 <= i < images@.len() && (#[trigger] images@[i]).z == bmin.z;
            assert(vec_within(images@[kz], FP_BOUND as int));
            let jx = choose|i: int| 0 <= i < images@.len() && (#[trigger] images@[i]).x == bmax.x;
            assert(vec_within(images@[jx], FP_BOUND as int));
            let jy = choose|i: int| 0 <= i < images@.len() && (#[trigger] images@[i]).y == bmax.y;
            assert(vec_within(images@[jy], FP_BOUND as int));
            let jz = choose|i: int| 0 <= i < images@.len() && (#[trigger] images@[i]).z == bmax.z;
            assert(vec_within(images@[jz], FP_BOUND as int));
        }
        assert(bmin.x <= images@[0].x <= bmax.x);
        let corners_ws = make_corners(bmin, bmax);
        self.min_ws = bmin;
        self.max_ws = bmax;
        self.corners_ws = corners_ws;
    }
}

} // verus!
