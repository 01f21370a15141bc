//! Spot lights: a single view, perspective projection and view-projection
//! matrix, rebuilt each frame from the owning transform's position and
//! target, plus colour and intensity.

use vstd::prelude::*;

use crate::camera::CAMERA_POS_BOUND;
use crate::errors::EngineGraphicsError;
use crate::fp::{FP_BOUND, SCALE};
use crate::mat4::{Mat4, mat_mul_spec, mat_within};
use crate::vec3::{Vec3, norm_sq, vec_within, vsub_spec};
use crate::view::{
    lemma_fallback_up_y_total, lemma_look_at_within, look_at_rh, look_at_spec, perspective_spec,
    perspective_wgpu, up_y_with_z_fallback,
};

verus! {

/// Projection parameters a spot light accepts: a moderate cone angle, a
/// positive near plane, and a far plane at least twice the near plane and
/// within a thousand world units. Spot projections are square, so no aspect
/// ratio enters.
pub open spec fn spot_params_ok(tan_half_fov: int, near: int, far: int) -> bool {
    &&& SCALE as int / 10 <= tan_half_fov <= 2 * SCALE as int
    &&& 0 < near
    &&& 2 * near <= far
    &&& far <= FP_BOUND as int / 10
}

/// The spot light's view matrix: a look-at from its position toward its
/// target with the world up axis and its near-vertical fallback.
pub open spec fn spot_view_spec(eye: Vec3, target: Vec3) -> Mat4 {
    look_at_spec(eye, target, up_y_with_z_fallback(eye, target))
}

/// The spot light's view-projection matrix.
pub open spec fn spot_vp_spec(eye: Vec3, target: Vec3, tan_half_fov: int, near: int, far: int) -> Mat4 {
    mat_mul_spec(
        perspective_spec(tan_half_fov, SCALE as int, near, far),
        spot_view_spec(eye, target),
    )
}

/// Rebuilding a spot light's matrices succeeds exactly when its position is
/// off its target and the view-projection stays within the culling range.
pub open spec fn spot_ok(eye: Vec3, target: Vec3, tan_half_fov: int, near: int, far: int) -> bool {
    &&& norm_sq(vsub_spec(target, eye)) > 0
    &&& mat_within(spot_vp_spec(eye, target, tan_half_fov, near, far), FP_BOUND as int / 2)
}

/// A spot light: its matrices, cone parameters, colour and intensity.
#[derive(Clone, Copy, Debug)]
pub struct LightSpot {
    pub view_matrix: Mat4,
    pub projection_matrix: Mat4,
    pub view_projection_matrix: Mat4,
    pub tan_half_fov: i64,
    pub near: i64,
    pub far: i64,
    pub color: [i64; 3],
    pub intensity: i64,
}

impl LightSpot {
    /// A new spot light; its matrices hold placeholder identities until the
    /// first frame positions it.
    pub fn new(tan_half_fov: i64, near: i64, far: i64, color: [i64; 3], intensity: i64) -> (r:
        LightSpot)
        requires
            spot_params_ok(tan_half_fov as int, near as int, far as int),
        ensures
            r.tan_half_fov == tan_half_fov,
            r.near == near,
            r.far == far,
            r.color == color,
            r.intensity == intensity,
    {
        let m = Mat4::identity();
        LightSpot {
            view_matrix: m,
            projection_matrix: m,
            view_projection_matrix: m,
            tan_half_fov,
            near,
            far,
            color,
            intensity,
        }
    }

    /// Rebuild the matrices from the owning transform's position and target.
    /// Fails exactly when the position sits on the target or the resulting
    /// view-projection leaves the culling range; the light is then left
    /// unchanged.
    pub fn update_view_projection_matrix(&mut self, position: Vec3, target: Vec3) -> (r: Result<
        (),
        EngineGraphicsError,
    >)
        requires
            spot_params_ok(
                old(self).tan_half_fov as int,
                old(self).near as int,
                old(self).far as int,
            ),
            vec_within(position, CAMERA_POS_BOUND as int),
            vec_within(target, CAMERA_POS_BOUND as int),
        ensures
            r is Ok <==> spot_ok(
                position,
                target,
                old(self).tan_half_fov as int,
                old(self).near as int,
                old(self).far as int,
            ),
            r is Ok ==> {
                &&& final(self).view_matrix == spot_view_spec(position, target)
                &&& final(self).projection_matrix == perspective_spec(
                    old(self).tan_half_fov as int,
                    SCALE as int,
                    old(self).near as int,
                    old(self).far as int,
                )
                &&& final(self).view_projection_matrix == spot_vp_spec(
                    position,
                    target,
                    old(self).tan_half_fov as int,
                    old(self).near as int,
                    old(self).far as int,
                )
                &&& mat_within(final(self).view_projection_matrix, FP_BOUND as int / 2)
            },
            r is Err ==> *final(self) == *old(self),
            final(self).tan_half_fov == old(self).tan_half_fov,
            final(self).near == old(self).near,
            final(self).far == old(self).far,
            final(self).color == old(self).color,
            final(self).intensity == old(self).intensity,
    {
        let fwd = target.sub(position);
        proof {
            crate::vec3::lemma_norm_sq_nonneg(fwd);
            assert(fwd == vsub_spec(target, position));
        }
        let f = match fwd.normalize() {
            Some(f) => f,
            None => {
                return Err(
                    EngineGraphicsError::RendererError(
                        "Spot light position coincides with its target".to_string(),
                    ),
                );
            },
        };
        proof {
            lemma_fallback_up_y_total(position, target);
        }
        let yup = Vec3 { x: 0, y: SCALE, z: 0 };
        let cy = f.cross(yup);
        proof {
            assert(cy == crate::vec3::cross_spec(f, crate::vec3::y_axis_spec()));
            crate::vec3::lemma_zero_norm(cy);
        }
        let up: Vec3 = if cy.x == 0 && cy.y == 0 && cy.z == 0 {
            Vec3 { x: 0, y: 0, z: SCALE }
        } else {
            yup
        };
        assert(up == up_y_with_z_fallback(position, target));
        let view = match look_at_rh(&position, &target, &up) {
            Some(view) => view,
            None => {
                proof {
                    assert(false);
                }
                return Err(EngineGraphicsError::RendererError("unreachable".to_string()));
            },
        };
        proof {
            lemma_look_at_within(position, target, up, CAMERA_POS_BOUND as int);
            assert(mat_within(view, FP_BOUND as int));
        }
        let projection = perspective_wgpu(self.tan_half_fov, SCALE, self.near, self.far);
        let view_projection = projection.mul(&view);
        if !view_projection.within(FP_BOUND / 2) {
            return Err(
                EngineGraphicsError::RendererError(
                    "Spot light view-projection out of culling range".to_string(),
                ),
            );
        }
        self.view_matrix = view;
        self.projection_matrix = projection;
        self.view_projection_matrix = view_projection;
        Ok(())
    }
}

} // verus!
