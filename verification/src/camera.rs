//! The perspective camera: view, projection and view-projection matrices
//! derived from an eye, a target and the projection parameters, plus the
//! world-space corners of its view frustum.

use vstd::prelude::*;

use crate::errors::EngineGraphicsError;
use crate::fp::{FP_BOUND, SCALE, fmul, iabs, mul_fp};
use crate::mat4::{Mat4, is_affine, linear_translation_within, mat_mul_spec, mat_within};
use crate::vec3::{Vec3, norm_sq, vec_within, vsub_spec};
use crate::view::{
    lemma_fallback_up_y_total, lemma_look_at_within, look_at_degenerate, look_at_rh, look_at_spec,
    perspective_spec, perspective_wgpu, up_y_with_z_fallback,
};

verus! {

/// Magnitude bound on camera eye and target positions.
pub const CAMERA_POS_BOUND: i64 = 166000000;

/// Projection parameters the camera accepts: a moderate field of view and
/// aspect ratio, a positive near plane, and a far plane at least twice the
/// near plane and within a thousand world units.
pub open spec fn camera_params_ok(tan_half_fov: int, aspect: int, near: int, far: int) -> bool {
    &&& SCALE as int / 10 <= tan_half_fov <= 2 * SCALE as int
    &&& SCALE as int / 10 <= aspect <= 5 * SCALE as int
    &&& 0 < near
    &&& 2 * near <= far
    &&& far <= FP_BOUND as int / 10
}

/// The camera's view matrix: a look-at from eye to target with the world up
/// axis and its near-vertical fallback.
pub open spec fn camera_view_spec(eye: Vec3, target: Vec3) -> Mat4 {
    look_at_spec(eye, target, up_y_with_z_fallback(eye, target))
}

/// The camera's view-projection matrix.
pub open spec fn camera_vp_spec(
    eye: Vec3,
    target: Vec3,
    tan_half_fov: int,
    aspect: int,
    near: int,
    far: int,
) -> Mat4 {
    mat_mul_spec(perspective_spec(tan_half_fov, aspect, near, far), camera_view_spec(eye, target))
}

/// A camera construction succeeds exactly when the eye is off the target and
/// the view-projection stays within the culling range.
pub open spec fn camera_ok(
    eye: Vec3,
    target: Vec3,
    tan_half_fov: int,
    aspect: int,
    near: int,
    far: int,
) -> bool {
    &&& norm_sq(vsub_spec(target, eye)) > 0
    &&& mat_within(
        camera_vp_spec(eye, target, tan_half_fov, aspect, near, far),
        FP_BOUND as int / 2,
    )
}

/// A perspective camera with its matrices kept in step with its parameters.
#[derive(Clone, Copy, Debug)]
pub struct PerspectiveCamera {
    pub view_matrix: Mat4,
    pub projection_matrix: Mat4,
    pub view_projection_matrix: Mat4,
    pub eye: Vec3,
    pub target: Vec3,
    pub tan_half_fov: i64,
    pub aspect: i64,
    pub near: i64,
    pub far: i64,
}

/// Camera well-formedness: parameters in range, positions bounded, and the
/// three matrices exactly those derived from the parameters.
pub open spec fn camera_wf(c: PerspectiveCamera) -> bool {
    &&& camera_params_ok(c.tan_half_fov as int, c.aspect as int, c.near as int, c.far as int)
    &&& vec_within(c.eye, CAMERA_POS_BOUND as int)
    &&& vec_within(c.target, CAMERA_POS_BOUND as int)
    &&& c.view_matrix == camera_view_spec(c.eye, c.target)
    &&& c.projection_matrix == perspective_spec(
        c.tan_half_fov as int,
        c.aspect as int,
        c.near as int,
        c.far as int,
    )
    &&& c.view_projection_matrix == camera_vp_spec(
        c.eye,
        c.target,
        c.tan_half_fov as int,
        c.aspect as int,
        c.near as int,
        c.far as int,
    )
    &&& mat_within(c.view_projection_matrix, FP_BOUND as int / 2)
    &&& linear_translation_within(c.view_matrix, 2 * SCALE as int, 6 * CAMERA_POS_BOUND as int)
    &&& is_affine(c.view_matrix)
}

/// One world-space corner of the camera frustum, indexed as the renderer
/// lays them out: the near quad counter-clockwise from its lower-left
/// corner, then the far quad. The basis comes from the view matrix rows: its
/// first two rows are the side and up axes, its third the negated forward.
pub open spec fn frustum_corner_spec(c: PerspectiveCamera, i: int) -> Vec3 {
    let d = if i < 4 {
        c.near as int
    } else {
        c.far as int
    };
    let half_h = fmul(d, c.tan_half_fov as int);
    let half_w = fmul(half_h, c.aspect as int);
    let sx: int = if i == 1 || i == 2 || i == 5 || i == 6 {
        1
    } else {
        -1
    };
    let sy: int = if i == 2 || i == 3 || i == 6 || i == 7 {
        1
    } else {
        -1
    };
    Vec3 {
        x: (c.eye.x + fmul(-c.view_matrix.m20, d) + sx * fmul(c.view_matrix.m00 as int, half_w)
            + sy * fmul(c.view_matrix.m10 as int, half_h)) as i64,
        y: (c.eye.y + fmul(-c.view_matrix.m21, d) + sx * fmul(c.view_matrix.m01 as int, half_w)
            + sy * fmul(c.view_matrix.m11 as int, half_h)) as i64,
        z: (c.eye.z + fmul(-c.view_matrix.m22, d) + sx * fmul(c.view_matrix.m02 as int, half_w)
            + sy * fmul(c.view_matrix.m12 as int, half_h)) as i64,
    }
}

impl PerspectiveCamera {
    /// One world-space frustum corner, built from the eye, the view basis
    /// and the extents of the near or far plane.
    fn frustum_corner(&self, i: usize) -> (r: Vec3)
        requires
            i < 8,
            camera_wf(*self),
        ensures
            r == frustum_corner_spec(*self, i as int),
    {
        let d: i64 = if i < 4 {
            self.near
        } else {
            self.far
        };
        proof {
            crate::fp::lemma_fmul_bound(self.tan_half_fov as int, d as int, 2);
        }
        let half_h: i64 = mul_fp(d, self.tan_half_fov);
        proof {
            crate::fp::lemma_fmul_bound(self.aspect as int, half_h as int, 5);
        }
        let half_w: i64 = mul_fp(half_h, self.aspect);
        let sx: i64 = if i == 1 || i == 2 || i == 5 || i == 6 {
            1
        } else {
            -1
        };
        let sy: i64 = if i == 2 || i == 3 || i == 6 || i == 7 {
            1
        } else {
            -1
        };
        proof {
            lemma_corner_terms_fit(*self, d as int, half_h as int, half_w as int);
        }
        let fx: i64 = mul_fp(-self.view_matrix.m20, d);
        let fy: i64 = mul_fp(-self.view_matrix.m21, d);
        let fz: i64 = mul_fp(-self.view_matrix.m22, d);
        let wx: i64 = mul_fp(self.view_matrix.m00, half_w);
        let wy: i64 = mul_fp(self.view_matrix.m01, half_w);
        let wz: i64 = mul_fp(self.view_matrix.m02, half_w);
        let hx: i64 = mul_fp(self.view_matrix.m10, half_h);
        let hy: i64 = mul_fp(self.view_matrix.m11, half_h);
        let hz: i64 = mul_fp(self.view_matrix.m12, half_h);
        Vec3 {
            x: self.eye.x + fx + sx * wx + sy * hx,
            y: self.eye.y + fy + sx * wy + sy * hy,
            z: self.eye.z + fz + sx * wz + sy * hz,
        }
    }

    /// The eight world-space corners of the camera frustum: the near plane's
    /// quad, then the far plane's.
    pub fn compute_view_frustum_corners_world_space_coordinates(&self) -> (r: [Vec3; 8])
        requires
            camera_wf(*self),
        ensures
            forall|i: int| 0 <= i < 8 ==> #[trigger] r@[i] == frustum_corner_spec(*self, i),
    {
        let r = [
            self.frustum_corner(0),
            self.frustum_corner(1),
            self.frustum_corner(2),
            self.frustum_corner(3),
            self.frustum_corner(4),
            self.frustum_corner(5),
            self.frustum_corner(6),
            self.frustum_corner(7),
        ];
        assert forall|i: int| 0 <= i < 8 implies #[trigger] r@[i] == frustum_corner_spec(
            *self,
            i,
        ) by {
            if i == 0 {
            } else if i == 1 {
            } else if i == 2 {
            } else if i == 3 {
            } else if i == 4 {
            } else if i == 5 {
            } else if i == 6 {
            } else {
                assert(i == 7);
            }
        }
        r
    }
}

/// Bounds on the corner offset terms: the forward, side and up offsets all
/// stay well inside the working range.
proof fn lemma_corner_terms_fit(c: PerspectiveCamera, d: int, half_h: int, half_w: int)
    requires
        camera_wf(c),
        0 < d <= FP_BOUND as int / 10,
        half_h == fmul(d, c.tan_half_fov as int),
        half_w == fmul(half_h, c.aspect as int),
    ensures
        iabs(half_h) <= 2 * (FP_BOUND as int / 10),
        iabs(half_w) <= FP_BOUND as int,
        iabs(fmul(-c.view_matrix.m20, d)) <= 2 * d,
        iabs(fmul(-c.view_matrix.m21, d)) <= 2 * d,
        iabs(fmul(-c.view_matrix.m22, d)) <= 2 * d,
        iabs(fmul(c.view_matrix.m00 as int, half_w)) <= 2 * FP_BOUND as int,
        iabs(fmul(c.view_matrix.m01 as int, half_w)) <= 2 * FP_BOUND as int,
        iabs(fmul(c.view_matrix.m02 as int, half_w)) <= 2 * FP_BOUND as int,
        iabs(fmul(c.view_matrix.m10 as int, half_h)) <= 2 * FP_BOUND as int,
        iabs(fmul(c.view_matrix.m11 as int, half_h)) <= 2 * FP_BOUND as int,
        iabs(fmul(c.view_matrix.m12 as int, half_h)) <= 2 * FP_BOUND as int,
{
    crate::fp::lemma_fmul_bound(c.tan_half_fov as int, d, 2);
    crate::fp::lemma_fmul_bound(c.aspect as int, half_h, 5);
    crate::fp::lemma_fmul_bound(-c.view_matrix.m20 as int, d, 2);
    crate::fp::lemma_fmul_bound(-c.view_matrix.m21 as int, d, 2);
    crate::fp::lemma_fmul_bound(-c.view_matrix.m22 as int, d, 2);
    crate::fp::lemma_fmul_bound(c.view_matrix.m00 as int, half_w, 2);
    crate::fp::lemma_fmul_bound(c.view_matrix.m01 as int, half_w, 2);
    crate::fp::lemma_fmul_bound(c.view_matrix.m02 as int, half_w, 2);
    crate::fp::lemma_fmul_bound(c.view_matrix.m10 as int, half_h, 2);
    crate::fp::lemma_fmul_bound(c.view_matrix.m11 as int, half_h, 2);
    crate::fp::lemma_fmul_bound(c.view_matrix.m12 as int, half_h, 2);
}

impl PerspectiveCamera {
    /// Build a camera at a position looking at a target. Fails exactly when
    /// the position sits on the target or the resulting view-projection
    /// leaves the culling range.
    pub fn new(
        position: Vec3,
        target: Vec3,
        tan_half_fov: i64,
        aspect: i64,
        near: i64,
        far: i64,
    ) -> (r: Result<PerspectiveCamera, EngineGraphicsError>)
        requires
            camera_params_ok(tan_half_fov as int, aspect as int, near as int, far as int),
            vec_within(position, CAMERA_POS_BOUND as int),
            vec_within(target, CAMERA_POS_BOUND as int),
        ensures
            r is Ok <==> camera_ok(
                position,
                target,
                tan_half_fov as int,
                aspect as int,
                near as int,
                far as int,
            ),
            r matches Ok(c) ==> {
                &&& camera_wf(c)
                &&& c.eye == position
                &&& c.target == target
                &&& c.tan_half_fov == tan_half_fov
                &&& c.aspect == aspect
                &&& c.near == near
                &&& c.far == far
            },
    {
        let fwd = target.sub(position);
        proof {
            crate::vec3::lemma_norm_sq_nonneg(fwd);
            assert(fwd == vsub_spec(target, position));
        }
        let f = match fwd.normalize() {
            Some(f) => f,
            None => {
                return Err(
                    EngineGraphicsError::RendererError(
                        "Camera position coincides with its target".to_string(),
                    ),
                );
            },
        };
        proof {
            lemma_fallback_up_y_total(position, target);
        }
        let yup = Vec3 { x: 0, y: SCALE, z: 0 };
        let cy = f.cross(yup);
        proof {
            assert(cy == crate::vec3::cross_spec(f, crate::vec3::y_axis_spec()));
            crate::vec3::lemma_zero_norm(cy);
        }
        let up: Vec3 = if cy.x == 0 && cy.y == 0 && cy.z == 0 {
            Vec3 { x: 0, y: 0, z: SCALE }
        } else {
            yup
        };
        assert(up == up_y_with_z_fallback(position, target));
        let view = match look_at_rh(&position, &target, &up) {
            Some(view) => view,
            None => {
                proof {
                    assert(false);
                }
                return Err(EngineGraphicsError::RendererError("unreachable".to_string()));
            },
        };
        proof {
            lemma_look_at_within(position, target, up, CAMERA_POS_BOUND as int);
            assert(mat_within(view, FP_BOUND as int));
        }
        let projection = perspective_wgpu(tan_half_fov, aspect, near, far);
        let view_projection = projection.mul(&view);
        if !view_projection.within(FP_BOUND / 2) {
            return Err(
                EngineGraphicsError::RendererError(
                    "Camera view-projection out of culling range".to_string(),
                ),
            );
        }
        Ok(
            PerspectiveCamera {
                view_matrix: view,
                projection_matrix: projection,
                view_projection_matrix: view_projection,
                eye: position,
                target,
                tan_half_fov,
                aspect,
                near,
                far,
            },
        )
    }

    /// Recompute the matrices for a new eye and target, as when the owning
    /// transform moved. Fails as construction does, leaving the camera
    /// unchanged.
    pub fn update_view_projection_matrix(&mut self, position: Vec3, target: Vec3) -> (r: Result<
        (),
        EngineGraphicsError,
    >)
        requires
            camera_params_ok(
                old(self).tan_half_fov as int,
                old(self).aspect as int,
                old(self).near as int,
                old(self).far as int,
            ),
            vec_within(position, CAMERA_POS_BOUND as int),
            vec_within(target, CAMERA_POS_BOUND as int),
        ensures
            r is Ok <==> camera_ok(
                position,
                target,
                old(self).tan_half_fov as int,
                old(self).aspect as int,
                old(self).near as int,
                old(self).far as int,
            ),
            r is Ok ==> camera_wf(*final(self)) && final(self).eye == position
                && final(self).target == target,
            final(self).tan_half_fov == old(self).tan_half_fov,
            final(self).aspect == old(self).aspect,
            final(self).near == old(self).near,
            final(self).far == old(self).far,
            r is Err ==> *final(self) == *old(self),
    {
        match PerspectiveCamera::new(
            position,
            target,
            self.tan_half_fov,
            self.aspect,
            self.near,
            self.far,
        ) {
            Ok(c) => {
                *self = c;
                Ok(())
            },
            Err(e) => Err(e),
        }
    }
}

} // verus!
