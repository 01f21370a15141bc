//! Directional lights with cascaded shadow maps.
//!
//! A directional light carries one view, projection and view-projection
//! matrix per cascade, and the cascade split distances mapping fixed
//! fractions of the camera's depth range onto `[near, far]`. Each frame the
//! fitter rebuilds every cascade from the camera's world-space frustum
//! corners: it slices the frustum at the splits, centres a light view on each
//! slice, extrudes the slice toward the light, and bounds everything with an
//! orthographic projection.

use vstd::prelude::*;

use crate::errors::EngineGraphicsError;
use crate::fp::{FP_BOUND, SCALE, div_i64, iabs, is_sqrt, sqrt_floor, tdiv};
use crate::mat4::{Mat4, is_affine, linear_translation_within, mat_mul_spec, mat_within,
    transform_affine_spec};
use crate::vec3::{
    Vec3, cross_spec, each_component_attained, fold_bounds, imax, imin, is_lower_bound,
    is_upper_bound,
    max_point, min_point, norm_sq, normalize_spec, scale_spec, vec_within, vsub_spec,
};
use crate::view::{MIN_ORTHO_EXTENT, look_at_degenerate, look_at_spec, look_at_rh,
    orthographic_spec, orthographic_wgpu};

verus! {

/// Number of shadow cascades of a directional light.
pub const SHADOW_MAP_CASCADES_COUNT: usize = 3;

/// Distance by which the light's eye backs away from a cascade's centre, and
/// by which cascade corners are extruded toward the light, in fixed-point
/// units: fifty world units.
pub const LIGHT_VIEW_OFFSET: i64 = 5000000;

/// Magnitude bound on the camera frustum corners the fitter accepts:
/// two hundred and fifty world units.
pub const CORNER_BOUND: i64 = 25000000;

/// The normalized cascade split fractions, as fixed-point values in
/// `[0, SCALE]`: zero, a fifth, a half, one.
pub open spec fn split_fraction(i: int) -> int {
    if i == 0 {
        0
    } else if i == 1 {
        20000
    } else if i == 2 {
        50000
    } else {
        100000
    }
}

/// A split fraction mapped onto the camera's depth range.
pub open spec fn cascade_split(near: int, far: int, i: int) -> int {
    near + tdiv((far - near) * split_fraction(i), SCALE as int)
}

/// Cascade split monotonicity: the mapped split distances are strictly
/// increasing, start at the near plane and end at the far plane, for any
/// depth range of at least five quanta.
pub proof fn lemma_cascade_splits_monotone(near: int, far: int)
    requires
        near + 5 <= far,
        0 <= near,
    ensures
        cascade_split(near, far, 0) == near,
        cascade_split(near, far, 3) == far,
        forall|i: int|
            0 <= i < 3 ==> #[trigger] cascade_split(near, far, i) < cascade_split(near, far, i + 1),
        forall|i: int|
            0 <= i <= 3 ==> near <= #[trigger] cascade_split(near, far, i) <= far,
{
    let d = far - near;
    crate::fp::lemma_tdiv_exact(0, SCALE as int);
    assert(d * split_fraction(0) == 0) by (nonlinear_arith)
        requires
            split_fraction(0) == 0,
    ;
    assert(cascade_split(near, far, 0) == near);
    crate::fp::lemma_tdiv_exact(d, SCALE as int);
    assert(d * split_fraction(3) == d * SCALE) by (nonlinear_arith)
        requires
            split_fraction(3) == SCALE as int,
    ;
    assert(cascade_split(near, far, 3) == far);
    assert forall|i: int| 0 <= i < 3 implies #[trigger] cascade_split(near, far, i) < cascade_split(
        near,
        far,
        i + 1,
    ) by {
        lemma_split_step(near, far, i);
    }
    assert forall|i: int| 0 <= i <= 3 implies near <= #[trigger] cascade_split(near, far, i)
        <= far by {
        assert(0 <= d * split_fraction(i) <= d * SCALE) by (nonlinear_arith)
            requires
                d > 0,
                0 <= split_fraction(i) <= SCALE as int,
        ;
        crate::fp::lemma_tdiv_monotone(0, d * split_fraction(i), SCALE as int);
        crate::fp::lemma_tdiv_monotone(d * split_fraction(i), d * SCALE, SCALE as int);
        crate::fp::lemma_tdiv_exact(0, SCALE as int);
        crate::fp::lemma_tdiv_exact(d, SCALE as int);
        assert(d * SCALE == SCALE as int * d) by (nonlinear_arith);
    }
}

/// One split step: consecutive fractions are at least a fifth of `SCALE`
/// apart, so with a range of five or more quanta the mapped splits move by
/// at least one.
proof fn lemma_split_step(near: int, far: int, i: int)
    requires
        near + 5 <= far,
        0 <= i < 3,
    ensures
        cascade_split(near, far, i) < cascade_split(near, far, i + 1),
{
    let d = far - near;
    let f1 = split_fraction(i);
    let f2 = split_fraction(i + 1);
    assert(f2 - f1 >= 20000);
    assert(d * f2 >= d * f1 + SCALE) by (nonlinear_arith)
        requires
            d >= 5,
            f2 - f1 >= 20000,
            SCALE as int == 100000,
    ;
    assert(d * f1 >= 0) by (nonlinear_arith)
        requires
            d >= 0,
            f1 >= 0,
    ;
    crate::fp::lemma_tdiv_monotone(d * f1 + SCALE, d * f2, SCALE as int);
    vstd::arithmetic::div_mod::lemma_div_plus_one(d * f1, SCALE as int);
    assert(tdiv(d * f1 + SCALE, SCALE as int) == tdiv(d * f1, SCALE as int) + 1) by {
        assert(d * f1 + SCALE >= 0);
        assert(tdiv(d * f1 + SCALE, SCALE as int) == (d * f1 + SCALE) / SCALE as int);
        assert((SCALE + d * f1) / SCALE as int == 1 + (d * f1) / SCALE as int);
    }
}

/// The fixed up axis of light views.
pub open spec fn z_axis() -> Vec3 {
    crate::vec3::z_axis_spec()
}

/// The alternate up axis, used when the light looks along the fixed one.
pub open spec fn y_axis() -> Vec3 {
    crate::vec3::y_axis_spec()
}

/// Centroid of the eight cascade corners, componentwise truncating mean.
pub open spec fn centroid_spec(c: Seq<Vec3>) -> Vec3 {
    Vec3 {
        x: tdiv(
            c[0].x + c[1].x + c[2].x + c[3].x + c[4].x + c[5].x + c[6].x + c[7].x,
            8,
        ) as i64,
        y: tdiv(
            c[0].y + c[1].y + c[2].y + c[3].y + c[4].y + c[5].y + c[6].y + c[7].y,
            8,
        ) as i64,
        z: tdiv(
            c[0].z + c[1].z + c[2].z + c[3].z + c[4].z + c[5].z + c[6].z + c[7].z,
            8,
        ) as i64,
    }
}

/// Distance from the centre to one corner.
pub open spec fn corner_dist(c: Seq<Vec3>, center: Vec3, i: int) -> int {
    sqrt_floor(norm_sq(vsub_spec(c[i], center)))
}

/// Bounding-sphere radius of the corners around their centre: the largest
/// corner distance.
pub open spec fn radius_spec(c: Seq<Vec3>, center: Vec3) -> int {
    imax(
        imax(
            imax(corner_dist(c, center, 0), corner_dist(c, center, 1)),
            imax(corner_dist(c, center, 2), corner_dist(c, center, 3)),
        ),
        imax(
            imax(corner_dist(c, center, 4), corner_dist(c, center, 5)),
            imax(corner_dist(c, center, 6), corner_dist(c, center, 7)),
        ),
    )
}

/// The light's eye for a cascade: the centre backed away along the light
/// direction by the bounding radius plus the fixed offset.
pub open spec fn cascade_eye_spec(c: Seq<Vec3>, dir: Vec3) -> Vec3 {
    let center = centroid_spec(c);
    vsub_spec(center, scale_spec(dir, radius_spec(c, center) + LIGHT_VIEW_OFFSET))
}

/// Up axis for a cascade's view: the fixed axis, or the alternate one when
/// the view direction is parallel to it.
pub open spec fn cascade_up_spec(eye: Vec3, target: Vec3) -> Vec3 {
    let f = normalize_spec(vsub_spec(target, eye));
    if norm_sq(cross_spec(f, z_axis())) == 0 {
        y_axis()
    } else {
        z_axis()
    }
}

/// The cascade's light view matrix.
pub open spec fn cascade_view_spec(c: Seq<Vec3>, dir: Vec3) -> Mat4 {
    let eye = cascade_eye_spec(c, dir);
    let center = centroid_spec(c);
    look_at_spec(eye, center, cascade_up_spec(eye, center))
}

/// A corner extruded back along the light direction by the fixed offset.
pub open spec fn extruded_corner_spec(p: Vec3, dir: Vec3) -> Vec3 {
    vsub_spec(p, scale_spec(dir, LIGHT_VIEW_OFFSET as int))
}

/// The sixteen light-space points a cascade must bound: the images of the
/// eight corners and of their extrusions under the light view.
pub open spec fn light_space_points_spec(view: Mat4, c: Seq<Vec3>, dir: Vec3) -> Seq<Vec3> {
    Seq::new(
        16,
        |i: int|
            if i < 8 {
                transform_affine_spec(view, c[i])
            } else {
                transform_affine_spec(view, extruded_corner_spec(c[i - 8], dir))
            },
    )
}

/// Lower corner of the cascade's orthographic bounds.
pub open spec fn cascade_bounds_min_spec(c: Seq<Vec3>, dir: Vec3) -> Vec3 {
    min_point(light_space_points_spec(cascade_view_spec(c, dir), c, dir))
}

/// Upper corner of the cascade's orthographic bounds.
pub open spec fn cascade_bounds_max_spec(c: Seq<Vec3>, dir: Vec3) -> Vec3 {
    max_point(light_space_points_spec(cascade_view_spec(c, dir), c, dir))
}

/// The light direction collapses under the fixed-point scaling, leaving the
/// eye on the target.
pub open spec fn cascade_degenerate(c: Seq<Vec3>, dir: Vec3) -> bool {
    norm_sq(vsub_spec(centroid_spec(c), cascade_eye_spec(c, dir))) == 0
}

/// The fitted bounds are wide enough on every axis for the orthographic
/// projection's entries to stay in range.
pub open spec fn cascade_extent_ok(c: Seq<Vec3>, dir: Vec3) -> bool {
    let mn = cascade_bounds_min_spec(c, dir);
    let mx = cascade_bounds_max_spec(c, dir);
    mx.x - mn.x >= MIN_ORTHO_EXTENT && mx.y - mn.y >= MIN_ORTHO_EXTENT && mx.z - mn.z
        >= MIN_ORTHO_EXTENT
}

/// The cascade's view-projection stays within the range the culling step
/// accepts.
pub open spec fn cascade_vp_ok(c: Seq<Vec3>, dir: Vec3) -> bool {
    mat_within(
        mat_mul_spec(
            orthographic_spec(cascade_bounds_min_spec(c, dir), cascade_bounds_max_spec(c, dir)),
            cascade_view_spec(c, dir),
        ),
        FP_BOUND as int / 2,
    )
}

/// Every condition under which fitting a cascade succeeds.
pub open spec fn cascade_fit_ok(c: Seq<Vec3>, dir: Vec3) -> bool {
    !cascade_degenerate(c, dir) && cascade_extent_ok(c, dir) && cascade_vp_ok(c, dir)
}

/// One fitted cascade: its matrices and the light-space bounds they enclose.
#[derive(Clone, Copy, Debug)]
pub struct CascadeFit {
    pub view: Mat4,
    pub projection: Mat4,
    pub view_projection: Mat4,
    pub bounds_min: Vec3,
    pub bounds_max: Vec3,
}



/// With the fixed up axis and its alternate as fallback, a look-at view for
/// any non-degenerate direction exists.
pub proof fn lemma_fallback_up_total(eye: Vec3, target: Vec3)
    requires
        norm_sq(vsub_spec(target, eye)) > 0,
    ensures
        !look_at_degenerate(eye, target, cascade_up_spec(eye, target)),
{
    let fv = vsub_spec(target, eye);
    let f = normalize_spec(fv);
    crate::vec3::lemma_normalize_nonzero(fv);
    crate::vec3::lemma_normalize_within(fv);
    let cz = cross_spec(f, z_axis());
    crate::fp::lemma_tdiv_exact(f.y as int, SCALE as int);
    crate::fp::lemma_tdiv_exact(-(f.x as int), SCALE as int);
    crate::fp::lemma_tdiv_exact(0, SCALE as int);
    assert(f.y * z_axis().z - f.z * z_axis().y == f.y * SCALE) by (nonlinear_arith)
        requires
            z_axis().z == SCALE as int,
            z_axis().y == 0,
    ;
    assert(f.z * z_axis().x - f.x * z_axis().z == (-(f.x as int)) * SCALE) by (nonlinear_arith)
        requires
            z_axis().x == 0,
            z_axis().z == SCALE as int,
    ;
    assert(f.x * z_axis().y - f.y * z_axis().x == 0 * SCALE) by (nonlinear_arith)
        requires
            z_axis().x == 0,
            z_axis().y == 0,
    ;
    assert(cz.x == f.y && cz.y == -(f.x as int) && cz.z == 0);
    crate::vec3::lemma_zero_norm(cz);
    if norm_sq(cz) == 0 {
        assert(f.x == 0 && f.y == 0);
        assert(f.z != 0);
        let cy = cross_spec(f, y_axis());
        crate::fp::lemma_tdiv_exact(-(f.z as int), SCALE as int);
        crate::fp::lemma_tdiv_exact(f.x as int, SCALE as int);
        assert(f.y * y_axis().z - f.z * y_axis().y == (-(f.z as int)) * SCALE) by (nonlinear_arith)
            requires
                y_axis().z == 0,
                y_axis().y == SCALE as int,
        ;
        assert(f.z * y_axis().x - f.x * y_axis().z == 0 * SCALE) by (nonlinear_arith)
            requires
                y_axis().x == 0,
                y_axis().z == 0,
        ;
        assert(f.x * y_axis().y - f.y * y_axis().x == f.x * SCALE) by (nonlinear_arith)
            requires
                y_axis().x == 0,
                y_axis().y == SCALE as int,
        ;
        assert(cy.x == -(f.z as int) && cy.y == 0 && cy.z == f.x);
        crate::vec3::lemma_zero_norm(cy);
        assert(norm_sq(cy) != 0);
        crate::vec3::lemma_norm_sq_nonneg(cy);
        assert(cascade_up_spec(eye, target) == y_axis());
    } else {
        crate::vec3::lemma_norm_sq_nonneg(cz);
        assert(cascade_up_spec(eye, target) == z_axis());
    }
}

/// Scaling by a unit-length factor never grows a non-negative scalar.
pub proof fn lemma_unit_scale_bound(a: int, b: int)
    requires
        iabs(a) <= SCALE as int,
        0 <= b,
    ensures
        iabs(crate::fp::fmul(a, b)) <= b,
{
    crate::fp::lemma_tdiv_bound(a * b, SCALE as int);
    assert(iabs(a * b) == iabs(a) * b) by (nonlinear_arith)
        requires
            b >= 0,
    ;
    assert(iabs(a) * b <= SCALE as int * b) by (nonlinear_arith)
        requires
            0 <= iabs(a) <= SCALE as int,
            b >= 0,
    ;
    vstd::arithmetic::div_mod::lemma_div_is_ordered(iabs(a * b), SCALE as int * b, SCALE as int);
    vstd::arithmetic::div_mod::lemma_div_multiples_vanish(b, SCALE as int);
}

/// The larger of two scalars.
pub fn imax_i64(a: i64, b: i64) -> (r: i64)
    ensures
        r == imax(a as int, b as int),
{
    if a >= b {
        a
    } else {
        b
    }
}

/// Centroid of eight cascade corners: their componentwise truncating mean.
#[verifier::rlimit(50)]
fn cascade_centroid(corners: &[Vec3; 8]) -> (r: Vec3)
    requires
        forall|i: int| 0 <= i < 8 ==> vec_within(#[trigger] corners@[i], CORNER_BOUND as int),
    ensures
        r == centroid_spec(corners@),
        vec_within(r, CORNER_BOUND as int),
{
    let sx: i64 = corners[0].x + corners[1].x + corners[2].x + corners[3].x + corners[4].x
        + corners[5].x + corners[6].x + corners[7].x;
    let sy: i64 = corners[0].y + corners[1].y + corners[2].y + corners[3].y + corners[4].y
        + corners[5].y + corners[6].y + corners[7].y;
    let sz: i64 = corners[0].z + corners[1].z + corners[2].z + corners[3].z + corners[4].z
        + corners[5].z + corners[6].z + corners[7].z;
    proof {
        crate::fp::lemma_tdiv_bound(sx as int, 8);
        crate::fp::lemma_tdiv_bound(sy as int, 8);
        crate::fp::lemma_tdiv_bound(sz as int, 8);
        vstd::arithmetic::div_mod::lemma_div_is_ordered(
            iabs(sx as int),
            8 * CORNER_BOUND as int,
            8,
        );
        vstd::arithmetic::div_mod::lemma_div_is_ordered(
            iabs(sy as int),
            8 * CORNER_BOUND as int,
            8,
        );
        vstd::arithmetic::div_mod::lemma_div_is_ordered(
            iabs(sz as int),
            8 * CORNER_BOUND as int,
            8,
        );
        vstd::arithmetic::div_mod::lemma_div_multiples_vanish(CORNER_BOUND as int, 8);
    }
    Vec3 { x: div_i64(sx, 8), y: div_i64(sy, 8), z: div_i64(sz, 8) }
}

/// Bounding-sphere radius: the largest distance from the centre to a corner.
fn bounding_radius(corners: &[Vec3; 8], center: &Vec3) -> (r: i64)
    requires
        forall|i: int| 0 <= i < 8 ==> vec_within(#[trigger] corners@[i], CORNER_BOUND as int),
        vec_within(*center, CORNER_BOUND as int),
    ensures
        r == radius_spec(corners@, *center),
        0 <= r <= 4 * CORNER_BOUND,
{
    let n0: i64 = corner_distance(&corners[0], center);
    let n1: i64 = corner_distance(&corners[1], center);
    let n2: i64 = corner_distance(&corners[2], center);
    let n3: i64 = corner_distance(&corners[3], center);
    let n4: i64 = corner_distance(&corners[4], center);
    let n5: i64 = corner_distance(&corners[5], center);
    let n6: i64 = corner_distance(&corners[6], center);
    let n7: i64 = corner_distance(&corners[7], center);
    imax_i64(
        imax_i64(imax_i64(n0, n1), imax_i64(n2, n3)),
        imax_i64(imax_i64(n4, n5), imax_i64(n6, n7)),
    )
}

/// The light's eye for a cascade: the centre backed away along the light
/// direction; fails exactly when the scaled direction collapses to zero.
#[verifier::rlimit(100)]
fn cascade_eye(corners: &[Vec3; 8], direction: &Vec3) -> (r: Vec3)
    requires
        forall|i: int| 0 <= i < 8 ==> vec_within(#[trigger] corners@[i], CORNER_BOUND as int),
        vec_within(*direction, SCALE as int),
    ensures
        r == cascade_eye_spec(corners@, *direction),
        vec_within(r, 130000000int),
{
    let center = cascade_centroid(corners);
    let radius: i64 = bounding_radius(corners, &center);
    let offset: i64 = radius + LIGHT_VIEW_OFFSET;
    proof {
        lemma_unit_scale_bound(direction.x as int, offset as int);
        lemma_unit_scale_bound(direction.y as int, offset as int);
        lemma_unit_scale_bound(direction.z as int, offset as int);
    }
    let back = direction.scale(offset);
    center.sub(back)
}

/// Build the light view matrix of one cascade: a look-at from the centroid
/// backed away along the light direction by the bounding radius plus the
/// fixed offset, with the up-axis fallback of a near-vertical direction.
/// Fails exactly when the scaled light direction collapses to zero.
#[verifier::rlimit(100)]
fn cascade_view(corners: &[Vec3; 8], direction: &Vec3) -> (r: Result<Mat4, EngineGraphicsError>)
    requires
        forall|i: int| 0 <= i < 8 ==> vec_within(#[trigger] corners@[i], CORNER_BOUND as int),
        vec_within(*direction, SCALE as int),
    ensures
        r is Ok <==> !cascade_degenerate(corners@, *direction),
        r matches Ok(view) ==> {
            &&& view == cascade_view_spec(corners@, *direction)
            &&& linear_translation_within(view, 2 * SCALE as int, 6 * 130000000int)
            &&& mat_within(view, FP_BOUND as int)
            &&& is_affine(view)
        },
{
    let center = cascade_centroid(corners);
    let eye = cascade_eye(corners, direction);
    let fwd = center.sub(eye);
    proof {
        crate::vec3::lemma_norm_sq_nonneg(fwd);
        assert(fwd == vsub_spec(center, eye));
    }
    if fwd.norm() == 0 {
        proof {
            crate::fp::lemma_sqrt_floor_is_sqrt(norm_sq(fwd));
            if norm_sq(fwd) > 0 {
                assert((0int + 1) * (0int + 1) == 1) by (nonlinear_arith);
            }
            assert(cascade_degenerate(corners@, *direction));
        }
        return Err(
            EngineGraphicsError::RendererError(
                "Light direction too small to place a cascade view".to_string(),
            ),
        );
    }
    proof {
        crate::fp::lemma_sqrt_floor_is_sqrt(norm_sq(fwd));
        assert(norm_sq(fwd) > 0) by {
            if norm_sq(fwd) == 0 {
                crate::fp::lemma_sqrt_is(0, 0);
            }
        }
        lemma_fallback_up_total(eye, center);
    }
    // Up axis with the near-vertical fallback.
    let f = match fwd.normalize() {
        Some(f) => f,
        None => {
            proof {
                assert(false);
            }
            return Err(EngineGraphicsError::RendererError("unreachable".to_string()));
        },
    };
    let zup = Vec3 { x: 0, y: 0, z: SCALE };
    let cz = f.cross(zup);
    assert(cz == cross_spec(normalize_spec(vsub_spec(center, eye)), z_axis()));
    proof {
        crate::vec3::lemma_zero_norm(cz);
    }
    let up: Vec3 = if cz.x == 0 && cz.y == 0 && cz.z == 0 {
        Vec3 { x: 0, y: SCALE, z: 0 }
    } else {
        zup
    };
    assert(up == cascade_up_spec(eye, center));
    let view = match look_at_rh(&eye, &center, &up) {
        Some(view) => view,
        None => {
            proof {
                assert(false);
            }
            return Err(EngineGraphicsError::RendererError("unreachable".to_string()));
        },
    };
    assert(view == cascade_view_spec(corners@, *direction));
    proof {
        crate::view::lemma_look_at_within(eye, center, up, 130000000int);
        assert(mat_within(view, FP_BOUND as int));
    }
    Ok(view)
}

/// Transform the eight cascade corners and their light-ward extrusions into
/// light space.
fn light_space_points(view: &Mat4, corners: &[Vec3; 8], direction: &Vec3) -> (pts: Vec<Vec3>)
    requires
        forall|i: int| 0 <= i < 8 ==> vec_within(#[trigger] corners@[i], CORNER_BOUND as int),
        vec_within(*direction, SCALE as int),
        linear_translation_within(*view, 2 * SCALE as int, 6 * 130000000int),
        mat_within(*view, FP_BOUND as int),
        is_affine(*view),
    ensures
        pts@ == light_space_points_spec(*view, corners@, *direction),
        pts@.len() == 16,
        forall|k: int| 0 <= k < 16 ==> vec_within(#[trigger] pts@[k], FP_BOUND as int),
{
    proof {
        lemma_unit_scale_bound(direction.x as int, LIGHT_VIEW_OFFSET as int);
        lemma_unit_scale_bound(direction.y as int, LIGHT_VIEW_OFFSET as int);
        lemma_unit_scale_bound(direction.z as int, LIGHT_VIEW_OFFSET as int);
    }
    let extrusion = direction.scale(LIGHT_VIEW_OFFSET);
    let ghost lsp = light_space_points_spec(*view, corners@, *direction);
    let mut pts: Vec<Vec3> = Vec::new();
    let mut i: usize = 0;
    while i < 8
        invariant
            0 <= i <= 8,
            pts@.len() == i,
            forall|k: int| 0 <= k < i ==> #[trigger] pts@[k] == lsp[k],
            forall|k: int| 0 <= k < i ==> vec_within(#[trigger] pts@[k], FP_BOUND as int),
            lsp == light_space_points_spec(*view, corners@, *direction),
            forall|k: int| 0 <= k < 8 ==> vec_within(#[trigger] corners@[k], CORNER_BOUND as int),
            linear_translation_within(*view, 2 * SCALE as int, 6 * 130000000int),
            mat_within(*view, FP_BOUND as int),
            is_affine(*view),
        decreases 8 - i,
    {
        proof {
            crate::mat4::lemma_transform_rows_within(
                *view,
                corners@[i as int],
                2 * SCALE as int,
                6 * 130000000int,
                CORNER_BOUND as int,
                FP_BOUND as int,
            );
        }
        let p = view.transform_point_affine(corners[i]);
        pts.push(p);
        i = i + 1;
    }
    let mut j: usize = 0;
    while j < 8
        invariant
            0 <= j <= 8,
            pts@.len() == 8 + j,
            forall|k: int| 0 <= k < 8 + j ==> #[trigger] pts@[k] == lsp[k],
            forall|k: int| 0 <= k < 8 + j ==> vec_within(#[trigger] pts@[k], FP_BOUND as int),
            lsp == light_space_points_spec(*view, corners@, *direction),
            forall|k: int| 0 <= k < 8 ==> vec_within(#[trigger] corners@[k], CORNER_BOUND as int),
            linear_translation_within(*view, 2 * SCALE as int, 6 * 130000000int),
            mat_within(*view, FP_BOUND as int),
            is_affine(*view),
            extrusion == scale_spec(*direction, LIGHT_VIEW_OFFSET as int),
            vec_within(extrusion, LIGHT_VIEW_OFFSET as int),
        decreases 8 - j,
    {
        let e = corners[j].sub(extrusion);
        assert(e == extruded_corner_spec(corners@[j as int], *direction));
        proof {
            crate::mat4::lemma_transform_rows_within(
                *view,
                e,
                2 * SCALE as int,
                6 * 130000000int,
                CORNER_BOUND as int + LIGHT_VIEW_OFFSET as int,
                FP_BOUND as int,
            );
        }
        let p = view.transform_point_affine(e);
        pts.push(p);
        j = j + 1;
    }
    proof {
        assert(pts@ =~= lsp);
    }
    pts
}

/// Everything `fit_cascade` promises of a successful fit: the matrices are
/// the spec-level ones, and the bounds enclose every original or extruded
/// corner in light space.
pub open spec fn fit_matches(fit: CascadeFit, c: Seq<Vec3>, dir: Vec3) -> bool {
    &&& fit.view == cascade_view_spec(c, dir)
    &&& fit.bounds_min == cascade_bounds_min_spec(c, dir)
    &&& fit.bounds_max == cascade_bounds_max_spec(c, dir)
    &&& fit.projection == orthographic_spec(fit.bounds_min, fit.bounds_max)
    &&& fit.view_projection == mat_mul_spec(fit.projection, fit.view)
    &&& mat_within(fit.view_projection, FP_BOUND as int / 2)
    &&& is_lower_bound(fit.bounds_min, light_space_points_spec(fit.view, c, dir))
    &&& is_upper_bound(fit.bounds_max, light_space_points_spec(fit.view, c, dir))
    &&& each_component_attained(fit.bounds_min, light_space_points_spec(fit.view, c, dir))
    &&& each_component_attained(fit.bounds_max, light_space_points_spec(fit.view, c, dir))
}

/// Fit one cascade: centre a light view on the corners, extrude them toward
/// the light, and bound the union in light space with an orthographic
/// projection. Every original or extruded corner, transformed into light
/// space, lies within the returned bounds. Fails when the scaled light
/// direction collapses to zero, when the fitted bounds are too thin for the
/// projection, or when the view-projection leaves the culling range.
#[verifier::rlimit(100)]
pub fn fit_cascade(corners: &[Vec3; 8], direction: &Vec3) -> (r: Result<
    CascadeFit,
    EngineGraphicsError,
>)
    requires
        forall|i: int| 0 <= i < 8 ==> vec_within(#[trigger] corners@[i], CORNER_BOUND as int),
        vec_within(*direction, SCALE as int),
    ensures
        r is Ok <==> cascade_fit_ok(corners@, *direction),
        r matches Ok(fit) ==> fit_matches(fit, corners@, *direction),
{
    let view = match cascade_view(corners, direction) {
        Ok(view) => view,
        Err(e) => {
            return Err(e);
        },
    };
    let pts = light_space_points(&view, corners, direction);
    let (bmin, bmax) = fold_bounds(&pts);
    proof {
        assert(bmin == cascade_bounds_min_spec(corners@, *direction));
        assert(bmax == cascade_bounds_max_spec(corners@, *direction));
        let kx = choose|i: int| 0 <= i < pts@.len() && (#[trigger] pts@[i]).x == bmin.x;
        assert(vec_within(pts@[kx], FP_BOUND as int));
        let ky = choose|i: int| 0 <= i < pts@.len() && (#[trigger] pts@[i]).y == bmin.y;
        assert(vec_within(pts@[ky], FP_BOUND as int));
        let kz = choose|i: int| 0 <= i < pts@.len() && (#[trigger] pts@[i]).z == bmin.z;
        assert(vec_within(pts@[kz], FP_BOUND as int));
        let jx = choose|i: int| 0 <= i < pts@.len() && (#[trigger] pts@[i]).x == bmax.x;
        assert(vec_within(pts@[jx], FP_BOUND as int));
        let jy = choose|i: int| 0 <= i < pts@.len() && (#[trigger] pts@[i]).y == bmax.y;
        assert(vec_within(pts@[jy], FP_BOUND as int));
        let jz = choose|i: int| 0 <= i < pts@.len() && (#[trigger] pts@[i]).z == bmax.z;
        assert(vec_within(pts@[jz], FP_BOUND as int));
        assert(vec_within(bmin, FP_BOUND as int));
        assert(vec_within(bmax, FP_BOUND as int));
    }
    if bmax.x - bmin.x < MIN_ORTHO_EXTENT || bmax.y - bmin.y < MIN_ORTHO_EXTENT || bmax.z - bmin.z
        < MIN_ORTHO_EXTENT {
        return Err(
            EngineGraphicsError::RendererError(
                "Cascade bounds too thin for an orthographic projection".to_string(),
            ),
        );
    }
    let projection = orthographic_wgpu(&bmin, &bmax);
    let view_projection = projection.mul(&view);
    if !view_projection.within(FP_BOUND / 2) {
        return Err(
            EngineGraphicsError::RendererError(
                "Cascade view-projection out of culling range".to_string(),
            ),
        );
    }
    Ok(CascadeFit { view, projection, view_projection, bounds_min: bmin, bounds_max: bmax })
}

/// Distance from the centre to one corner of a cascade slice.
fn corner_distance(corner: &Vec3, center: &Vec3) -> (r: i64)
    requires
        vec_within(*corner, CORNER_BOUND as int),
        vec_within(*center, CORNER_BOUND as int),
    ensures
        r == sqrt_floor(norm_sq(vsub_spec(*corner, *center))),
        0 <= r <= 4 * CORNER_BOUND,
{
    let d = corner.sub(*center);
    let n = d.norm();
    proof {
        assert(norm_sq(d) <= 12 * (CORNER_BOUND as int * CORNER_BOUND as int)) by (nonlinear_arith)
            requires
                iabs(d.x as int) <= 2 * CORNER_BOUND as int,
                iabs(d.y as int) <= 2 * CORNER_BOUND as int,
                iabs(d.z as int) <= 2 * CORNER_BOUND as int,
                norm_sq(d) == d.x * d.x + d.y * d.y + d.z * d.z,
        ;
        if n > 4 * CORNER_BOUND {
            assert(n as int * n as int > 12 * (CORNER_BOUND as int * CORNER_BOUND as int))
                by (nonlinear_arith)
                requires
                    n as int > 4 * CORNER_BOUND as int,
                    CORNER_BOUND as int > 0,
            ;
        }
    }
    n
}

/// Compute the cascade split distances for a camera depth range.
pub fn compute_cascade_splits(camera_near: i64, camera_far: i64) -> (r: [i64; 4])
    requires
        0 <= camera_near,
        camera_near + 5 <= camera_far,
        camera_far <= FP_BOUND,
    ensures
        forall|i: int|
            0 <= i < 4 ==> #[trigger] r@[i] == cascade_split(
                camera_near as int,
                camera_far as int,
                i,
            ),
        r@[0] == camera_near,
        r@[3] == camera_far,
        forall|i: int| 0 <= i < 3 ==> #[trigger] r@[i] < r@[i + 1],
{
    let d: i64 = camera_far - camera_near;
    proof {
        lemma_cascade_splits_monotone(camera_near as int, camera_far as int);
        crate::fp::lemma_tdiv_bound(d * 20000, SCALE as int);
        crate::fp::lemma_tdiv_bound(d * 50000, SCALE as int);
        crate::fp::lemma_tdiv_bound(d * 100000, SCALE as int);
        assert(iabs(d * 20000) <= FP_BOUND as int * 100000int) by (nonlinear_arith)
            requires
                0 <= d <= FP_BOUND as int,
        ;
        assert(iabs(d * 50000) <= FP_BOUND as int * 100000int) by (nonlinear_arith)
            requires
                0 <= d <= FP_BOUND as int,
        ;
        assert(iabs(d * 100000) <= FP_BOUND as int * 100000int) by (nonlinear_arith)
            requires
                0 <= d <= FP_BOUND as int,
        ;
    }
    let s1: i64 = camera_near + div_i64(d * 20000, SCALE);
    let s2: i64 = camera_near + div_i64(d * 50000, SCALE);
    let s3: i64 = camera_near + div_i64(d * 100000, SCALE);
    let r = [camera_near, s1, s2, s3];
    proof {
        assert(r@[0] == cascade_split(camera_near as int, camera_far as int, 0));
        assert(r@[1] == cascade_split(camera_near as int, camera_far as int, 1));
        assert(r@[2] == cascade_split(camera_near as int, camera_far as int, 2));
        assert(r@[3] == cascade_split(camera_near as int, camera_far as int, 3));
        assert forall|i: int| 0 <= i < 4 implies #[trigger] r@[i] == cascade_split(
            camera_near as int,
            camera_far as int,
            i,
        ) by {
            if i == 0 {
            } else if i == 1 {
            } else if i == 2 {
            } else {
                assert(i == 3);
            }
        }
    }
    r
}

/// Linear interpolation between two points by a fixed-point fraction.
pub open spec fn lerp_spec(a: Vec3, b: Vec3, t: int) -> Vec3 {
    Vec3 {
        x: (a.x + tdiv((b.x - a.x) * t, SCALE as int)) as i64,
        y: (a.y + tdiv((b.y - a.y) * t, SCALE as int)) as i64,
        z: (a.z + tdiv((b.z - a.z) * t, SCALE as int)) as i64,
    }
}

/// A split distance as a fraction of the whole depth range.
pub open spec fn cascade_t(splits: Seq<i64>, i: int) -> int {
    tdiv((splits[i] - splits[0]) * SCALE, splits[3] - splits[0])
}

/// The eight corners of one cascade's frustum slice: the near quad's corners
/// interpolated toward the far quad's at the slice's two fractions.
pub open spec fn slice_corners_spec(c: Seq<Vec3>, tn: int, tf: int) -> Seq<Vec3> {
    Seq::new(
        8,
        |j: int|
            if j < 4 {
                lerp_spec(c[j], c[j + 4], tn)
            } else {
                lerp_spec(c[j - 4], c[j], tf)
            },
    )
}

/// A lerp by a fraction within `[0, SCALE]` stays between its endpoints.
proof fn lemma_lerp_component(a: int, b: int, t: int)
    requires
        0 <= t <= SCALE as int,
    ensures
        imin(a, b) <= a + tdiv((b - a) * t, SCALE as int) <= imax(a, b),
{
    let d = b - a;
    if d >= 0 {
        assert(0 <= d * t <= d * SCALE) by (nonlinear_arith)
            requires
                d >= 0,
                0 <= t <= SCALE as int,
        ;
        crate::fp::lemma_tdiv_monotone(0, d * t, SCALE as int);
        crate::fp::lemma_tdiv_monotone(d * t, d * SCALE, SCALE as int);
        crate::fp::lemma_tdiv_exact(0, SCALE as int);
        crate::fp::lemma_tdiv_exact(d, SCALE as int);
    } else {
        assert(d * SCALE <= d * t <= 0) by (nonlinear_arith)
            requires
                d < 0,
                0 <= t <= SCALE as int,
        ;
        crate::fp::lemma_tdiv_monotone(d * t, 0, SCALE as int);
        crate::fp::lemma_tdiv_monotone(d * SCALE, d * t, SCALE as int);
        crate::fp::lemma_tdiv_exact(0, SCALE as int);
        crate::fp::lemma_tdiv_exact(d, SCALE as int);
    }
}

/// Interpolate between two corners of the camera frustum.
fn lerp_points(a: &Vec3, b: &Vec3, t: i64) -> (r: Vec3)
    requires
        vec_within(*a, CORNER_BOUND as int),
        vec_within(*b, CORNER_BOUND as int),
        0 <= t <= SCALE,
    ensures
        r == lerp_spec(*a, *b, t as int),
        vec_within(r, CORNER_BOUND as int),
{
    proof {
        lemma_lerp_component(a.x as int, b.x as int, t as int);
        lemma_lerp_component(a.y as int, b.y as int, t as int);
        lemma_lerp_component(a.z as int, b.z as int, t as int);
        crate::vec3::lemma_product_bound(b.x - a.x, t as int);
        crate::vec3::lemma_product_bound(b.y - a.y, t as int);
        crate::vec3::lemma_product_bound(b.z - a.z, t as int);
    }
    Vec3 {
        x: a.x + div_i64((b.x - a.x) * t, SCALE),
        y: a.y + div_i64((b.y - a.y) * t, SCALE),
        z: a.z + div_i64((b.z - a.z) * t, SCALE),
    }
}

/// The fraction of the depth range at which a split sits, in `[0, SCALE]`.
fn split_fraction_of_range(splits: &[i64; 4], i: usize) -> (r: i64)
    requires
        i < 4,
        forall|k: int| 0 <= k < 4 ==> iabs(#[trigger] splits@[k] as int) <= FP_BOUND as int,
        forall|k: int| 0 <= k < 3 ==> #[trigger] splits@[k] < splits@[k + 1],
    ensures
        r == cascade_t(splits@, i as int),
        0 <= r <= SCALE,
{
    let range: i64 = splits[3] - splits[0];
    proof {
        assert(splits@[0] < splits@[1]);
        assert(splits@[1] < splits@[2]);
        assert(splits@[2] < splits@[3]);
        assert(splits@[0] <= splits@[i as int] <= splits@[3]);
        let num = (splits@[i as int] - splits@[0]) * SCALE;
        assert(0 <= num <= range as int * SCALE) by (nonlinear_arith)
            requires
                0 <= splits@[i as int] - splits@[0] <= range as int,
                SCALE as int > 0,
                num == (splits@[i as int] - splits@[0]) * SCALE,
        ;
        crate::fp::lemma_tdiv_monotone(0, num, range as int);
        crate::fp::lemma_tdiv_monotone(num, range as int * SCALE, range as int);
        crate::fp::lemma_tdiv_exact(0, range as int);
        crate::fp::lemma_tdiv_exact(SCALE as int, range as int);
        assert(range as int * SCALE == SCALE as int * range as int);
    }
    div_i64((splits[i] - splits[0]) * SCALE, range)
}

/// A directional light: per-cascade view, projection and view-projection
/// matrices, the cascade split distances, and its colour, intensity and
/// direction.
#[derive(Clone, Copy, Debug)]
pub struct LightDirectional {
    pub view_matrices: [Mat4; 3],
    pub projection_matrices: [Mat4; 3],
    pub view_projection_matrices: [Mat4; 3],
    pub cascade_splits: [i64; 4],
    pub color: [i64; 3],
    pub intensity: i64,
    pub direction: Vec3,
}

impl LightDirectional {
    /// A new directional light; its matrices hold placeholder identities
    /// until the first frame fits them to the camera.
    pub fn new(direction: Vec3, color: [i64; 3], intensity: i64) -> (r: LightDirectional)
        ensures
            r.direction == direction,
            r.color == color,
            r.intensity == intensity,
            r.cascade_splits@ =~= seq![0i64, 20000i64, 50000i64, 100000i64],
    {
        let m = Mat4::identity();
        LightDirectional {
            view_matrices: [m, m, m],
            projection_matrices: [m, m, m],
            view_projection_matrices: [m, m, m],
            cascade_splits: [0, 20000, 50000, 100000],
            color,
            intensity,
            direction,
        }
    }

    /// Map the fixed split fractions onto the camera's depth range.
    pub fn update_cascade_splits(&mut self, camera_near: i64, camera_far: i64)
        requires
            0 <= camera_near,
            camera_near + 5 <= camera_far,
            camera_far <= FP_BOUND,
        ensures
            forall|i: int|
                0 <= i < 4 ==> #[trigger] final(self).cascade_splits@[i] == cascade_split(
                    camera_near as int,
                    camera_far as int,
                    i,
                ),
            final(self).cascade_splits@[0] == camera_near,
            final(self).cascade_splits@[3] == camera_far,
            forall|i: int|
                0 <= i < 3 ==> #[trigger] final(self).cascade_splits@[i]
                    < final(self).cascade_splits@[i + 1],
            final(self).view_matrices == old(self).view_matrices,
            final(self).projection_matrices == old(self).projection_matrices,
            final(self).view_projection_matrices == old(self).view_projection_matrices,
            final(self).color == old(self).color,
            final(self).intensity == old(self).intensity,
            final(self).direction == old(self).direction,
    {
        self.cascade_splits = compute_cascade_splits(camera_near, camera_far);
    }

    /// Refit every cascade to the camera's world-space frustum corners:
    /// slice the frustum at the splits and fit a light view and orthographic
    /// projection around each slice. Succeeds exactly when every cascade
    /// fits; on success each cascade's matrices are those of its slice.
    #[verifier::rlimit(100)]
    pub fn update_view_projection_matrices_from_camera_frustum_corners(
        &mut self,
        camera_frustum_corners: &[Vec3; 8],
    ) -> (r: Result<(), EngineGraphicsError>)
        requires
            forall|i: int|
                0 <= i < 8 ==> vec_within(
                    #[trigger] camera_frustum_corners@[i],
                    CORNER_BOUND as int,
                ),
            vec_within(old(self).direction, SCALE as int),
            forall|k: int|
                0 <= k < 4 ==> iabs(#[trigger] old(self).cascade_splits@[k] as int)
                    <= FP_BOUND as int,
            forall|k: int|
                0 <= k < 3 ==> #[trigger] old(self).cascade_splits@[k] < old(
                    self,
                ).cascade_splits@[k + 1],
        ensures
            final(self).cascade_splits == old(self).cascade_splits,
            final(self).color == old(self).color,
            final(self).intensity == old(self).intensity,
            final(self).direction == old(self).direction,
            r is Ok <==> {
                &&& cascade_fit_ok(
                    cascade_slice(camera_frustum_corners@, old(self).cascade_splits@, 0),
                    old(self).direction,
                )
                &&& cascade_fit_ok(
                    cascade_slice(camera_frustum_corners@, old(self).cascade_splits@, 1),
                    old(self).direction,
                )
                &&& cascade_fit_ok(
                    cascade_slice(camera_frustum_corners@, old(self).cascade_splits@, 2),
                    old(self).direction,
                )
            },
            r is Ok ==> cascade_matrices_ok(*final(self), camera_frustum_corners@, 0),
            r is Ok ==> cascade_matrices_ok(*final(self), camera_frustum_corners@, 1),
            r is Ok ==> cascade_matrices_ok(*final(self), camera_frustum_corners@, 2),
    {
        let splits = self.cascade_splits;
        let t0: i64 = split_fraction_of_range(&splits, 0);
        let t1: i64 = split_fraction_of_range(&splits, 1);
        let t2: i64 = split_fraction_of_range(&splits, 2);
        let t3: i64 = split_fraction_of_range(&splits, 3);
        let slice0 = slice_corners(camera_frustum_corners, t0, t1);
        let slice1 = slice_corners(camera_frustum_corners, t1, t2);
        let slice2 = slice_corners(camera_frustum_corners, t2, t3);
        assert(slice0@ == cascade_slice(camera_frustum_corners@, splits@, 0));
        assert(slice1@ == cascade_slice(camera_frustum_corners@, splits@, 1));
        assert(slice2@ == cascade_slice(camera_frustum_corners@, splits@, 2));
        let fit0 = match fit_cascade(&slice0, &self.direction) {
            Ok(f) => f,
            Err(e) => {
                return Err(e);
            },
        };
        let fit1 = match fit_cascade(&slice1, &self.direction) {
            Ok(f) => f,
            Err(e) => {
                return Err(e);
            },
        };
        let fit2 = match fit_cascade(&slice2, &self.direction) {
            Ok(f) => f,
            Err(e) => {
                return Err(e);
            },
        };
        self.view_matrices = [fit0.view, fit1.view, fit2.view];
        self.projection_matrices = [fit0.projection, fit1.projection, fit2.projection];
        self.view_projection_matrices = [
            fit0.view_projection,
            fit1.view_projection,
            fit2.view_projection,
        ];
        assert(self.view_matrices@[0] == fit0.view);
        assert(self.view_matrices@[1] == fit1.view);
        assert(self.view_matrices@[2] == fit2.view);
        Ok(())
    }
}

/// Cascade bounding invariant: every original or light-extruded camera
/// frustum corner of a cascade, transformed into that cascade's light space,
/// lies within the cascade's computed orthographic bounds.
pub proof fn lemma_cascade_bounds_contain(c: Seq<Vec3>, dir: Vec3)
    ensures
        is_lower_bound(
            cascade_bounds_min_spec(c, dir),
            light_space_points_spec(cascade_view_spec(c, dir), c, dir),
        ),
        is_upper_bound(
            cascade_bounds_max_spec(c, dir),
            light_space_points_spec(cascade_view_spec(c, dir), c, dir),
        ),
{
    let pts = light_space_points_spec(cascade_view_spec(c, dir), c, dir);
    assert(pts.len() == 16);
    crate::vec3::lemma_min_point_lower(pts);
    crate::vec3::lemma_max_point_upper(pts);
}

/// The corner sequence of one cascade's slice of the camera frustum.
pub open spec fn cascade_slice(c: Seq<Vec3>, splits: Seq<i64>, ci: int) -> Seq<Vec3> {
    slice_corners_spec(c, cascade_t(splits, ci), cascade_t(splits, ci + 1))
}

/// The stored matrices of cascade `ci` are exactly those fitted to its slice
/// of the camera frustum.
pub open spec fn cascade_matrices_ok(l: LightDirectional, corners: Seq<Vec3>, ci: int) -> bool {
    let slice = cascade_slice(corners, l.cascade_splits@, ci);
    &&& l.view_matrices@[ci] == cascade_view_spec(slice, l.direction)
    &&& l.projection_matrices@[ci] == orthographic_spec(
        cascade_bounds_min_spec(slice, l.direction),
        cascade_bounds_max_spec(slice, l.direction),
    )
    &&& l.view_projection_matrices@[ci] == mat_mul_spec(
        l.projection_matrices@[ci],
        l.view_matrices@[ci],
    )
    &&& mat_within(l.view_projection_matrices@[ci], FP_BOUND as int / 2)
}

/// Build the eight corners of one cascade slice.
fn slice_corners(c: &[Vec3; 8], tn: i64, tf: i64) -> (r: [Vec3; 8])
    requires
        forall|i: int| 0 <= i < 8 ==> vec_within(#[trigger] c@[i], CORNER_BOUND as int),
        0 <= tn <= SCALE,
        0 <= tf <= SCALE,
    ensures
        r@ == slice_corners_spec(c@, tn as int, tf as int),
        forall|j: int| 0 <= j < 8 ==> vec_within(#[trigger] r@[j], CORNER_BOUND as int),
{
    let r = [
        lerp_points(&c[0], &c[4], tn),
        lerp_points(&c[1], &c[5], tn),
        lerp_points(&c[2], &c[6], tn),
        lerp_points(&c[3], &c[7], tn),
        lerp_points(&c[0], &c[4], tf),
        lerp_points(&c[1], &c[5], tf),
        lerp_points(&c[2], &c[6], tf),
        lerp_points(&c[3], &c[7], tf),
    ];
    assert forall|j: int| 0 <= j < 8 implies #[trigger] r@[j] == slice_corners_spec(
        c@,
        tn as int,
        tf as int,
    )[j] by {
        if j == 0 {
        } else if j == 1 {
        } else if j == 2 {
        } else if j == 3 {
        } else if j == 4 {
        } else if j == 5 {
        } else if j == 6 {
        } else {
            assert(j == 7);
        }
    }
    proof {
        assert(r@ =~= slice_corners_spec(c@, tn as int, tf as int));
    }
    r
}

} // verus!
