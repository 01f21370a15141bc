//! View and projection matrices: right-handed look-at views, and
//! orthographic and perspective projections mapping depth to `[0, 1]` as the
//! GPU expects.

use vstd::prelude::*;

use crate::fp::{FP_BOUND, SCALE, div_i64, iabs, sqrt_floor, tdiv};
use crate::mat4::{Mat4, is_affine, linear_translation_within, mat_within};
use crate::vec3::{
    Vec3, cross_spec, dot_spec, lemma_div_by_mag_bounded, lemma_mag_dominates_components,
    lemma_product_bound, lemma_three_products_fit, norm_sq, normalize_spec, vec_fits, vec_within,
    vsub_spec,
};

verus! {

/// Half of one fixed-point unit; the depth remapping of a projection adds it.
pub const HALF_SCALE: i64 = 50000;

/// Smallest orthographic extent the projection accepts; below it the entries
/// would leave the fixed-point working range.
pub const MIN_ORTHO_EXTENT: i64 = 200000;

/// A right-handed look-at view: rows are the side, up and negated forward
/// basis vectors with their offsets against the eye.
pub open spec fn look_at_spec(eye: Vec3, target: Vec3, up: Vec3) -> Mat4 {
    let f = normalize_spec(vsub_spec(target, eye));
    let s = normalize_spec(cross_spec(f, up));
    let u = cross_spec(s, f);
    Mat4 {
        m00: s.x,
        m01: s.y,
        m02: s.z,
        m03: (-dot_spec(s, eye)) as i64,
        m10: u.x,
        m11: u.y,
        m12: u.z,
        m13: (-dot_spec(u, eye)) as i64,
        m20: (-f.x) as i64,
        m21: (-f.y) as i64,
        m22: (-f.z) as i64,
        m23: dot_spec(f, eye) as i64,
        m30: 0,
        m31: 0,
        m32: 0,
        m33: SCALE,
    }
}

/// A look-at view is degenerate when the eye sits on the target or the view
/// direction is parallel to the chosen up axis.
pub open spec fn look_at_degenerate(eye: Vec3, target: Vec3, up: Vec3) -> bool {
    norm_sq(vsub_spec(target, eye)) == 0 || norm_sq(
        cross_spec(normalize_spec(vsub_spec(target, eye)), up),
    ) == 0
}

/// A dot product of vectors within `ab` and `bb` stays within `3 * ab * bb`
/// divided by `SCALE`.
pub proof fn lemma_dot_bound(a: Vec3, b: Vec3, ab: int, bb: int)
    requires
        vec_within(a, ab),
        vec_within(b, bb),
        ab >= 0,
        bb >= 0,
    ensures
        iabs(dot_spec(a, b)) * SCALE as int <= 3 * (ab * bb),
        iabs(dot_spec(a, b)) <= 3 * (ab * bb) / SCALE as int,
{
    assert(iabs(a.x * b.x) == iabs(a.x as int) * iabs(b.x as int)) by (nonlinear_arith);
    assert(iabs(a.y * b.y) == iabs(a.y as int) * iabs(b.y as int)) by (nonlinear_arith);
    assert(iabs(a.z * b.z) == iabs(a.z as int) * iabs(b.z as int)) by (nonlinear_arith);
    assert(iabs(a.x as int) * iabs(b.x as int) <= ab * bb) by (nonlinear_arith)
        requires
            0 <= iabs(a.x as int) <= ab,
            0 <= iabs(b.x as int) <= bb,
    ;
    assert(iabs(a.y as int) * iabs(b.y as int) <= ab * bb) by (nonlinear_arith)
        requires
            0 <= iabs(a.y as int) <= ab,
            0 <= iabs(b.y as int) <= bb,
    ;
    assert(iabs(a.z as int) * iabs(b.z as int) <= ab * bb) by (nonlinear_arith)
        requires
            0 <= iabs(a.z as int) <= ab,
            0 <= iabs(b.z as int) <= bb,
    ;
    let num = a.x * b.x + a.y * b.y + a.z * b.z;
    assert(iabs(num) <= 3 * (ab * bb));
    crate::fp::lemma_tdiv_bound(num, SCALE as int);
    vstd::arithmetic::div_mod::lemma_div_is_ordered(iabs(num), 3 * (ab * bb), SCALE as int);
    assert(iabs(dot_spec(a, b)) <= iabs(num) / SCALE as int);
    assert(iabs(dot_spec(a, b)) * SCALE as int <= (iabs(num) / SCALE as int) * SCALE as int)
        by (nonlinear_arith)
        requires
            iabs(dot_spec(a, b)) <= iabs(num) / SCALE as int,
            SCALE as int > 0,
    ;
    assert((iabs(num) / SCALE as int) * SCALE as int <= iabs(num)) by (nonlinear_arith)
        requires
            iabs(num) >= 0,
            SCALE as int > 0,
    ;
}

/// A cross product of vectors within `ab` and `bb` stays within
/// `2 * ab * bb / SCALE`.
pub proof fn lemma_cross_bound(a: Vec3, b: Vec3, ab: int, bb: int)
    requires
        vec_within(a, ab),
        vec_within(b, bb),
        ab >= 0,
        bb >= 0,
    ensures
        vec_within(cross_spec(a, b), 2 * (ab * bb) / SCALE as int),
{
    lemma_cross_component(a.y as int, b.z as int, a.z as int, b.y as int, ab, bb);
    lemma_cross_component(a.z as int, b.x as int, a.x as int, b.z as int, ab, bb);
    lemma_cross_component(a.x as int, b.y as int, a.y as int, b.x as int, ab, bb);
}

proof fn lemma_cross_component(p: int, q: int, r: int, s: int, ab: int, bb: int)
    requires
        iabs(p) <= ab,
        iabs(q) <= bb,
        iabs(r) <= ab,
        iabs(s) <= bb,
        ab >= 0,
        bb >= 0,
    ensures
        iabs(tdiv(p * q - r * s, SCALE as int)) <= 2 * (ab * bb) / SCALE as int,
{
    assert(iabs(p * q) == iabs(p) * iabs(q)) by (nonlinear_arith);
    assert(iabs(r * s) == iabs(r) * iabs(s)) by (nonlinear_arith);
    assert(iabs(p) * iabs(q) <= ab * bb) by (nonlinear_arith)
        requires
            0 <= iabs(p) <= ab,
            0 <= iabs(q) <= bb,
    ;
    assert(iabs(r) * iabs(s) <= ab * bb) by (nonlinear_arith)
        requires
            0 <= iabs(r) <= ab,
            0 <= iabs(s) <= bb,
    ;
    crate::fp::lemma_tdiv_bound(p * q - r * s, SCALE as int);
    vstd::arithmetic::div_mod::lemma_div_is_ordered(
        iabs(p * q - r * s),
        2 * (ab * bb),
        SCALE as int,
    );
}

/// The rows of a non-degenerate look-at view: unit-scale basis rows and
/// translations within six times the eye's bound.
pub proof fn lemma_look_at_within(eye: Vec3, target: Vec3, up: Vec3, eb: int)
    requires
        !look_at_degenerate(eye, target, up),
        vec_within(eye, eb),
        vec_within(up, SCALE as int),
        eb >= 0,
    ensures
        is_affine(look_at_spec(eye, target, up)),
        linear_translation_within(look_at_spec(eye, target, up), 2 * SCALE as int, 6 * eb),
        vec_within(normalize_spec(vsub_spec(target, eye)), SCALE as int),
        vec_within(normalize_spec(cross_spec(normalize_spec(vsub_spec(target, eye)), up)), SCALE as int),
{
    let fv = vsub_spec(target, eye);
    let f = normalize_spec(fv);
    crate::vec3::lemma_norm_sq_nonneg(fv);
    crate::vec3::lemma_normalize_within(fv);
    let s0 = cross_spec(f, up);
    let s = normalize_spec(s0);
    crate::vec3::lemma_norm_sq_nonneg(s0);
    crate::vec3::lemma_normalize_within(s0);
    let u = cross_spec(s, f);
    lemma_cross_bound(s, f, SCALE as int, SCALE as int);
    assert(2 * (SCALE as int * SCALE as int) / SCALE as int == 2 * SCALE as int) by {
        assert(2 * (SCALE as int * SCALE as int) == SCALE as int * (2 * SCALE as int))
            by (nonlinear_arith);
        vstd::arithmetic::div_mod::lemma_div_multiples_vanish(2 * SCALE as int, SCALE as int);
    }
    lemma_dot_bound(s, eye, SCALE as int, eb);
    lemma_dot_bound(u, eye, 2 * SCALE as int, eb);
    lemma_dot_bound(f, eye, SCALE as int, eb);
    assert(3 * (SCALE as int * eb) <= SCALE as int * (6 * eb)) by (nonlinear_arith)
        requires
            eb >= 0,
    ;
    assert(3 * (2 * SCALE as int * eb) <= SCALE as int * (6 * eb)) by (nonlinear_arith)
        requires
            eb >= 0,
    ;
    lemma_scaled_bound_div(iabs(dot_spec(s, eye)), 6 * eb);
    lemma_scaled_bound_div(iabs(dot_spec(u, eye)), 6 * eb);
    lemma_scaled_bound_div(iabs(dot_spec(f, eye)), 6 * eb);
}

/// From `v * SCALE <= SCALE * b` conclude `v <= b`.
proof fn lemma_scaled_bound_div(v: int, b: int)
    requires
        v >= 0,
        b >= 0,
        v * SCALE as int <= SCALE as int * b,
    ensures
        v <= b,
{
    assert(v <= b) by (nonlinear_arith)
        requires
            v >= 0,
            b >= 0,
            v * SCALE as int <= SCALE as int * b,
            SCALE as int > 0,
    ;
}


/// An orthographic projection onto the box `[bmin, bmax]` of light-space
/// coordinates, looking down negative z, with depth mapped to `[0, 1]`.
pub open spec fn orthographic_spec(bmin: Vec3, bmax: Vec3) -> Mat4 {
    Mat4 {
        m00: tdiv(2 * SCALE * SCALE, bmax.x - bmin.x) as i64,
        m01: 0,
        m02: 0,
        m03: (-tdiv((bmax.x + bmin.x) * SCALE, bmax.x - bmin.x)) as i64,
        m10: 0,
        m11: tdiv(2 * SCALE * SCALE, bmax.y - bmin.y) as i64,
        m12: 0,
        m13: (-tdiv((bmax.y + bmin.y) * SCALE, bmax.y - bmin.y)) as i64,
        m20: 0,
        m21: 0,
        m22: (-tdiv(SCALE * SCALE, bmax.z - bmin.z)) as i64,
        m23: (tdiv((bmin.z + bmax.z) * SCALE, 2 * (bmax.z - bmin.z)) + HALF_SCALE) as i64,
        m30: 0,
        m31: 0,
        m32: 0,
        m33: SCALE,
    }
}

/// Build the orthographic projection for a cascade's light-space bounds.
/// The extents must clear `MIN_ORTHO_EXTENT` so every entry stays in range.
pub fn orthographic_wgpu(bmin: &Vec3, bmax: &Vec3) -> (r: Mat4)
    requires
        vec_within(*bmin, FP_BOUND as int),
        vec_within(*bmax, FP_BOUND as int),
        bmax.x - bmin.x >= MIN_ORTHO_EXTENT,
        bmax.y - bmin.y >= MIN_ORTHO_EXTENT,
        bmax.z - bmin.z >= MIN_ORTHO_EXTENT,
    ensures
        r == orthographic_spec(*bmin, *bmax),
        mat_within(r, FP_BOUND as int),
        crate::mat4::is_affine(r),
{
    proof {
        lemma_ortho_axis(bmin.x as int, bmax.x as int);
        lemma_ortho_axis(bmin.y as int, bmax.y as int);
        lemma_ortho_axis(bmin.z as int, bmax.z as int);
    }
    let ex: i64 = bmax.x - bmin.x;
    let ey: i64 = bmax.y - bmin.y;
    let ez: i64 = bmax.z - bmin.z;
    let m00: i64 = div_i64(2 * SCALE * SCALE, ex);
    let m03: i64 = -div_i64((bmax.x + bmin.x) * SCALE, ex);
    let m11: i64 = div_i64(2 * SCALE * SCALE, ey);
    let m13: i64 = -div_i64((bmax.y + bmin.y) * SCALE, ey);
    let m22: i64 = -div_i64(SCALE * SCALE, ez);
    let m23: i64 = div_i64((bmin.z + bmax.z) * SCALE, 2 * ez) + HALF_SCALE;
    Mat4 {
        m00,
        m01: 0,
        m02: 0,
        m03,
        m10: 0,
        m11,
        m12: 0,
        m13,
        m20: 0,
        m21: 0,
        m22,
        m23,
        m30: 0,
        m31: 0,
        m32: 0,
        m33: SCALE,
    }
}

/// Entry bounds for one axis of the orthographic projection.
proof fn lemma_ortho_axis(lo: int, hi: int)
    requires
        iabs(lo) <= FP_BOUND as int,
        iabs(hi) <= FP_BOUND as int,
        hi - lo >= MIN_ORTHO_EXTENT,
    ensures
        iabs(tdiv(2 * SCALE * SCALE, hi - lo)) <= SCALE as int,
        iabs(tdiv((hi + lo) * SCALE, hi - lo)) <= FP_BOUND as int,
        iabs(tdiv(SCALE * SCALE, hi - lo)) <= SCALE as int,
        iabs(tdiv((lo + hi) * SCALE, 2 * (hi - lo))) <= FP_BOUND as int / 2,
{
    let e = hi - lo;
    crate::fp::lemma_tdiv_bound(2 * SCALE * SCALE, e);
    crate::fp::lemma_tdiv_bound((hi + lo) * SCALE, e);
    crate::fp::lemma_tdiv_bound(SCALE * SCALE, e);
    crate::fp::lemma_tdiv_bound((lo + hi) * SCALE, 2 * e);
    assert(iabs(2 * SCALE * SCALE) / e <= SCALE as int) by (nonlinear_arith)
        requires
            e >= MIN_ORTHO_EXTENT,
            MIN_ORTHO_EXTENT == 2 * SCALE,
            SCALE as int > 0,
    ;
    assert(iabs(SCALE * SCALE) / e <= SCALE as int) by (nonlinear_arith)
        requires
            e >= MIN_ORTHO_EXTENT,
            MIN_ORTHO_EXTENT == 2 * SCALE,
            SCALE as int > 0,
    ;
    assert(iabs((hi + lo) * SCALE) == iabs(hi + lo) * SCALE as int) by (nonlinear_arith)
        requires
            SCALE as int > 0,
    ;
    assert(iabs(hi + lo) * SCALE as int / e <= FP_BOUND as int) by (nonlinear_arith)
        requires
            0 <= iabs(hi + lo) <= 2 * FP_BOUND as int,
            e >= 2 * SCALE,
            SCALE as int > 0,
    ;
    assert(iabs((lo + hi) * SCALE) / (2 * e) <= FP_BOUND as int / 2) by (nonlinear_arith)
        requires
            iabs((lo + hi) * SCALE) == iabs(hi + lo) * SCALE as int,
            0 <= iabs(hi + lo) <= 2 * FP_BOUND as int,
            e >= 2 * SCALE,
            SCALE as int > 0,
            FP_BOUND as int / 2 == 500000000,
            FP_BOUND as int == 1000000000,
    ;
}

/// A perspective projection from vertical field of view (as the tangent of
/// its half-angle), aspect ratio, and near and far planes, depth in `[0, 1]`.
pub open spec fn perspective_spec(tan_half_fov: int, aspect: int, near: int, far: int) -> Mat4 {
    let focal = tdiv(SCALE * SCALE, tan_half_fov);
    Mat4 {
        m00: tdiv(focal * SCALE, aspect) as i64,
        m01: 0,
        m02: 0,
        m03: 0,
        m10: 0,
        m11: focal as i64,
        m12: 0,
        m13: 0,
        m20: 0,
        m21: 0,
        m22: (-tdiv(far * SCALE, far - near)) as i64,
        m23: (-tdiv(far * near, far - near)) as i64,
        m30: 0,
        m31: 0,
        m32: (-SCALE) as i64,
        m33: 0,
    }
}

/// Build the perspective projection of a camera or spot light.
pub fn perspective_wgpu(tan_half_fov: i64, aspect: i64, near: i64, far: i64) -> (r: Mat4)
    requires
        SCALE / 10 <= tan_half_fov <= 10 * SCALE,
        SCALE / 10 <= aspect <= 10 * SCALE,
        0 < near,
        2 * near <= far,
        far <= FP_BOUND / 10,
    ensures
        r == perspective_spec(tan_half_fov as int, aspect as int, near as int, far as int),
        mat_within(r, FP_BOUND as int / 2),
{
    proof {
        lemma_perspective_bounds(tan_half_fov as int, aspect as int, near as int, far as int);
    }
    proof {
        lemma_product_bound(far as int, near as int);
    }
    let focal: i64 = div_i64(SCALE * SCALE, tan_half_fov);
    let m00: i64 = div_i64(focal * SCALE, aspect);
    let m22: i64 = -div_i64(far * SCALE, far - near);
    let m23: i64 = -div_i64(far * near, far - near);
    Mat4 {
        m00,
        m01: 0,
        m02: 0,
        m03: 0,
        m10: 0,
        m11: focal,
        m12: 0,
        m13: 0,
        m20: 0,
        m21: 0,
        m22,
        m23,
        m30: 0,
        m31: 0,
        m32: -SCALE,
        m33: 0,
    }
}

/// Entry bounds for the perspective projection.
proof fn lemma_perspective_bounds(tan_half_fov: int, aspect: int, near: int, far: int)
    requires
        SCALE as int / 10 <= tan_half_fov <= 10 * SCALE as int,
        SCALE as int / 10 <= aspect <= 10 * SCALE as int,
        0 < near,
        2 * near <= far,
        far <= FP_BOUND as int / 10,
    ensures
        0 <= tdiv(SCALE * SCALE, tan_half_fov) <= 10 * SCALE as int,
        iabs(tdiv(tdiv(SCALE * SCALE, tan_half_fov) * SCALE, aspect)) <= 100 * SCALE as int,
        iabs(tdiv(far * SCALE, far - near)) <= 2 * SCALE as int,
        iabs(tdiv(far * near, far - near)) <= 2 * near,
        iabs(tdiv(far * near, far - near)) <= FP_BOUND as int / 2,
        tdiv(far * near, far - near) >= 0,
{
    let focal = tdiv(SCALE * SCALE, tan_half_fov);
    crate::fp::lemma_tdiv_bound(SCALE * SCALE, tan_half_fov);
    assert(iabs(SCALE * SCALE) / tan_half_fov <= 10 * SCALE as int) by (nonlinear_arith)
        requires
            tan_half_fov >= SCALE as int / 10,
            SCALE as int == 100000,
    ;
    assert(focal >= 0) by {
        assert(SCALE * SCALE > 0) by (nonlinear_arith)
            requires
                SCALE as int > 0,
        ;
        assert(iabs(SCALE * SCALE) / tan_half_fov >= 0) by (nonlinear_arith)
            requires
                iabs(SCALE * SCALE) >= 0,
                tan_half_fov > 0,
        ;
    }
    crate::fp::lemma_tdiv_bound(focal * SCALE, aspect);
    assert(iabs(focal * SCALE) == focal * SCALE as int) by (nonlinear_arith)
        requires
            focal >= 0,
            SCALE as int > 0,
    ;
    assert(focal * SCALE as int / aspect <= 100 * SCALE as int) by (nonlinear_arith)
        requires
            0 <= focal <= 10 * SCALE as int,
            aspect >= SCALE as int / 10,
            SCALE as int == 100000,
    ;
    crate::fp::lemma_tdiv_bound(far * SCALE, far - near);
    assert(iabs(far * SCALE) == far * SCALE as int) by (nonlinear_arith)
        requires
            far >= 0,
            SCALE as int > 0,
    ;
    assert(far * SCALE as int / (far - near) <= 2 * SCALE as int) by (nonlinear_arith)
        requires
            0 < near,
            2 * near <= far,
            SCALE as int > 0,
    ;
    crate::fp::lemma_tdiv_bound(far * near, far - near);
    assert(iabs(far * near) == far * near) by (nonlinear_arith)
        requires
            far >= 0,
            near >= 0,
    ;
    assert(far * near / (far - near) <= 2 * near) by (nonlinear_arith)
        requires
            0 < near,
            2 * near <= far,
    ;
    assert(tdiv(far * near, far - near) >= 0) by {
        assert(far * near >= 0) by (nonlinear_arith)
            requires
                far >= 0,
                near >= 0,
        ;
        assert(iabs(far * near) / iabs(far - near) >= 0) by (nonlinear_arith)
            requires
                iabs(far * near) >= 0,
                iabs(far - near) > 0,
        ;
    }
}

/// Build a right-handed look-at view matrix; `None` when the eye sits on the
/// target or the view direction is parallel to `up`.
pub fn look_at_rh(eye: &Vec3, target: &Vec3, up: &Vec3) -> (r: Option<Mat4>)
    requires
        vec_within(*eye, FP_BOUND as int / 2),
        vec_within(*target, FP_BOUND as int / 2),
        vec_within(*up, SCALE as int),
    ensures
        r is Some <==> !look_at_degenerate(*eye, *target, *up),
        r matches Some(m) ==> m == look_at_spec(*eye, *target, *up),
{
    let fwd = target.sub(*eye);
    proof {
        crate::vec3::lemma_norm_sq_nonneg(fwd);
        assert(fwd == vsub_spec(*target, *eye));
    }
    let f = match fwd.normalize() {
        Some(f) => f,
        None => {
            return None;
        },
    };
    assert(f == normalize_spec(vsub_spec(*target, *eye)));
    proof {
        crate::vec3::lemma_normalize_within(fwd);
    }
    let s0 = f.cross(*up);
    proof {
        assert(s0 == cross_spec(f, *up));
        crate::vec3::lemma_norm_sq_nonneg(s0);
        lemma_cross_bound(f, *up, SCALE as int, SCALE as int);
        assert(2 * (SCALE as int * SCALE as int) / SCALE as int == 2 * SCALE as int) by {
            assert(2 * (SCALE as int * SCALE as int) == SCALE as int * (2 * SCALE as int))
                by (nonlinear_arith);
            vstd::arithmetic::div_mod::lemma_div_multiples_vanish(2 * SCALE as int, SCALE as int);
        }
    }
    let s = match s0.normalize() {
        Some(s) => s,
        None => {
            return None;
        },
    };
    let u = s.cross(f);
    assert(u == cross_spec(s, f));
    proof {
        crate::vec3::lemma_normalize_within(s0);
        lemma_cross_bound(s, f, SCALE as int, SCALE as int);
        assert(2 * (SCALE as int * SCALE as int) / SCALE as int == 2 * SCALE as int) by {
            assert(2 * (SCALE as int * SCALE as int) == SCALE as int * (2 * SCALE as int))
                by (nonlinear_arith);
            vstd::arithmetic::div_mod::lemma_div_multiples_vanish(2 * SCALE as int, SCALE as int);
        }
        lemma_dot_bound(s, *eye, SCALE as int, FP_BOUND as int / 2);
        lemma_dot_bound(u, *eye, 2 * SCALE as int, FP_BOUND as int / 2);
        lemma_dot_bound(f, *eye, SCALE as int, FP_BOUND as int / 2);
    }
    let m03: i64 = -s.dot(*eye);
    let m13: i64 = -u.dot(*eye);
    let m23: i64 = f.dot(*eye);
    Some(
        Mat4 {
            m00: s.x,
            m01: s.y,
            m02: s.z,
            m03,
            m10: u.x,
            m11: u.y,
            m12: u.z,
            m13,
            m20: -f.x,
            m21: -f.y,
            m22: -f.z,
            m23,
            m30: 0,
            m31: 0,
            m32: 0,
            m33: SCALE,
        },
    )
}

/// Up axis for a camera-style view: the world up axis, or the alternate one
/// when the view direction is near-vertical.
pub open spec fn up_y_with_z_fallback(eye: Vec3, target: Vec3) -> Vec3 {
    let f = normalize_spec(vsub_spec(target, eye));
    if norm_sq(cross_spec(f, crate::vec3::y_axis_spec())) == 0 {
        crate::vec3::z_axis_spec()
    } else {
        crate::vec3::y_axis_spec()
    }
}

/// With the world up axis and its alternate as fallback, a look-at view for
/// any non-degenerate direction exists.
pub proof fn lemma_fallback_up_y_total(eye: Vec3, target: Vec3)
    requires
        norm_sq(vsub_spec(target, eye)) > 0,
    ensures
        !look_at_degenerate(eye, target, up_y_with_z_fallback(eye, target)),
{
    let fv = vsub_spec(target, eye);
    let f = normalize_spec(fv);
    crate::vec3::lemma_normalize_nonzero(fv);
    crate::vec3::lemma_normalize_within(fv);
    let yup = crate::vec3::y_axis_spec();
    let zup = crate::vec3::z_axis_spec();
    let cy = cross_spec(f, yup);
    crate::fp::lemma_tdiv_exact(f.x as int, SCALE as int);
    crate::fp::lemma_tdiv_exact(-(f.z as int), SCALE as int);
    crate::fp::lemma_tdiv_exact(0, SCALE as int);
    assert(f.y * yup.z - f.z * yup.y == (-(f.z as int)) * SCALE) by (nonlinear_arith)
        requires
            yup.z == 0,
            yup.y == SCALE as int,
    ;
    assert(f.z * yup.x - f.x * yup.z == 0 * SCALE) by (nonlinear_arith)
        requires
            yup.x == 0,
            yup.z == 0,
    ;
    assert(f.x * yup.y - f.y * yup.x == f.x * SCALE) by (nonlinear_arith)
        requires
            yup.x == 0,
            yup.y == SCALE as int,
    ;
    assert(cy.x == -(f.z as int) && cy.y == 0 && cy.z == f.x);
    crate::vec3::lemma_zero_norm(cy);
    if norm_sq(cy) == 0 {
        assert(f.x == 0 && f.z == 0);
        assert(f.y != 0);
        let cz = cross_spec(f, zup);
        crate::fp::lemma_tdiv_exact(f.y as int, SCALE as int);
        crate::fp::lemma_tdiv_exact(-(f.x as int), SCALE as int);
        assert(f.y * zup.z - f.z * zup.y == f.y * SCALE) by (nonlinear_arith)
            requires
                zup.z == SCALE as int,
                zup.y == 0,
        ;
        assert(f.z * zup.x - f.x * zup.z == (-(f.x as int)) * SCALE) by (nonlinear_arith)
            requires
                zup.x == 0,
                zup.z == SCALE as int,
        ;
        assert(f.x * zup.y - f.y * zup.x == 0 * SCALE) by (nonlinear_arith)
            requires
                zup.x == 0,
                zup.y == 0,
        ;
        assert(cz.x == f.y && cz.y == -(f.x as int) && cz.z == 0);
        crate::vec3::lemma_zero_norm(cz);
        assert(norm_sq(cz) != 0);
        crate::vec3::lemma_norm_sq_nonneg(cz);
        assert(up_y_with_z_fallback(eye, target) == zup);
    } else {
        crate::vec3::lemma_norm_sq_nonneg(cy);
        assert(up_y_with_z_fallback(eye, target) == yup);
    }
}

} // verus!
