//! Clip-space frustum planes and axis-aligned-box culling.
//!
//! The six planes of a view-projection matrix come from adding or
//! subtracting a row of the matrix to or from its last row; each is then
//! normalized so its plane equation evaluates true signed distance. A box is
//! kept when, for every plane, its most positive corner along the plane
//! normal — pushed a fixed padding along the normal — is not strictly behind
//! the plane.

use vstd::prelude::*;

use crate::fp::{FP_BOUND, SCALE, div_i64, fits_fp, iabs, is_sqrt, sqrt_floor, tdiv};
use crate::mat4::{Mat4, mat_within};
use crate::vec3::{Vec3, norm_sq, vec_within};

verus! {

/// World-unit padding added along each plane normal before the visibility
/// test; absorbs a numerical margin in the derived planes.
pub const CULL_PADDING: i64 = 100000;

/// A half-space `dot(normal, p) + d >= 0`; `d` carries the same fixed-point
/// scale as the point coordinates.
#[derive(Clone, Copy, Debug, PartialEq, Eq, Structural)]
pub struct FrustumPlane {
    pub normal: Vec3,
    pub d: i64,
}

/// Bounds under which the culling arithmetic cannot overflow.
pub open spec fn plane_fits(pl: FrustumPlane) -> bool {
    vec_within(pl.normal, FP_BOUND as int) && iabs(pl.d as int) <= SCALE as int * FP_BOUND as int
}

/// The six planes read off a view-projection matrix before normalization,
/// in the order left, right, bottom, top, near, far.
pub open spec fn raw_plane(m: Mat4, i: int) -> FrustumPlane {
    if i == 0 {
        FrustumPlane {
            normal: Vec3 { x: (m.m30 + m.m00) as i64, y: (m.m31 + m.m01) as i64, z: (m.m32 + m.m02) as i64 },
            d: (m.m33 + m.m03) as i64,
        }
    } else if i == 1 {
        FrustumPlane {
            normal: Vec3 { x: (m.m30 - m.m00) as i64, y: (m.m31 - m.m01) as i64, z: (m.m32 - m.m02) as i64 },
            d: (m.m33 - m.m03) as i64,
        }
    } else if i == 2 {
        FrustumPlane {
            normal: Vec3 { x: (m.m30 + m.m10) as i64, y: (m.m31 + m.m11) as i64, z: (m.m32 + m.m12) as i64 },
            d: (m.m33 + m.m13) as i64,
        }
    } else if i == 3 {
        FrustumPlane {
            normal: Vec3 { x: (m.m30 - m.m10) as i64, y: (m.m31 - m.m11) as i64, z: (m.m32 - m.m12) as i64 },
            d: (m.m33 - m.m13) as i64,
        }
    } else if i == 4 {
        FrustumPlane {
            normal: Vec3 { x: (m.m30 + m.m20) as i64, y: (m.m31 + m.m21) as i64, z: (m.m32 + m.m22) as i64 },
            d: (m.m33 + m.m23) as i64,
        }
    } else {
        FrustumPlane {
            normal: Vec3 { x: (m.m30 - m.m20) as i64, y: (m.m31 - m.m21) as i64, z: (m.m32 - m.m22) as i64 },
            d: (m.m33 - m.m23) as i64,
        }
    }
}

/// A raw plane scaled by the reciprocal of its normal's length, so the
/// normal has (fixed-point) unit length; a degenerate plane with a zero
/// normal is left as it stands.
pub open spec fn normalized_plane(pl: FrustumPlane) -> FrustumPlane {
    let mag = sqrt_floor(norm_sq(pl.normal));
    if mag > 0 {
        FrustumPlane {
            normal: Vec3 {
                x: tdiv(pl.normal.x * SCALE, mag) as i64,
                y: tdiv(pl.normal.y * SCALE, mag) as i64,
                z: tdiv(pl.normal.z * SCALE, mag) as i64,
            },
            d: tdiv(pl.d * SCALE, mag) as i64,
        }
    } else {
        pl
    }
}

/// The corner of the box most positive along the plane normal.
pub open spec fn p_vertex(pl: FrustumPlane, bmin: Vec3, bmax: Vec3) -> Vec3 {
    Vec3 {
        x: if pl.normal.x >= 0 { bmax.x } else { bmin.x },
        y: if pl.normal.y >= 0 { bmax.y } else { bmin.y },
        z: if pl.normal.z >= 0 { bmax.z } else { bmin.z },
    }
}

/// Raw signed distance numerator of a point against a plane, at scale
/// `SCALE * SCALE`: the sum of component products plus `d` carried up.
pub open spec fn raw_dist(pl: FrustumPlane, p: Vec3) -> int {
    pl.normal.x * p.x + pl.normal.y * p.y + pl.normal.z * p.z + pl.d * SCALE
}

/// One plane's verdict on a box: the padded most positive corner is not
/// strictly behind the plane.
pub open spec fn plane_keeps(pl: FrustumPlane, bmin: Vec3, bmax: Vec3) -> bool {
    let p = p_vertex(pl, bmin, bmax);
    let px = p.x + tdiv(pl.normal.x * CULL_PADDING, SCALE as int);
    let py = p.y + tdiv(pl.normal.y * CULL_PADDING, SCALE as int);
    let pz = p.z + tdiv(pl.normal.z * CULL_PADDING, SCALE as int);
    tdiv(pl.normal.x * px + pl.normal.y * py + pl.normal.z * pz, SCALE as int) + pl.d >= 0
}

/// A box is visible when every plane keeps it.
pub open spec fn box_in_frustum(bmin: Vec3, bmax: Vec3, planes: Seq<FrustumPlane>) -> bool {
    forall|i: int| 0 <= i < planes.len() ==> plane_keeps(#[trigger] planes[i], bmin, bmax)
}

/// Derive the six frustum planes of a view-projection matrix: row sums and
/// differences, each normalized to a unit normal.
pub fn frustum_planes_from_matrix(view_projection_matrix: &Mat4) -> (planes: [FrustumPlane; 6])
    requires
        mat_within(*view_projection_matrix, FP_BOUND as int / 2),
    ensures
        planes@.len() == 6,
        forall|i: int|
            0 <= i < 6 ==> #[trigger] planes@[i] == normalized_plane(
                raw_plane(*view_projection_matrix, i),
            ),
        forall|i: int| 0 <= i < 6 ==> plane_fits(#[trigger] planes@[i]),
{
    let m = *view_projection_matrix;
    let left = normalize_plane(
        FrustumPlane {
            normal: Vec3 { x: m.m30 + m.m00, y: m.m31 + m.m01, z: m.m32 + m.m02 },
            d: m.m33 + m.m03,
        },
    );
    let right = normalize_plane(
        FrustumPlane {
            normal: Vec3 { x: m.m30 - m.m00, y: m.m31 - m.m01, z: m.m32 - m.m02 },
            d: m.m33 - m.m03,
        },
    );
    let bottom = normalize_plane(
        FrustumPlane {
            normal: Vec3 { x: m.m30 + m.m10, y: m.m31 + m.m11, z: m.m32 + m.m12 },
            d: m.m33 + m.m13,
        },
    );
    let top = normalize_plane(
        FrustumPlane {
            normal: Vec3 { x: m.m30 - m.m10, y: m.m31 - m.m11, z: m.m32 - m.m12 },
            d: m.m33 - m.m13,
        },
    );
    let near = normalize_plane(
        FrustumPlane {
            normal: Vec3 { x: m.m30 + m.m20, y: m.m31 + m.m21, z: m.m32 + m.m22 },
            d: m.m33 + m.m23,
        },
    );
    let far = normalize_plane(
        FrustumPlane {
            normal: Vec3 { x: m.m30 - m.m20, y: m.m31 - m.m21, z: m.m32 - m.m22 },
            d: m.m33 - m.m23,
        },
    );
    let planes = [left, right, bottom, top, near, far];
    planes
}

/// Normalize a plane so its normal has fixed-point unit length; a zero
/// normal leaves the plane unchanged.
pub fn normalize_plane(pl: FrustumPlane) -> (r: FrustumPlane)
    requires
        vec_within(pl.normal, FP_BOUND as int),
        iabs(pl.d as int) <= FP_BOUND as int,
    ensures
        r == normalized_plane(pl),
        plane_fits(r),
{
    let mag: i64 = pl.normal.norm();
    if mag > 0 {
        proof {
            crate::vec3::lemma_mag_dominates_components(pl.normal, mag as int);
            crate::vec3::lemma_product_bound(pl.normal.x as int, SCALE as int);
            crate::vec3::lemma_product_bound(pl.normal.y as int, SCALE as int);
            crate::vec3::lemma_product_bound(pl.normal.z as int, SCALE as int);
            crate::vec3::lemma_product_bound(pl.d as int, SCALE as int);
            crate::fp::lemma_tdiv_bound(pl.normal.x * SCALE, mag as int);
            crate::fp::lemma_tdiv_bound(pl.normal.y * SCALE, mag as int);
            crate::fp::lemma_tdiv_bound(pl.normal.z * SCALE, mag as int);
            crate::fp::lemma_tdiv_bound(pl.d * SCALE, mag as int);
            crate::vec3::lemma_div_by_mag_bounded(pl.normal.x as int, mag as int);
            crate::vec3::lemma_div_by_mag_bounded(pl.normal.y as int, mag as int);
            crate::vec3::lemma_div_by_mag_bounded(pl.normal.z as int, mag as int);
            assert(iabs(pl.d * SCALE) / mag as int <= iabs(pl.d * SCALE)) by (nonlinear_arith)
                requires
                    mag as int >= 1,
                    iabs(pl.d * SCALE) >= 0,
            ;
        }
        FrustumPlane {
            normal: Vec3 {
                x: div_i64(pl.normal.x * SCALE, mag),
                y: div_i64(pl.normal.y * SCALE, mag),
                z: div_i64(pl.normal.z * SCALE, mag),
            },
            d: div_i64(pl.d * SCALE, mag),
        }
    } else {
        pl
    }
}



/// Cull test of a world-space box against a set of planes: for each plane,
/// take the box corner most positive along the normal, push it the fixed
/// padding along the normal, and reject the box if that corner is strictly
/// behind the plane.
pub fn aabb_in_frustum(aabb_min: &Vec3, aabb_max: &Vec3, planes: &[FrustumPlane; 6]) -> (r: bool)
    requires
        vec_within(*aabb_min, FP_BOUND as int),
        vec_within(*aabb_max, FP_BOUND as int),
        forall|i: int| 0 <= i < 6 ==> plane_fits(#[trigger] planes@[i]),
    ensures
        r == box_in_frustum(*aabb_min, *aabb_max, planes@),
{
    let mut k: usize = 0;
    while k < 6
        invariant
            0 <= k <= 6,
            vec_within(*aabb_min, FP_BOUND as int),
            vec_within(*aabb_max, FP_BOUND as int),
            forall|i: int| 0 <= i < 6 ==> plane_fits(#[trigger] planes@[i]),
            forall|i: int| 0 <= i < k ==> plane_keeps(#[trigger] planes@[i], *aabb_min, *aabb_max),
        decreases 6 - k,
    {
        let pl = planes[k];
        let px: i64 = if pl.normal.x >= 0 {
            aabb_max.x
        } else {
            aabb_min.x
        };
        let py: i64 = if pl.normal.y >= 0 {
            aabb_max.y
        } else {
            aabb_min.y
        };
        let pz: i64 = if pl.normal.z >= 0 {
            aabb_max.z
        } else {
            aabb_min.z
        };
        proof {
            crate::vec3::lemma_product_bound(pl.normal.x as int, CULL_PADDING as int);
            crate::vec3::lemma_product_bound(pl.normal.y as int, CULL_PADDING as int);
            crate::vec3::lemma_product_bound(pl.normal.z as int, CULL_PADDING as int);
            crate::fp::lemma_tdiv_bound(pl.normal.x * CULL_PADDING, SCALE as int);
            crate::fp::lemma_tdiv_bound(pl.normal.y * CULL_PADDING, SCALE as int);
            crate::fp::lemma_tdiv_bound(pl.normal.z * CULL_PADDING, SCALE as int);
        }
        let padding: i64 = CULL_PADDING;
        let px: i64 = px + div_i64(pl.normal.x * padding, SCALE);
        let py: i64 = py + div_i64(pl.normal.y * padding, SCALE);
        let pz: i64 = pz + div_i64(pl.normal.z * padding, SCALE);
        proof {
            lemma_padded_products_fit(pl, px as int, py as int, pz as int);
        }
        let num: i64 = pl.normal.x * px + pl.normal.y * py + pl.normal.z * pz;
        let dist: i64 = div_i64(num, SCALE) + pl.d;
        proof {
            crate::fp::lemma_tdiv_bound(num as int, SCALE as int);
        }
        if dist < 0 {
            return false;
        }
        k = k + 1;
    }
    true
}

/// Frustum-plane normalization: whenever a raw plane's normal is at least
/// one world unit long, the normalized plane's normal has fixed-point unit
/// length to within four quanta — its squared norm lies between
/// `(SCALE - 4)^2` and `(SCALE + 4)^2`.
pub proof fn lemma_normalized_normal_unit_length(pl: FrustumPlane)
    requires
        vec_within(pl.normal, FP_BOUND as int),
        sqrt_floor(norm_sq(pl.normal)) >= SCALE,
    ensures
        (SCALE - 4) * (SCALE - 4) <= norm_sq(normalized_plane(pl).normal),
        norm_sq(normalized_plane(pl).normal) <= (SCALE + 4) * (SCALE + 4),
{
    let s = SCALE as int;
    let n2 = norm_sq(pl.normal);
    assert(pl.normal.x * pl.normal.x >= 0 && pl.normal.y * pl.normal.y >= 0 && pl.normal.z
        * pl.normal.z >= 0) by (nonlinear_arith);
    crate::fp::lemma_sqrt_floor_is_sqrt(n2);
    let mag = sqrt_floor(n2);
    assert(is_sqrt(n2, mag));
    crate::vec3::lemma_mag_dominates_components(pl.normal, mag);
    let c1 = pl.normal.x as int;
    let c2 = pl.normal.y as int;
    let c3 = pl.normal.z as int;
    let d1 = c1 * s;
    let d2 = c2 * s;
    let d3 = c3 * s;
    let q1 = tdiv(d1, mag);
    let q2 = tdiv(d2, mag);
    let q3 = tdiv(d3, mag);
    assert(normalized_plane(pl).normal.x == q1 && normalized_plane(pl).normal.y == q2
        && normalized_plane(pl).normal.z == q3);
    crate::fp::lemma_tdiv_remainder(d1, mag);
    crate::fp::lemma_tdiv_remainder(d2, mag);
    crate::fp::lemma_tdiv_remainder(d3, mag);
    let u1 = q1 * mag;
    let u2 = q2 * mag;
    let u3 = q3 * mag;
    // The raw squared norm carries up by s * s, component by component.
    assert(d1 * d1 == (s * s) * (c1 * c1)) by (nonlinear_arith)
        requires
            d1 == c1 * s,
    ;
    assert(d2 * d2 == (s * s) * (c2 * c2)) by (nonlinear_arith)
        requires
            d2 == c2 * s,
    ;
    assert(d3 * d3 == (s * s) * (c3 * c3)) by (nonlinear_arith)
        requires
            d3 == c3 * s,
    ;
    assert((s * s) * (c1 * c1 + c2 * c2 + c3 * c3) == (s * s) * (c1 * c1) + (s * s) * (c2 * c2) + (
    s * s) * (c3 * c3)) by (nonlinear_arith);
    assert(d1 * d1 + d2 * d2 + d3 * d3 == (s * s) * n2);
    // The scaled quotients, squared and summed, component by component.
    assert(u1 * u1 == (q1 * q1) * (mag * mag)) by (nonlinear_arith)
        requires
            u1 == q1 * mag,
    ;
    assert(u2 * u2 == (q2 * q2) * (mag * mag)) by (nonlinear_arith)
        requires
            u2 == q2 * mag,
    ;
    assert(u3 * u3 == (q3 * q3) * (mag * mag)) by (nonlinear_arith)
        requires
            u3 == q3 * mag,
    ;
    assert((q1 * q1 + q2 * q2 + q3 * q3) * (mag * mag) == (q1 * q1) * (mag * mag) + (q2 * q2) * (
    mag * mag) + (q3 * q3) * (mag * mag)) by (nonlinear_arith);
    assert(u1 * u1 + u2 * u2 + u3 * u3 == (q1 * q1 + q2 * q2 + q3 * q3) * (mag * mag));
    let qq = q1 * q1 + q2 * q2 + q3 * q3;
    // Upper bound: each |u_i| <= |d_i|, so qq * mag^2 <= s^2 * n2 < s^2 (mag+1)^2.
    assert(u1 * u1 <= d1 * d1 && u2 * u2 <= d2 * d2 && u3 * u3 <= d3 * d3) by (nonlinear_arith)
        requires
            iabs(u1) <= iabs(d1),
            iabs(u2) <= iabs(d2),
            iabs(u3) <= iabs(d3),
    ;
    assert(n2 < (mag + 1) * (mag + 1));
    assert(qq * (mag * mag) <= (s * s) * n2);
    if qq > (s + 4) * (s + 4) {
        assert((s * s) * n2 <= (s * s) * ((mag + 1) * (mag + 1) - 1)) by (nonlinear_arith)
            requires
                n2 <= (mag + 1) * (mag + 1) - 1,
                s > 0,
        ;
        assert((s * s) * ((mag + 1) * (mag + 1) - 1) < (s * s) * (mag * mag) + 2 * s * (mag * mag)
            + (mag * mag)) by (nonlinear_arith)
            requires
                0 < s <= mag,
        ;
        assert(qq * (mag * mag) >= ((s + 4) * (s + 4) + 1) * (mag * mag)) by (nonlinear_arith)
            requires
                qq >= (s + 4) * (s + 4) + 1,
                mag >= 1,
        ;
        assert(((s + 4) * (s + 4) + 1) * (mag * mag) >= (s * s) * (mag * mag) + 2 * s * (mag * mag)
            + (mag * mag)) by (nonlinear_arith)
            requires
                s >= 2,
                mag >= 1,
        ;
        assert(false);
    }
    // Lower bound: u_i^2 >= d_i^2 - 2 |d_i| mag, and |c_i| <= mag.
    let e1 = d1 - u1;
    let e2 = d2 - u2;
    let e3 = d3 - u3;
    assert(u1 * u1 >= d1 * d1 - 2 * iabs(d1) * mag) by (nonlinear_arith)
        requires
            u1 == d1 - e1,
            iabs(e1) < mag,
            e1 * d1 >= 0,
            mag >= 1,
    ;
    assert(u2 * u2 >= d2 * d2 - 2 * iabs(d2) * mag) by (nonlinear_arith)
        requires
            u2 == d2 - e2,
            iabs(e2) < mag,
            e2 * d2 >= 0,
            mag >= 1,
    ;
    assert(u3 * u3 >= d3 * d3 - 2 * iabs(d3) * mag) by (nonlinear_arith)
        requires
            u3 == d3 - e3,
            iabs(e3) < mag,
            e3 * d3 >= 0,
            mag >= 1,
    ;
    assert(iabs(d1) <= mag * s && iabs(d2) <= mag * s && iabs(d3) <= mag * s) by (nonlinear_arith)
        requires
            iabs(c1) <= mag,
            iabs(c2) <= mag,
            iabs(c3) <= mag,
            d1 == c1 * s,
            d2 == c2 * s,
            d3 == c3 * s,
            s > 0,
            iabs(d1) == iabs(c1) * s,
            iabs(d2) == iabs(c2) * s,
            iabs(d3) == iabs(c3) * s,
    ;
    assert(iabs(d1) == iabs(c1) * s && iabs(d2) == iabs(c2) * s && iabs(d3) == iabs(c3) * s)
        by (nonlinear_arith)
        requires
            d1 == c1 * s,
            d2 == c2 * s,
            d3 == c3 * s,
            s > 0,
    ;
    assert((s * s) * n2 >= (s * s) * (mag * mag)) by (nonlinear_arith)
        requires
            n2 >= mag * mag,
            s > 0,
    ;
    assert(2 * iabs(d1) * mag + 2 * iabs(d2) * mag + 2 * iabs(d3) * mag <= 6 * s * (mag * mag))
        by (nonlinear_arith)
        requires
            iabs(d1) <= mag * s,
            iabs(d2) <= mag * s,
            iabs(d3) <= mag * s,
            mag >= 1,
    ;
    assert(qq * (mag * mag) >= (s * s) * (mag * mag) - 6 * s * (mag * mag));
    if qq < (s - 4) * (s - 4) {
        assert(qq * (mag * mag) <= ((s - 4) * (s - 4) - 1) * (mag * mag)) by (nonlinear_arith)
            requires
                qq <= (s - 4) * (s - 4) - 1,
                mag >= 1,
        ;
        assert(((s - 4) * (s - 4) - 1) * (mag * mag) < (s * s) * (mag * mag) - 6 * s * (mag * mag))
            by (nonlinear_arith)
            requires
                s >= 8,
                mag >= 1,
        ;
        assert(false);
    }
}

/// `c` is one of the eight corners of the box `[bmin, bmax]`.
pub open spec fn is_box_corner(c: Vec3, bmin: Vec3, bmax: Vec3) -> bool {
    &&& (c.x == bmin.x || c.x == bmax.x)
    &&& (c.y == bmin.y || c.y == bmax.y)
    &&& (c.z == bmin.z || c.z == bmax.z)
}

/// Culling keeps a contained box: when every corner of the box lies on the
/// inner side of every plane, the box is classified visible. The padding
/// pushes the tested corner outward, so it can only help.
pub proof fn lemma_contained_box_visible(bmin: Vec3, bmax: Vec3, planes: Seq<FrustumPlane>)
    requires
        forall|i: int, c: Vec3|
            0 <= i < planes.len() && is_box_corner(c, bmin, bmax) ==> #[trigger] raw_dist(
                planes[i],
                c,
            ) >= 0,
    ensures
        box_in_frustum(bmin, bmax, planes),
{
    assert forall|i: int| 0 <= i < planes.len() implies plane_keeps(
        #[trigger] planes[i],
        bmin,
        bmax,
    ) by {
        let pl = planes[i];
        let p = p_vertex(pl, bmin, bmax);
        assert(is_box_corner(p, bmin, bmax));
        assert(raw_dist(pl, p) >= 0);
        lemma_plane_test_of_raw(pl, p);
    }
}

/// Culling rejects a box that sits at least the padding and one quantum
/// behind some plane: no corner survives, so neither does the most positive
/// one.
pub proof fn lemma_box_behind_plane_culled(
    bmin: Vec3,
    bmax: Vec3,
    planes: Seq<FrustumPlane>,
    i: int,
)
    requires
        0 <= i < planes.len(),
        forall|c: Vec3|
            is_box_corner(c, bmin, bmax) ==> raw_dist(planes[i], c) + norm_sq(planes[i].normal)
                + SCALE * SCALE <= 0,
    ensures
        !box_in_frustum(bmin, bmax, planes),
{
    let pl = planes[i];
    let p = p_vertex(pl, bmin, bmax);
    assert(is_box_corner(p, bmin, bmax));
    assert(raw_dist(pl, p) + norm_sq(pl.normal) + SCALE * SCALE <= 0);
    lemma_plane_test_of_raw(pl, p);
    assert(!plane_keeps(pl, bmin, bmax));
}

/// Relates the executable plane test on the most positive corner to the raw
/// distance of that corner: the padded test passes whenever the raw distance
/// is non-negative, and fails whenever the raw distance is at least the
/// padding term plus one quantum below zero.
proof fn lemma_plane_test_of_raw(pl: FrustumPlane, p: Vec3)
    ensures
        raw_dist(pl, p) >= 0 ==> tdiv(
            pl.normal.x * (p.x + tdiv(pl.normal.x * CULL_PADDING, SCALE as int)) + pl.normal.y * (
            p.y + tdiv(pl.normal.y * CULL_PADDING, SCALE as int)) + pl.normal.z * (p.z + tdiv(
                pl.normal.z * CULL_PADDING,
                SCALE as int,
            )),
            SCALE as int,
        ) + pl.d >= 0,
        raw_dist(pl, p) + norm_sq(pl.normal) + SCALE * SCALE <= 0 ==> tdiv(
            pl.normal.x * (p.x + tdiv(pl.normal.x * CULL_PADDING, SCALE as int)) + pl.normal.y * (
            p.y + tdiv(pl.normal.y * CULL_PADDING, SCALE as int)) + pl.normal.z * (p.z + tdiv(
                pl.normal.z * CULL_PADDING,
                SCALE as int,
            )),
            SCALE as int,
        ) + pl.d < 0,
{
    let nx = pl.normal.x as int;
    let ny = pl.normal.y as int;
    let nz = pl.normal.z as int;
    crate::fp::lemma_tdiv_exact(nx, SCALE as int);
    crate::fp::lemma_tdiv_exact(ny, SCALE as int);
    crate::fp::lemma_tdiv_exact(nz, SCALE as int);
    assert(tdiv(nx * CULL_PADDING, SCALE as int) == nx);
    assert(tdiv(ny * CULL_PADDING, SCALE as int) == ny);
    assert(tdiv(nz * CULL_PADDING, SCALE as int) == nz);
    let num = nx * (p.x + nx) + ny * (p.y + ny) + nz * (p.z + nz);
    assert(nx * (p.x + nx) + ny * (p.y + ny) + nz * (p.z + nz) == nx * p.x + ny * p.y + nz * p.z + (
    nx * nx + ny * ny + nz * nz)) by (nonlinear_arith);
    let base = nx * p.x + ny * p.y + nz * p.z;
    if raw_dist(pl, p) >= 0 {
        // base + d * SCALE >= 0, and the squared-norm term is non-negative.
        assert(nx * nx >= 0 && ny * ny >= 0 && nz * nz >= 0) by (nonlinear_arith);
        assert(num >= (-pl.d) * SCALE) by (nonlinear_arith)
            requires
                num == base + (nx * nx + ny * ny + nz * nz),
                base + pl.d * SCALE >= 0,
                nx * nx + ny * ny + nz * nz >= 0,
        ;
        crate::fp::lemma_tdiv_monotone((-pl.d) * SCALE, num, SCALE as int);
        crate::fp::lemma_tdiv_exact(-pl.d as int, SCALE as int);
    }
    if raw_dist(pl, p) + norm_sq(pl.normal) + SCALE * SCALE <= 0 {
        assert(num <= (-pl.d - 1) * SCALE) by (nonlinear_arith)
            requires
                num == base + (nx * nx + ny * ny + nz * nz),
                base + pl.d * SCALE + (nx * nx + ny * ny + nz * nz) + SCALE * SCALE <= 0,
        ;
        crate::fp::lemma_tdiv_monotone(num, (-pl.d - 1) * SCALE, SCALE as int);
        crate::fp::lemma_tdiv_exact(-pl.d - 1, SCALE as int);
    }
}

/// The component products of a plane test on padded corner coordinates fit
/// in an `i64`.
proof fn lemma_padded_products_fit(pl: FrustumPlane, px: int, py: int, pz: int)
    requires
        plane_fits(pl),
        iabs(px) <= 2 * FP_BOUND as int,
        iabs(py) <= 2 * FP_BOUND as int,
        iabs(pz) <= 2 * FP_BOUND as int,
    ensures
        iabs(pl.normal.x * px) <= 2 * (FP_BOUND as int * FP_BOUND as int),
        iabs(pl.normal.y * py) <= 2 * (FP_BOUND as int * FP_BOUND as int),
        iabs(pl.normal.z * pz) <= 2 * (FP_BOUND as int * FP_BOUND as int),
{
    assert(iabs(pl.normal.x * px) == iabs(pl.normal.x as int) * iabs(px)) by (nonlinear_arith);
    assert(iabs(pl.normal.y * py) == iabs(pl.normal.y as int) * iabs(py)) by (nonlinear_arith);
    assert(iabs(pl.normal.z * pz) == iabs(pl.normal.z as int) * iabs(pz)) by (nonlinear_arith);
    assert(iabs(pl.normal.x as int) * iabs(px) <= FP_BOUND as int * (2 * FP_BOUND as int))
        by (nonlinear_arith)
        requires
            0 <= iabs(pl.normal.x as int) <= FP_BOUND as int,
            0 <= iabs(px) <= 2 * FP_BOUND as int,
    ;
    assert(iabs(pl.normal.y as int) * iabs(py) <= FP_BOUND as int * (2 * FP_BOUND as int))
        by (nonlinear_arith)
        requires
            0 <= iabs(pl.normal.y as int) <= FP_BOUND as int,
            0 <= iabs(py) <= 2 * FP_BOUND as int,
    ;
    assert(iabs(pl.normal.z as int) * iabs(pz) <= FP_BOUND as int * (2 * FP_BOUND as int))
        by (nonlinear_arith)
        requires
            0 <= iabs(pl.normal.z as int) <= FP_BOUND as int,
            0 <= iabs(pz) <= 2 * FP_BOUND as int,
    ;
}

} // verus!
