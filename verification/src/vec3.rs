//! Three-component vectors and points over fixed-point scalars.

use vstd::prelude::*;

use crate::fp::{
    FP_BOUND, SCALE, div_i64, fits_fp, fmul, iabs, is_sqrt, isqrt_i64, mul_fp, sqrt_floor, tdiv,
};

verus! {

/// A vector (or point) in world space; each component counts units of
/// `1 / SCALE` of a world unit.
#[derive(Clone, Copy, Debug, PartialEq, Eq, Structural)]
pub struct Vec3 {
    pub x: i64,
    pub y: i64,
    pub z: i64,
}

/// All three components are small enough to enter fixed-point products.
pub open spec fn vec_fits(v: Vec3) -> bool {
    fits_fp(v.x as int) && fits_fp(v.y as int) && fits_fp(v.z as int)
}

/// All three components are within `b` in magnitude.
pub open spec fn vec_within(v: Vec3, b: int) -> bool {
    iabs(v.x as int) <= b && iabs(v.y as int) <= b && iabs(v.z as int) <= b
}

/// Raw squared norm; its scale is `SCALE * SCALE`, so its integer square
/// root is the fixed-point length of the vector.
pub open spec fn norm_sq(v: Vec3) -> int {
    v.x * v.x + v.y * v.y + v.z * v.z
}

/// Fixed-point dot product: the raw component products summed, carried back
/// to scalar units by one truncating division.
pub open spec fn dot_spec(a: Vec3, b: Vec3) -> int {
    tdiv(a.x * b.x + a.y * b.y + a.z * b.z, SCALE as int)
}

impl Vec3 {
    /// Componentwise subtraction.
    pub fn sub(self, o: Vec3) -> (r: Vec3)
        requires
            iabs(self.x - o.x) <= i64::MAX,
            iabs(self.y - o.y) <= i64::MAX,
            iabs(self.z - o.z) <= i64::MAX,
        ensures
            r.x == self.x - o.x,
            r.y == self.y - o.y,
            r.z == self.z - o.z,
    {
        Vec3 { x: self.x - o.x, y: self.y - o.y, z: self.z - o.z }
    }

    /// Scale by a fixed-point scalar.
    pub fn scale(self, s: i64) -> (r: Vec3)
        requires
            vec_fits(self),
            fits_fp(s as int),
        ensures
            r.x == fmul(self.x as int, s as int),
            r.y == fmul(self.y as int, s as int),
            r.z == fmul(self.z as int, s as int),
    {
        Vec3 { x: mul_fp(self.x, s), y: mul_fp(self.y, s), z: mul_fp(self.z, s) }
    }

    /// Fixed-point dot product.
    pub fn dot(self, o: Vec3) -> (r: i64)
        requires
            vec_fits(self),
            vec_fits(o),
        ensures
            r == dot_spec(self, o),
    {
        proof {
            lemma_three_products_fit(self, o);
        }
        let s: i64 = self.x * o.x + self.y * o.y + self.z * o.z;
        div_i64(s, SCALE)
    }

    /// Cross product, carried back to scalar units componentwise.
    pub fn cross(self, o: Vec3) -> (r: Vec3)
        requires
            vec_fits(self),
            vec_fits(o),
        ensures
            r.x == tdiv(self.y * o.z - self.z * o.y, SCALE as int),
            r.y == tdiv(self.z * o.x - self.x * o.z, SCALE as int),
            r.z == tdiv(self.x * o.y - self.y * o.x, SCALE as int),
    {
        proof {
            lemma_three_products_fit(self, o);
            lemma_three_products_fit(o, self);
        }
        let cx: i64 = div_i64(self.y * o.z - self.z * o.y, SCALE);
        let cy: i64 = div_i64(self.z * o.x - self.x * o.z, SCALE);
        let cz: i64 = div_i64(self.x * o.y - self.y * o.x, SCALE);
        Vec3 { x: cx, y: cy, z: cz }
    }

    /// Fixed-point length: the integer square root of the raw squared norm.
    pub fn norm(self) -> (r: i64)
        requires
            vec_fits(self),
        ensures
            r >= 0,
            r == sqrt_floor(norm_sq(self)),
            is_sqrt(norm_sq(self), r as int),
    {
        proof {
            lemma_three_products_fit(self, self);
        }
        assert(self.x * self.x >= 0 && self.y * self.y >= 0 && self.z * self.z >= 0)
            by (nonlinear_arith);
        let s: i64 = self.x * self.x + self.y * self.y + self.z * self.z;
        isqrt_i64(s)
    }
}

impl Vec3 {
    /// All three components are within `b` in magnitude; the runtime check
    /// behind the geometric preconditions.
    pub fn within(&self, b: i64) -> (r: bool)
        requires
            b >= 0,
        ensures
            r == vec_within(*self, b as int),
    {
        -b <= self.x && self.x <= b && -b <= self.y && self.y <= b && -b <= self.z && self.z <= b
    }
}

/// A normalized vector's components stay within one fixed-point unit.
pub proof fn lemma_normalize_within(v: Vec3)
    requires
        norm_sq(v) > 0,
    ensures
        vec_within(normalize_spec(v), SCALE as int),
{
    assert(v.x * v.x >= 0 && v.y * v.y >= 0 && v.z * v.z >= 0) by (nonlinear_arith);
    crate::fp::lemma_sqrt_floor_is_sqrt(norm_sq(v));
    let mag = sqrt_floor(norm_sq(v));
    assert(mag >= 1) by {
        if mag == 0 {
            assert((mag + 1) * (mag + 1) == 1) by (nonlinear_arith)
                requires
                    mag == 0,
            ;
        }
    }
    lemma_mag_dominates_components(v, mag);
    lemma_div_by_mag_bounded(v.x as int, mag);
    lemma_div_by_mag_bounded(v.y as int, mag);
    lemma_div_by_mag_bounded(v.z as int, mag);
    crate::fp::lemma_tdiv_bound(v.x * SCALE, mag);
    crate::fp::lemma_tdiv_bound(v.y * SCALE, mag);
    crate::fp::lemma_tdiv_bound(v.z * SCALE, mag);
    assert(iabs(v.x * SCALE) == iabs(v.x as int) * SCALE as int) by (nonlinear_arith)
        requires
            SCALE as int > 0,
    ;
    assert(iabs(v.y * SCALE) == iabs(v.y as int) * SCALE as int) by (nonlinear_arith)
        requires
            SCALE as int > 0,
    ;
    assert(iabs(v.z * SCALE) == iabs(v.z as int) * SCALE as int) by (nonlinear_arith)
        requires
            SCALE as int > 0,
    ;
}

/// A squared norm is never negative.
pub proof fn lemma_norm_sq_nonneg(v: Vec3)
    ensures
        norm_sq(v) >= 0,
{
    assert(v.x * v.x >= 0 && v.y * v.y >= 0 && v.z * v.z >= 0) by (nonlinear_arith);
}

/// Componentwise difference as a vector, assuming the result stays in range.
pub open spec fn vsub_spec(a: Vec3, b: Vec3) -> Vec3 {
    Vec3 { x: (a.x - b.x) as i64, y: (a.y - b.y) as i64, z: (a.z - b.z) as i64 }
}

/// Fixed-point scaling of a vector by a scalar.
pub open spec fn scale_spec(v: Vec3, s: int) -> Vec3 {
    Vec3 {
        x: fmul(v.x as int, s) as i64,
        y: fmul(v.y as int, s) as i64,
        z: fmul(v.z as int, s) as i64,
    }
}

/// The fixed-point cross product.
pub open spec fn cross_spec(a: Vec3, b: Vec3) -> Vec3 {
    Vec3 {
        x: tdiv(a.y * b.z - a.z * b.y, SCALE as int) as i64,
        y: tdiv(a.z * b.x - a.x * b.z, SCALE as int) as i64,
        z: tdiv(a.x * b.y - a.y * b.x, SCALE as int) as i64,
    }
}

/// The vector scaled to fixed-point unit length by its floor norm; only
/// meaningful when the norm is positive.
pub open spec fn normalize_spec(v: Vec3) -> Vec3 {
    let mag = sqrt_floor(norm_sq(v));
    Vec3 {
        x: tdiv(v.x * SCALE, mag) as i64,
        y: tdiv(v.y * SCALE, mag) as i64,
        z: tdiv(v.z * SCALE, mag) as i64,
    }
}

impl Vec3 {
    /// Scale the vector to fixed-point unit length; `None` when it has no
    /// direction to keep.
    pub fn normalize(self) -> (r: Option<Vec3>)
        requires
            vec_fits(self),
        ensures
            r is Some <==> norm_sq(self) > 0,
            r matches Some(u) ==> u == normalize_spec(self) && vec_within(u, SCALE as int),
    {
        let mag: i64 = self.norm();
        if mag > 0 {
            proof {
                assert(mag as int * mag as int >= 1) by (nonlinear_arith)
                    requires
                        mag as int >= 1,
                ;
                lemma_mag_dominates_components(self, mag as int);
                lemma_div_by_mag_bounded(self.x as int, mag as int);
                lemma_div_by_mag_bounded(self.y as int, mag as int);
                lemma_div_by_mag_bounded(self.z as int, mag as int);
                lemma_product_bound(self.x as int, SCALE as int);
                lemma_product_bound(self.y as int, SCALE as int);
                lemma_product_bound(self.z as int, SCALE as int);
                crate::fp::lemma_tdiv_bound(self.x * SCALE, mag as int);
                crate::fp::lemma_tdiv_bound(self.y * SCALE, mag as int);
                crate::fp::lemma_tdiv_bound(self.z * SCALE, mag as int);
            }
            let ux: i64 = div_i64(self.x * SCALE, mag);
            let uy: i64 = div_i64(self.y * SCALE, mag);
            let uz: i64 = div_i64(self.z * SCALE, mag);
            Some(Vec3 { x: ux, y: uy, z: uz })
        } else {
            proof {
                if norm_sq(self) > 0 {
                    assert(is_sqrt(norm_sq(self), mag as int));
                    assert(mag == 0);
                    assert((mag as int + 1) * (mag as int + 1) == 1) by (nonlinear_arith)
                        requires
                            mag as int == 0,
                    ;
                    assert(norm_sq(self) < 1);
                }
            }
            None
        }
    }
}

/// A component no larger than the divisor scales to at most `SCALE` after
/// the normalizing division.
pub proof fn lemma_div_by_mag_bounded(c: int, mag: int)
    requires
        mag >= 1,
        iabs(c) <= mag,
    ensures
        iabs(c * SCALE) / mag <= SCALE as int,
{
    assert(iabs(c * SCALE) == iabs(c) * SCALE as int) by (nonlinear_arith)
        requires
            SCALE as int > 0,
    ;
    assert(iabs(c) * SCALE as int <= mag * SCALE as int) by (nonlinear_arith)
        requires
            iabs(c) <= mag,
            SCALE as int > 0,
    ;
    assert(mag * SCALE as int / mag == SCALE as int) by (nonlinear_arith)
        requires
            mag >= 1,
    ;
    assert(iabs(c) * SCALE as int / mag <= mag * SCALE as int / mag) by (nonlinear_arith)
        requires
            mag >= 1,
            0 <= iabs(c) * SCALE as int <= mag * SCALE as int,
    ;
}

/// The floor square root of a vector's raw squared norm is at least the
/// magnitude of each component.
pub proof fn lemma_mag_dominates_components(v: Vec3, mag: int)
    requires
        is_sqrt(norm_sq(v), mag),
    ensures
        iabs(v.x as int) <= mag,
        iabs(v.y as int) <= mag,
        iabs(v.z as int) <= mag,
{
    assert(v.x * v.x >= 0 && v.y * v.y >= 0 && v.z * v.z >= 0) by (nonlinear_arith);
    assert(iabs(v.x as int) * iabs(v.x as int) == v.x * v.x) by (nonlinear_arith);
    assert(iabs(v.y as int) * iabs(v.y as int) == v.y * v.y) by (nonlinear_arith);
    assert(iabs(v.z as int) * iabs(v.z as int) == v.z * v.z) by (nonlinear_arith);
    if iabs(v.x as int) > mag {
        assert((mag + 1) * (mag + 1) <= iabs(v.x as int) * iabs(v.x as int)) by (nonlinear_arith)
            requires
                0 <= mag + 1 <= iabs(v.x as int),
        ;
    }
    if iabs(v.y as int) > mag {
        assert((mag + 1) * (mag + 1) <= iabs(v.y as int) * iabs(v.y as int)) by (nonlinear_arith)
            requires
                0 <= mag + 1 <= iabs(v.y as int),
        ;
    }
    if iabs(v.z as int) > mag {
        assert((mag + 1) * (mag + 1) <= iabs(v.z as int) * iabs(v.z as int)) by (nonlinear_arith)
            requires
                0 <= mag + 1 <= iabs(v.z as int),
        ;
    }
}

/// The world up axis used by cameras.
pub open spec fn y_axis_spec() -> Vec3 {
    Vec3 { x: 0, y: SCALE, z: 0 }
}

/// The alternate up axis, used when a view direction is near-vertical.
pub open spec fn z_axis_spec() -> Vec3 {
    Vec3 { x: 0, y: 0, z: SCALE }
}

/// The smaller of two integers.
pub open spec fn imin(a: int, b: int) -> int {
    if a <= b {
        a
    } else {
        b
    }
}

/// The larger of two integers.
pub open spec fn imax(a: int, b: int) -> int {
    if a >= b {
        a
    } else {
        b
    }
}

/// Componentwise minimum over a non-empty set of points.
pub open spec fn min_point(pts: Seq<Vec3>) -> Vec3
    decreases pts.len(),
{
    if pts.len() <= 1 {
        pts[0]
    } else {
        let rest = min_point(pts.drop_last());
        Vec3 {
            x: imin(rest.x as int, pts.last().x as int) as i64,
            y: imin(rest.y as int, pts.last().y as int) as i64,
            z: imin(rest.z as int, pts.last().z as int) as i64,
        }
    }
}

/// Componentwise maximum over a non-empty set of points.
pub open spec fn max_point(pts: Seq<Vec3>) -> Vec3
    decreases pts.len(),
{
    if pts.len() <= 1 {
        pts[0]
    } else {
        let rest = max_point(pts.drop_last());
        Vec3 {
            x: imax(rest.x as int, pts.last().x as int) as i64,
            y: imax(rest.y as int, pts.last().y as int) as i64,
            z: imax(rest.z as int, pts.last().z as int) as i64,
        }
    }
}

/// The componentwise minimum bounds every point from below.
pub proof fn lemma_min_point_lower(pts: Seq<Vec3>)
    requires
        pts.len() > 0,
    ensures
        is_lower_bound(min_point(pts), pts),
    decreases pts.len(),
{
    if pts.len() > 1 {
        lemma_min_point_lower(pts.drop_last());
        assert forall|i: int| 0 <= i < pts.len() implies min_point(pts).x <= (#[trigger] pts[i]).x
            && min_point(pts).y <= pts[i].y && min_point(pts).z <= pts[i].z by {
            if i < pts.len() - 1 {
                assert(pts.drop_last()[i] == pts[i]);
            }
        }
    }
}

/// The componentwise maximum bounds every point from above.
pub proof fn lemma_max_point_upper(pts: Seq<Vec3>)
    requires
        pts.len() > 0,
    ensures
        is_upper_bound(max_point(pts), pts),
    decreases pts.len(),
{
    if pts.len() > 1 {
        lemma_max_point_upper(pts.drop_last());
        assert forall|i: int| 0 <= i < pts.len() implies (#[trigger] pts[i]).x <= max_point(pts).x
            && pts[i].y <= max_point(pts).y && pts[i].z <= max_point(pts).z by {
            if i < pts.len() - 1 {
                assert(pts.drop_last()[i] == pts[i]);
            }
        }
    }
}

/// `b` is componentwise at or below every point of `pts`.
pub open spec fn is_lower_bound(b: Vec3, pts: Seq<Vec3>) -> bool {
    forall|i: int|
        0 <= i < pts.len() ==> b.x <= (#[trigger] pts[i]).x && b.y <= pts[i].y && b.z <= pts[i].z
}

/// `b` is componentwise at or above every point of `pts`.
pub open spec fn is_upper_bound(b: Vec3, pts: Seq<Vec3>) -> bool {
    forall|i: int|
        0 <= i < pts.len() ==> (#[trigger] pts[i]).x <= b.x && pts[i].y <= b.y && pts[i].z <= b.z
}

/// Each component of `b` is hit by some point of `pts`.
pub open spec fn each_component_attained(b: Vec3, pts: Seq<Vec3>) -> bool {
    &&& exists|i: int| 0 <= i < pts.len() && (#[trigger] pts[i]).x == b.x
    &&& exists|i: int| 0 <= i < pts.len() && (#[trigger] pts[i]).y == b.y
    &&& exists|i: int| 0 <= i < pts.len() && (#[trigger] pts[i]).z == b.z
}

/// Componentwise minimum and maximum over a non-empty set of points: the
/// tightest axis-aligned box around them.
pub fn fold_bounds(points: &Vec<Vec3>) -> (r: (Vec3, Vec3))
    requires
        points@.len() > 0,
    ensures
        r.0 == min_point(points@),
        r.1 == max_point(points@),
        is_lower_bound(r.0, points@),
        is_upper_bound(r.1, points@),
        each_component_attained(r.0, points@),
        each_component_attained(r.1, points@),
{
    let first = points[0];
    let mut bmin = first;
    let mut bmax = first;
    let ghost mut kminx: int = 0;
    let ghost mut kminy: int = 0;
    let ghost mut kminz: int = 0;
    let ghost mut kmaxx: int = 0;
    let ghost mut kmaxy: int = 0;
    let ghost mut kmaxz: int = 0;
    proof {
        assert(points@.subrange(0, 1).len() == 1);
        assert(points@.subrange(0, 1)[0] == points@[0]);
    }
    let mut i: usize = 1;
    while i < points.len()
        invariant
            1 <= i <= points@.len(),
            forall|k: int|
                0 <= k < i ==> bmin.x <= (#[trigger] points@[k]).x && bmin.y <= points@[k].y
                    && bmin.z <= points@[k].z,
            forall|k: int|
                0 <= k < i ==> (#[trigger] points@[k]).x <= bmax.x && points@[k].y <= bmax.y
                    && points@[k].z <= bmax.z,
            0 <= kminx < i && points@[kminx].x == bmin.x,
            0 <= kminy < i && points@[kminy].y == bmin.y,
            0 <= kminz < i && points@[kminz].z == bmin.z,
            0 <= kmaxx < i && points@[kmaxx].x == bmax.x,
            0 <= kmaxy < i && points@[kmaxy].y == bmax.y,
            0 <= kmaxz < i && points@[kmaxz].z == bmax.z,
            bmin == min_point(points@.subrange(0, i as int)),
            bmax == max_point(points@.subrange(0, i as int)),
        decreases points@.len() - i,
    {
        proof {
            let sub = points@.subrange(0, i as int + 1);
            assert(sub.drop_last() =~= points@.subrange(0, i as int));
            assert(sub.last() == points@[i as int]);
            assert(sub.len() == i + 1);
        }
        let p = points[i];
        if p.x < bmin.x {
            bmin.x = p.x;
            proof {
                kminx = i as int;
            }
        }
        if p.y < bmin.y {
            bmin.y = p.y;
            proof {
                kminy = i as int;
            }
        }
        if p.z < bmin.z {
            bmin.z = p.z;
            proof {
                kminz = i as int;
            }
        }
        if p.x > bmax.x {
            bmax.x = p.x;
            proof {
                kmaxx = i as int;
            }
        }
        if p.y > bmax.y {
            bmax.y = p.y;
            proof {
                kmaxy = i as int;
            }
        }
        if p.z > bmax.z {
            bmax.z = p.z;
            proof {
                kmaxz = i as int;
            }
        }
        i = i + 1;
    }
    proof {
        assert(points@.subrange(0, points@.len() as int) =~= points@);
    }
    (bmin, bmax)
}

/// Each raw component product of two bounded vectors fits in an `i64`, and so
/// does any sum or difference of three of them.
pub proof fn lemma_three_products_fit(a: Vec3, b: Vec3)
    ensures
        vec_fits(a) && vec_fits(b) ==> {
            &&& iabs(a.x * b.x) <= FP_BOUND as int * FP_BOUND as int
            &&& iabs(a.y * b.y) <= FP_BOUND as int * FP_BOUND as int
            &&& iabs(a.z * b.z) <= FP_BOUND as int * FP_BOUND as int
            &&& iabs(a.y * b.z) <= FP_BOUND as int * FP_BOUND as int
            &&& iabs(a.z * b.y) <= FP_BOUND as int * FP_BOUND as int
            &&& iabs(a.z * b.x) <= FP_BOUND as int * FP_BOUND as int
            &&& iabs(a.x * b.z) <= FP_BOUND as int * FP_BOUND as int
            &&& iabs(a.x * b.y) <= FP_BOUND as int * FP_BOUND as int
            &&& iabs(a.y * b.x) <= FP_BOUND as int * FP_BOUND as int
        },
{
    if vec_fits(a) && vec_fits(b) {
        lemma_product_bound(a.x as int, b.x as int);
        lemma_product_bound(a.y as int, b.y as int);
        lemma_product_bound(a.z as int, b.z as int);
        lemma_product_bound(a.y as int, b.z as int);
        lemma_product_bound(a.z as int, b.y as int);
        lemma_product_bound(a.z as int, b.x as int);
        lemma_product_bound(a.x as int, b.z as int);
        lemma_product_bound(a.x as int, b.y as int);
        lemma_product_bound(a.y as int, b.x as int);
    }
}

/// The product of two scalars within `FP_BOUND` stays within `FP_BOUND`
/// squared.
pub proof fn lemma_product_bound(a: int, b: int)
    requires
        fits_fp(a),
        fits_fp(b),
    ensures
        iabs(a * b) <= FP_BOUND as int * FP_BOUND as int,
        iabs(a * b) == iabs(a) * iabs(b),
{
    assert(iabs(a * b) == iabs(a) * iabs(b)) by (nonlinear_arith);
    assert(iabs(a) * iabs(b) <= FP_BOUND as int * FP_BOUND as int) by (nonlinear_arith)
        requires
            0 <= iabs(a) <= FP_BOUND as int,
            0 <= iabs(b) <= FP_BOUND as int,
    ;
}

/// A vector's squared norm vanishes exactly when all its components do.
pub proof fn lemma_zero_norm(v: Vec3)
    ensures
        norm_sq(v) == 0 <==> (v.x == 0 && v.y == 0 && v.z == 0),
{
    assert(v.x * v.x >= 0 && v.y * v.y >= 0 && v.z * v.z >= 0) by (nonlinear_arith);
    if v.x != 0 {
        assert(v.x * v.x > 0) by (nonlinear_arith)
            requires
                v.x != 0,
        ;
    }
    if v.y != 0 {
        assert(v.y * v.y > 0) by (nonlinear_arith)
            requires
                v.y != 0,
        ;
    }
    if v.z != 0 {
        assert(v.z * v.z > 0) by (nonlinear_arith)
            requires
                v.z != 0,
        ;
    }
}

/// Normalizing a vector with a positive norm cannot collapse it to zero:
/// its largest component survives the scaling division.
pub proof fn lemma_normalize_nonzero(v: Vec3)
    requires
        norm_sq(v) > 0,
    ensures
        normalize_spec(v).x != 0 || normalize_spec(v).y != 0 || normalize_spec(v).z != 0,
{
    lemma_norm_sq_nonneg(v);
    crate::fp::lemma_sqrt_floor_is_sqrt(norm_sq(v));
    let mag = sqrt_floor(norm_sq(v));
    assert(mag >= 1) by {
        if mag == 0 {
            assert((mag + 1) * (mag + 1) == 1) by (nonlinear_arith)
                requires
                    mag == 0,
            ;
        }
    }
    let ax = iabs(v.x as int);
    let ay = iabs(v.y as int);
    let az = iabs(v.z as int);
    let a = imax(imax(ax, ay), az);
    lemma_zero_norm(v);
    assert(a >= 1);
    assert(v.x * v.x <= a * a && v.y * v.y <= a * a && v.z * v.z <= a * a) by (nonlinear_arith)
        requires
            0 <= ax <= a,
            0 <= ay <= a,
            0 <= az <= a,
            iabs(v.x as int) == ax,
            iabs(v.y as int) == ay,
            iabs(v.z as int) == az,
    ;
    assert(mag <= 2 * a) by {
        if mag > 2 * a {
            assert(mag * mag > 3 * (a * a)) by (nonlinear_arith)
                requires
                    mag > 2 * a,
                    a >= 1,
            ;
        }
    }
    assert(a * SCALE >= mag) by (nonlinear_arith)
        requires
            a >= 1,
            mag <= 2 * a,
            SCALE as int >= 2,
    ;
    lemma_mag_dominates_components(v, mag);
    lemma_div_by_mag_bounded(v.x as int, mag);
    lemma_div_by_mag_bounded(v.y as int, mag);
    lemma_div_by_mag_bounded(v.z as int, mag);
    crate::fp::lemma_tdiv_bound(v.x * SCALE, mag);
    crate::fp::lemma_tdiv_bound(v.y * SCALE, mag);
    crate::fp::lemma_tdiv_bound(v.z * SCALE, mag);
    assert(iabs(v.x * SCALE) == iabs(v.x as int) * SCALE as int) by (nonlinear_arith)
        requires
            SCALE as int > 0,
    ;
    assert(iabs(v.y * SCALE) == iabs(v.y as int) * SCALE as int) by (nonlinear_arith)
        requires
            SCALE as int > 0,
    ;
    assert(iabs(v.z * SCALE) == iabs(v.z as int) * SCALE as int) by (nonlinear_arith)
        requires
            SCALE as int > 0,
    ;
    if ax == a {
        lemma_component_survives(v.x as int, a, mag);
    } else if ay == a {
        lemma_component_survives(v.y as int, a, mag);
    } else {
        lemma_component_survives(v.z as int, a, mag);
    }
}

/// A component whose magnitude reaches the divisor keeps a nonzero quotient.
proof fn lemma_component_survives(c: int, a: int, mag: int)
    requires
        iabs(c) == a,
        a >= 1,
        mag >= 1,
        a * SCALE as int >= mag,
    ensures
        tdiv(c * SCALE, mag) != 0,
{
    assert(iabs(c * SCALE) == a * SCALE as int) by (nonlinear_arith)
        requires
            iabs(c) == a,
            SCALE as int > 0,
    ;
    vstd::arithmetic::div_mod::lemma_div_is_ordered(mag, a * SCALE as int, mag);
    vstd::arithmetic::div_mod::lemma_div_by_self(mag);
    assert(iabs(c * SCALE) / mag >= 1);
}

} // verus!
