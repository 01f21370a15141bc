//! 4x4 matrices over fixed-point scalars, row-major: `mRC` is row `R`,
//! column `C`. A matrix of fixed-point entries applied to a point rescales
//! by `SCALE` once per entry product, exactly as the spec functions state.

use vstd::prelude::*;

use crate::fp::{FP_BOUND, SCALE, div_i64, fits_fp, iabs, tdiv};
use crate::vec3::{Vec3, lemma_product_bound, vec_within};

verus! {

/// A 4x4 matrix of fixed-point scalars.
#[derive(Clone, Copy, Debug, PartialEq, Eq, Structural)]
pub struct Mat4 {
    pub m00: i64,
    pub m01: i64,
    pub m02: i64,
    pub m03: i64,
    pub m10: i64,
    pub m11: i64,
    pub m12: i64,
    pub m13: i64,
    pub m20: i64,
    pub m21: i64,
    pub m22: i64,
    pub m23: i64,
    pub m30: i64,
    pub m31: i64,
    pub m32: i64,
    pub m33: i64,
}

/// Every entry is within `b` in magnitude.
pub open spec fn mat_within(m: Mat4, b: int) -> bool {
    &&& iabs(m.m00 as int) <= b && iabs(m.m01 as int) <= b && iabs(m.m02 as int) <= b && iabs(
        m.m03 as int,
    ) <= b
    &&& iabs(m.m10 as int) <= b && iabs(m.m11 as int) <= b && iabs(m.m12 as int) <= b && iabs(
        m.m13 as int,
    ) <= b
    &&& iabs(m.m20 as int) <= b && iabs(m.m21 as int) <= b && iabs(m.m22 as int) <= b && iabs(
        m.m23 as int,
    ) <= b
    &&& iabs(m.m30 as int) <= b && iabs(m.m31 as int) <= b && iabs(m.m32 as int) <= b && iabs(
        m.m33 as int,
    ) <= b
}

/// One entry of a fixed-point matrix product: the raw four-term sum carried
/// back to scalar units.
pub open spec fn mul_entry(a0: int, b0: int, a1: int, b1: int, a2: int, b2: int, a3: int, b3: int) -> int {
    tdiv(a0 * b0 + a1 * b1 + a2 * b2 + a3 * b3, SCALE as int)
}

/// The fixed-point matrix product.
pub open spec fn mat_mul_spec(a: Mat4, b: Mat4) -> Mat4 {
    Mat4 {
        m00: mul_entry(a.m00 as int, b.m00 as int, a.m01 as int, b.m10 as int, a.m02 as int, b.m20 as int, a.m03 as int, b.m30 as int) as i64,
        m01: mul_entry(a.m00 as int, b.m01 as int, a.m01 as int, b.m11 as int, a.m02 as int, b.m21 as int, a.m03 as int, b.m31 as int) as i64,
        m02: mul_entry(a.m00 as int, b.m02 as int, a.m01 as int, b.m12 as int, a.m02 as int, b.m22 as int, a.m03 as int, b.m32 as int) as i64,
        m03: mul_entry(a.m00 as int, b.m03 as int, a.m01 as int, b.m13 as int, a.m02 as int, b.m23 as int, a.m03 as int, b.m33 as int) as i64,
        m10: mul_entry(a.m10 as int, b.m00 as int, a.m11 as int, b.m10 as int, a.m12 as int, b.m20 as int, a.m13 as int, b.m30 as int) as i64,
        m11: mul_entry(a.m10 as int, b.m01 as int, a.m11 as int, b.m11 as int, a.m12 as int, b.m21 as int, a.m13 as int, b.m31 as int) as i64,
        m12: mul_entry(a.m10 as int, b.m02 as int, a.m11 as int, b.m12 as int, a.m12 as int, b.m22 as int, a.m13 as int, b.m32 as int) as i64,
        m13: mul_entry(a.m10 as int, b.m03 as int, a.m11 as int, b.m13 as int, a.m12 as int, b.m23 as int, a.m13 as int, b.m33 as int) as i64,
        m20: mul_entry(a.m20 as int, b.m00 as int, a.m21 as int, b.m10 as int, a.m22 as int, b.m20 as int, a.m23 as int, b.m30 as int) as i64,
        m21: mul_entry(a.m20 as int, b.m01 as int, a.m21 as int, b.m11 as int, a.m22 as int, b.m21 as int, a.m23 as int, b.m31 as int) as i64,
        m22: mul_entry(a.m20 as int, b.m02 as int, a.m21 as int, b.m12 as int, a.m22 as int, b.m22 as int, a.m23 as int, b.m32 as int) as i64,
        m23: mul_entry(a.m20 as int, b.m03 as int, a.m21 as int, b.m13 as int, a.m22 as int, b.m23 as int, a.m23 as int, b.m33 as int) as i64,
        m30: mul_entry(a.m30 as int, b.m00 as int, a.m31 as int, b.m10 as int, a.m32 as int, b.m20 as int, a.m33 as int, b.m30 as int) as i64,
        m31: mul_entry(a.m30 as int, b.m01 as int, a.m31 as int, b.m11 as int, a.m32 as int, b.m21 as int, a.m33 as int, b.m31 as int) as i64,
        m32: mul_entry(a.m30 as int, b.m02 as int, a.m31 as int, b.m12 as int, a.m32 as int, b.m22 as int, a.m33 as int, b.m32 as int) as i64,
        m33: mul_entry(a.m30 as int, b.m03 as int, a.m31 as int, b.m13 as int, a.m32 as int, b.m23 as int, a.m33 as int, b.m33 as int) as i64,
    }
}

/// Magnitude bound on the rotation-and-scale entries of a world transform:
/// uniform scales up to ten.
pub const LINEAR_BOUND: i64 = 1000000;

/// Magnitude bound on the translation column of a world transform: a
/// thousand world units.
pub const TRANSLATION_BOUND: i64 = 100000000;

/// A world transform the renderer accepts: affine, with its linear block
/// and translation column within the model bounds.
pub open spec fn affine_within(m: Mat4) -> bool {
    &&& is_affine(m)
    &&& iabs(m.m00 as int) <= LINEAR_BOUND as int && iabs(m.m01 as int) <= LINEAR_BOUND as int
        && iabs(m.m02 as int) <= LINEAR_BOUND as int
    &&& iabs(m.m10 as int) <= LINEAR_BOUND as int && iabs(m.m11 as int) <= LINEAR_BOUND as int
        && iabs(m.m12 as int) <= LINEAR_BOUND as int
    &&& iabs(m.m20 as int) <= LINEAR_BOUND as int && iabs(m.m21 as int) <= LINEAR_BOUND as int
        && iabs(m.m22 as int) <= LINEAR_BOUND as int
    &&& iabs(m.m03 as int) <= TRANSLATION_BOUND as int && iabs(m.m13 as int)
        <= TRANSLATION_BOUND as int && iabs(m.m23 as int) <= TRANSLATION_BOUND as int
}

/// The linear block of `m` is within `lb` and its translation column within
/// `tb`.
pub open spec fn linear_translation_within(m: Mat4, lb: int, tb: int) -> bool {
    &&& iabs(m.m00 as int) <= lb && iabs(m.m01 as int) <= lb && iabs(m.m02 as int) <= lb
    &&& iabs(m.m10 as int) <= lb && iabs(m.m11 as int) <= lb && iabs(m.m12 as int) <= lb
    &&& iabs(m.m20 as int) <= lb && iabs(m.m21 as int) <= lb && iabs(m.m22 as int) <= lb
    &&& iabs(m.m03 as int) <= tb && iabs(m.m13 as int) <= tb && iabs(m.m23 as int) <= tb
}

/// Applying a transform whose linear block is within `lb` and whose
/// translation column is within `tb` to a point within `pb` lands within
/// `rb`, provided the row sums fit under `rb * SCALE`.
pub proof fn lemma_transform_rows_within(m: Mat4, p: Vec3, lb: int, tb: int, pb: int, rb: int)
    requires
        linear_translation_within(m, lb, tb),
        vec_within(p, pb),
        lb >= 0,
        tb >= 0,
        pb >= 0,
        3 * (lb * pb) + tb * SCALE as int <= rb * SCALE as int,
    ensures
        vec_within(transform_affine_spec(m, p), rb),
{
    lemma_affine_row_within(m.m00 as int, m.m01 as int, m.m02 as int, m.m03 as int, p, lb, tb, pb, rb);
    lemma_affine_row_within(m.m10 as int, m.m11 as int, m.m12 as int, m.m13 as int, p, lb, tb, pb, rb);
    lemma_affine_row_within(m.m20 as int, m.m21 as int, m.m22 as int, m.m23 as int, p, lb, tb, pb, rb);
}

/// Applying a bounded world transform to a point within `b` lands within the
/// fixed-point working range.
pub proof fn lemma_transform_affine_within(m: Mat4, p: Vec3, b: int)
    requires
        affine_within(m),
        vec_within(p, b),
        b >= 0,
        3 * (LINEAR_BOUND as int * b) + TRANSLATION_BOUND as int * SCALE as int <= FP_BOUND as int
            * SCALE as int,
    ensures
        vec_within(transform_affine_spec(m, p), FP_BOUND as int),
{
    lemma_transform_rows_within(
        m,
        p,
        LINEAR_BOUND as int,
        TRANSLATION_BOUND as int,
        b,
        FP_BOUND as int,
    );
}

proof fn lemma_affine_row_within(
    r0: int,
    r1: int,
    r2: int,
    r3: int,
    p: Vec3,
    lb: int,
    tb: int,
    pb: int,
    rb: int,
)
    requires
        iabs(r0) <= lb,
        iabs(r1) <= lb,
        iabs(r2) <= lb,
        iabs(r3) <= tb,
        vec_within(p, pb),
        lb >= 0,
        tb >= 0,
        pb >= 0,
        3 * (lb * pb) + tb * SCALE as int <= rb * SCALE as int,
    ensures
        iabs(tdiv(r0 * p.x + r1 * p.y + r2 * p.z + r3 * SCALE, SCALE as int)) <= rb,
{
    assert(iabs(r0 * p.x) == iabs(r0) * iabs(p.x as int)) by (nonlinear_arith);
    assert(iabs(r1 * p.y) == iabs(r1) * iabs(p.y as int)) by (nonlinear_arith);
    assert(iabs(r2 * p.z) == iabs(r2) * iabs(p.z as int)) by (nonlinear_arith);
    assert(iabs(r0 * p.x) <= lb * pb) by (nonlinear_arith)
        requires
            0 <= iabs(r0) <= lb,
            0 <= iabs(p.x as int) <= pb,
            iabs(r0 * p.x) == iabs(r0) * iabs(p.x as int),
    ;
    assert(iabs(r1 * p.y) <= lb * pb) by (nonlinear_arith)
        requires
            0 <= iabs(r1) <= lb,
            0 <= iabs(p.y as int) <= pb,
            iabs(r1 * p.y) == iabs(r1) * iabs(p.y as int),
    ;
    assert(iabs(r2 * p.z) <= lb * pb) by (nonlinear_arith)
        requires
            0 <= iabs(r2) <= lb,
            0 <= iabs(p.z as int) <= pb,
            iabs(r2 * p.z) == iabs(r2) * iabs(p.z as int),
    ;
    assert(iabs(r3 * SCALE) == iabs(r3) * SCALE as int) by (nonlinear_arith)
        requires
            SCALE as int > 0,
    ;
    assert(iabs(r3 * SCALE) <= tb * SCALE as int) by (nonlinear_arith)
        requires
            0 <= iabs(r3) <= tb,
            SCALE as int > 0,
            iabs(r3 * SCALE) == iabs(r3) * SCALE as int,
    ;
    let num = r0 * p.x + r1 * p.y + r2 * p.z + r3 * SCALE;
    assert(iabs(num) <= rb * SCALE as int);
    crate::fp::lemma_tdiv_bound(num, SCALE as int);
    vstd::arithmetic::div_mod::lemma_div_is_ordered(iabs(num), rb * SCALE as int, SCALE as int);
    assert(rb * SCALE as int == SCALE as int * rb);
    vstd::arithmetic::div_mod::lemma_div_multiples_vanish(rb, SCALE as int);
}

/// A matrix whose bottom row is `(0, 0, 0, SCALE)` applies to points without
/// a perspective divide.
pub open spec fn is_affine(m: Mat4) -> bool {
    m.m30 == 0 && m.m31 == 0 && m.m32 == 0 && m.m33 == SCALE
}

/// Affine application of a matrix to a point: each row's raw dot with the
/// homogeneous point, carried back to scalar units.
pub open spec fn transform_affine_spec(m: Mat4, p: Vec3) -> Vec3 {
    Vec3 {
        x: tdiv(m.m00 * p.x + m.m01 * p.y + m.m02 * p.z + m.m03 * SCALE, SCALE as int) as i64,
        y: tdiv(m.m10 * p.x + m.m11 * p.y + m.m12 * p.z + m.m13 * SCALE, SCALE as int) as i64,
        z: tdiv(m.m20 * p.x + m.m21 * p.y + m.m22 * p.z + m.m23 * SCALE, SCALE as int) as i64,
    }
}

proof fn lemma_mul_row_fits(a0: int, b0: int, a1: int, b1: int, a2: int, b2: int, a3: int, b3: int)
    requires
        fits_fp(a0),
        fits_fp(b0),
        fits_fp(a1),
        fits_fp(b1),
        fits_fp(a2),
        fits_fp(b2),
        fits_fp(a3),
        fits_fp(b3),
    ensures
        iabs(a0 * b0) <= FP_BOUND as int * FP_BOUND as int,
        iabs(a1 * b1) <= FP_BOUND as int * FP_BOUND as int,
        iabs(a2 * b2) <= FP_BOUND as int * FP_BOUND as int,
        iabs(a3 * b3) <= FP_BOUND as int * FP_BOUND as int,
        iabs(a0 * b0 + a1 * b1 + a2 * b2 + a3 * b3) <= 4 * (FP_BOUND as int * FP_BOUND as int),
        iabs(mul_entry(a0, b0, a1, b1, a2, b2, a3, b3)) <= 4 * (FP_BOUND as int * FP_BOUND as int)
            / SCALE as int,
{
    lemma_product_bound(a0, b0);
    lemma_product_bound(a1, b1);
    lemma_product_bound(a2, b2);
    lemma_product_bound(a3, b3);
    let s = a0 * b0 + a1 * b1 + a2 * b2 + a3 * b3;
    crate::fp::lemma_tdiv_bound(s, SCALE as int);
    assert(iabs(s) / SCALE as int <= 4 * (FP_BOUND as int * FP_BOUND as int) / SCALE as int)
        by (nonlinear_arith)
        requires
            0 <= iabs(s) <= 4 * (FP_BOUND as int * FP_BOUND as int),
            SCALE as int > 0,
    ;
}

impl Mat4 {
    /// The identity matrix.
    pub fn identity() -> (r: Mat4)
        ensures
            r == (Mat4 {
                m00: SCALE, m01: 0, m02: 0, m03: 0,
                m10: 0, m11: SCALE, m12: 0, m13: 0,
                m20: 0, m21: 0, m22: SCALE, m23: 0,
                m30: 0, m31: 0, m32: 0, m33: SCALE,
            }),
    {
        Mat4 {
            m00: SCALE, m01: 0, m02: 0, m03: 0,
            m10: 0, m11: SCALE, m12: 0, m13: 0,
            m20: 0, m21: 0, m22: SCALE, m23: 0,
            m30: 0, m31: 0, m32: 0, m33: SCALE,
        }
    }

    /// Every entry is within `b` in magnitude; the runtime check behind the
    /// arithmetic preconditions of the matrix operations.
    pub fn within(&self, b: i64) -> (r: bool)
        requires
            b >= 0,
        ensures
            r == mat_within(*self, b as int),
    {
        -b <= self.m00 && self.m00 <= b && -b <= self.m01 && self.m01 <= b && -b <= self.m02
            && self.m02 <= b && -b <= self.m03 && self.m03 <= b && -b <= self.m10 && self.m10 <= b
            && -b <= self.m11 && self.m11 <= b && -b <= self.m12 && self.m12 <= b && -b <= self.m13
            && self.m13 <= b && -b <= self.m20 && self.m20 <= b && -b <= self.m21 && self.m21 <= b
            && -b <= self.m22 && self.m22 <= b && -b <= self.m23 && self.m23 <= b && -b <= self.m30
            && self.m30 <= b && -b <= self.m31 && self.m31 <= b && -b <= self.m32 && self.m32 <= b
            && -b <= self.m33 && self.m33 <= b
    }

    /// Fixed-point matrix product `self * o`.
    pub fn mul(&self, o: &Mat4) -> (r: Mat4)
        requires
            mat_within(*self, FP_BOUND as int),
            mat_within(*o, FP_BOUND as int),
        ensures
            r == mat_mul_spec(*self, *o),
            mat_within(r, 4 * (FP_BOUND as int * FP_BOUND as int) / SCALE as int),
    {
        let a = *self;
        let b = *o;
        proof {
            lemma_mul_row_fits(a.m00 as int, b.m00 as int, a.m01 as int, b.m10 as int, a.m02 as int, b.m20 as int, a.m03 as int, b.m30 as int);
            lemma_mul_row_fits(a.m00 as int, b.m01 as int, a.m01 as int, b.m11 as int, a.m02 as int, b.m21 as int, a.m03 as int, b.m31 as int);
            lemma_mul_row_fits(a.m00 as int, b.m02 as int, a.m01 as int, b.m12 as int, a.m02 as int, b.m22 as int, a.m03 as int, b.m32 as int);
            lemma_mul_row_fits(a.m00 as int, b.m03 as int, a.m01 as int, b.m13 as int, a.m02 as int, b.m23 as int, a.m03 as int, b.m33 as int);
            lemma_mul_row_fits(a.m10 as int, b.m00 as int, a.m11 as int, b.m10 as int, a.m12 as int, b.m20 as int, a.m13 as int, b.m30 as int);
            lemma_mul_row_fits(a.m10 as int, b.m01 as int, a.m11 as int, b.m11 as int, a.m12 as int, b.m21 as int, a.m13 as int, b.m31 as int);
            lemma_mul_row_fits(a.m10 as int, b.m02 as int, a.m11 as int, b.m12 as int, a.m12 as int, b.m22 as int, a.m13 as int, b.m32 as int);
            lemma_mul_row_fits(a.m10 as int, b.m03 as int, a.m11 as int, b.m13 as int, a.m12 as int, b.m23 as int, a.m13 as int, b.m33 as int);
            lemma_mul_row_fits(a.m20 as int, b.m00 as int, a.m21 as int, b.m10 as int, a.m22 as int, b.m20 as int, a.m23 as int, b.m30 as int);
            lemma_mul_row_fits(a.m20 as int, b.m01 as int, a.m21 as int, b.m11 as int, a.m22 as int, b.m21 as int, a.m23 as int, b.m31 as int);
            lemma_mul_row_fits(a.m20 as int, b.m02 as int, a.m21 as int, b.m12 as int, a.m22 as int, b.m22 as int, a.m23 as int, b.m32 as int);
            lemma_mul_row_fits(a.m20 as int, b.m03 as int, a.m21 as int, b.m13 as int, a.m22 as int, b.m23 as int, a.m23 as int, b.m33 as int);
            lemma_mul_row_fits(a.m30 as int, b.m00 as int, a.m31 as int, b.m10 as int, a.m32 as int, b.m20 as int, a.m33 as int, b.m30 as int);
            lemma_mul_row_fits(a.m30 as int, b.m01 as int, a.m31 as int, b.m11 as int, a.m32 as int, b.m21 as int, a.m33 as int, b.m31 as int);
            lemma_mul_row_fits(a.m30 as int, b.m02 as int, a.m31 as int, b.m12 as int, a.m32 as int, b.m22 as int, a.m33 as int, b.m32 as int);
            lemma_mul_row_fits(a.m30 as int, b.m03 as int, a.m31 as int, b.m13 as int, a.m32 as int, b.m23 as int, a.m33 as int, b.m33 as int);
        }
        Mat4 {
            m00: div_i64(a.m00 * b.m00 + a.m01 * b.m10 + a.m02 * b.m20 + a.m03 * b.m30, SCALE),
            m01: div_i64(a.m00 * b.m01 + a.m01 * b.m11 + a.m02 * b.m21 + a.m03 * b.m31, SCALE),
            m02: div_i64(a.m00 * b.m02 + a.m01 * b.m12 + a.m02 * b.m22 + a.m03 * b.m32, SCALE),
            m03: div_i64(a.m00 * b.m03 + a.m01 * b.m13 + a.m02 * b.m23 + a.m03 * b.m33, SCALE),
            m10: div_i64(a.m10 * b.m00 + a.m11 * b.m10 + a.m12 * b.m20 + a.m13 * b.m30, SCALE),
            m11: div_i64(a.m10 * b.m01 + a.m11 * b.m11 + a.m12 * b.m21 + a.m13 * b.m31, SCALE),
            m12: div_i64(a.m10 * b.m02 + a.m11 * b.m12 + a.m12 * b.m22 + a.m13 * b.m32, SCALE),
            m13: div_i64(a.m10 * b.m03 + a.m11 * b.m13 + a.m12 * b.m23 + a.m13 * b.m33, SCALE),
            m20: div_i64(a.m20 * b.m00 + a.m21 * b.m10 + a.m22 * b.m20 + a.m23 * b.m30, SCALE),
            m21: div_i64(a.m20 * b.m01 + a.m21 * b.m11 + a.m22 * b.m21 + a.m23 * b.m31, SCALE),
            m22: div_i64(a.m20 * b.m02 + a.m21 * b.m12 + a.m22 * b.m22 + a.m23 * b.m32, SCALE),
            m23: div_i64(a.m20 * b.m03 + a.m21 * b.m13 + a.m22 * b.m23 + a.m23 * b.m33, SCALE),
            m30: div_i64(a.m30 * b.m00 + a.m31 * b.m10 + a.m32 * b.m20 + a.m33 * b.m30, SCALE),
            m31: div_i64(a.m30 * b.m01 + a.m31 * b.m11 + a.m32 * b.m21 + a.m33 * b.m31, SCALE),
            m32: div_i64(a.m30 * b.m02 + a.m31 * b.m12 + a.m32 * b.m22 + a.m33 * b.m32, SCALE),
            m33: div_i64(a.m30 * b.m03 + a.m31 * b.m13 + a.m32 * b.m23 + a.m33 * b.m33, SCALE),
        }
    }

    /// Apply an affine matrix (bottom row `(0,0,0,SCALE)`) to a point.
    pub fn transform_point_affine(&self, p: Vec3) -> (r: Vec3)
        requires
            mat_within(*self, FP_BOUND as int),
            vec_within(p, FP_BOUND as int),
        ensures
            r == transform_affine_spec(*self, p),
    {
        let m = *self;
        proof {
            lemma_mul_row_fits(m.m00 as int, p.x as int, m.m01 as int, p.y as int, m.m02 as int, p.z as int, m.m03 as int, SCALE as int);
            lemma_mul_row_fits(m.m10 as int, p.x as int, m.m11 as int, p.y as int, m.m12 as int, p.z as int, m.m13 as int, SCALE as int);
            lemma_mul_row_fits(m.m20 as int, p.x as int, m.m21 as int, p.y as int, m.m22 as int, p.z as int, m.m23 as int, SCALE as int);
        }
        Vec3 {
            x: div_i64(m.m00 * p.x + m.m01 * p.y + m.m02 * p.z + m.m03 * SCALE, SCALE),
            y: div_i64(m.m10 * p.x + m.m11 * p.y + m.m12 * p.z + m.m13 * SCALE, SCALE),
            z: div_i64(m.m20 * p.x + m.m21 * p.y + m.m22 * p.z + m.m23 * SCALE, SCALE),
        }
    }
}

} // verus!
