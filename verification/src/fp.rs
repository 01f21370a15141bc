//! Fixed-point scalars.
//!
//! A scalar is an `i64` counting units of `1 / SCALE` of a world unit.
//! Multiplication and division therefore rescale by `SCALE`, truncating
//! toward zero exactly as the hardware would; `tdiv` and `fmul` are the
//! mathematical statements of those operations, and every executable
//! operation here is pinned to them.

use vstd::prelude::*;

verus! {

/// Number of fixed-point units in one world unit.
pub const SCALE: i64 = 100000;

/// Magnitude bound on scalars entering a product: two scalars within this
/// bound multiply without overflowing an `i64`.
pub const FP_BOUND: i64 = 1000000000;

/// Absolute value of a mathematical integer.
pub open spec fn iabs(a: int) -> int {
    if a >= 0 {
        a
    } else {
        -a
    }
}

/// `a` is small enough to take part in a fixed-point product.
pub open spec fn fits_fp(a: int) -> bool {
    -(FP_BOUND as int) <= a <= FP_BOUND as int
}

/// Division truncating toward zero, the behaviour of `/` on machine integers.
pub open spec fn tdiv(a: int, b: int) -> int {
    if (a >= 0) == (b >= 0) {
        iabs(a) / iabs(b)
    } else {
        -(iabs(a) / iabs(b))
    }
}

/// Fixed-point product: the scalar standing for the product of the two world
/// quantities that `a` and `b` stand for.
pub open spec fn fmul(a: int, b: int) -> int {
    tdiv(a * b, SCALE as int)
}

/// Truncating division never exceeds the magnitude of the exact quotient.
pub proof fn lemma_tdiv_bound(a: int, b: int)
    requires
        b > 0,
    ensures
        iabs(tdiv(a, b)) <= iabs(a) / b,
        iabs(tdiv(a, b)) * b <= iabs(a),
{
    assert(iabs(a) >= 0);
    assert(iabs(a) / b >= 0) by (nonlinear_arith)
        requires
            iabs(a) >= 0,
            b > 0,
    ;
    assert((iabs(a) / b) * b <= iabs(a)) by (nonlinear_arith)
        requires
            iabs(a) >= 0,
            b > 0,
    ;
}

/// Truncating division of an exact multiple recovers the factor.
pub proof fn lemma_tdiv_exact(k: int, b: int)
    requires
        b > 0,
    ensures
        tdiv(k * b, b) == k,
{
    if k >= 0 {
        assert(k * b >= 0) by (nonlinear_arith)
            requires
                k >= 0,
                b > 0,
        ;
        vstd::arithmetic::div_mod::lemma_div_multiples_vanish(k, b);
        assert(b * k == k * b);
        assert((k * b) / b == k);
        assert(iabs(k * b) == k * b);
        assert(iabs(b) == b);
        assert(tdiv(k * b, b) == iabs(k * b) / iabs(b));
    } else {
        assert(k * b < 0) by (nonlinear_arith)
            requires
                k < 0,
                b > 0,
        ;
        assert(iabs(k * b) == (-k) * b) by (nonlinear_arith)
            requires
                k < 0,
                b > 0,
        ;
        vstd::arithmetic::div_mod::lemma_div_multiples_vanish(-k, b);
        assert(b * (-k) == (-k) * b);
        assert(((-k) * b) / b == -k);
        assert(tdiv(k * b, b) == -(iabs(k * b) / iabs(b)));
    }
}

/// Truncating division is monotone in the numerator for a positive divisor.
pub proof fn lemma_tdiv_monotone(a1: int, a2: int, b: int)
    requires
        b > 0,
        a1 <= a2,
    ensures
        tdiv(a1, b) <= tdiv(a2, b),
{
    if a1 >= 0 {
        vstd::arithmetic::div_mod::lemma_div_is_ordered(a1, a2, b);
    } else if a2 < 0 {
        vstd::arithmetic::div_mod::lemma_div_is_ordered(-a2, -a1, b);
    } else {
        vstd::arithmetic::div_mod::lemma_div_pos_is_pos(-a1, b);
        vstd::arithmetic::div_mod::lemma_div_pos_is_pos(a2, b);
    }
}

/// The quotient-remainder shape of truncating division: the remainder is
/// smaller than the divisor and the quotient never overshoots.
pub proof fn lemma_tdiv_remainder(a: int, b: int)
    requires
        b > 0,
    ensures
        iabs(a - tdiv(a, b) * b) < b,
        iabs(tdiv(a, b) * b) <= iabs(a),
        (a - tdiv(a, b) * b) * a >= 0,
{
    let q = tdiv(a, b);
    if a >= 0 {
        vstd::arithmetic::div_mod::lemma_fundamental_div_mod(a, b);
        vstd::arithmetic::div_mod::lemma_remainder(a, b);
        vstd::arithmetic::div_mod::lemma_div_pos_is_pos(a, b);
        assert(q == a / b);
        assert(a - q * b == a % b);
        assert(q * b >= 0) by (nonlinear_arith)
            requires
                q >= 0,
                b > 0,
        ;
        assert((a - q * b) * a >= 0) by (nonlinear_arith)
            requires
                a >= 0,
                a - q * b >= 0,
        ;
    } else {
        let n = -a;
        let qn = n / b;
        vstd::arithmetic::div_mod::lemma_fundamental_div_mod(n, b);
        vstd::arithmetic::div_mod::lemma_remainder(n, b);
        vstd::arithmetic::div_mod::lemma_div_pos_is_pos(n, b);
        assert(q == -qn);
        assert(n - qn * b == n % b);
        assert(q * b == -(qn * b)) by (nonlinear_arith)
            requires
                q == -qn,
        ;
        assert(qn * b >= 0) by (nonlinear_arith)
            requires
                qn >= 0,
                b > 0,
        ;
        assert(a - q * b == -(n - qn * b));
        assert((a - q * b) * a >= 0) by (nonlinear_arith)
            requires
                a < 0,
                a - q * b <= 0,
        ;
    }
}

/// A fixed-point product against a factor within `ka` whole units stays
/// within `ka` times the other factor.
pub proof fn lemma_fmul_bound(a: int, b: int, ka: int)
    requires
        iabs(a) <= ka * SCALE,
        ka >= 0,
    ensures
        iabs(fmul(a, b)) <= ka * iabs(b),
        iabs(fmul(b, a)) <= ka * iabs(b),
{
    lemma_tdiv_bound(a * b, SCALE as int);
    lemma_tdiv_bound(b * a, SCALE as int);
    assert(a * b == b * a) by (nonlinear_arith);
    assert(iabs(a * b) == iabs(a) * iabs(b)) by (nonlinear_arith);
    assert(iabs(a) * iabs(b) <= (ka * SCALE) * iabs(b)) by (nonlinear_arith)
        requires
            0 <= iabs(a) <= ka * SCALE,
            iabs(b) >= 0,
    ;
    assert((ka * SCALE) * iabs(b) == SCALE as int * (ka * iabs(b))) by (nonlinear_arith);
    vstd::arithmetic::div_mod::lemma_div_is_ordered(
        iabs(a * b),
        SCALE as int * (ka * iabs(b)),
        SCALE as int,
    );
    vstd::arithmetic::div_mod::lemma_div_multiples_vanish(ka * iabs(b), SCALE as int);
}

/// Truncating `i64` division, written over unsigned division so the result
/// is pinned exactly to `tdiv`.
pub fn div_i64(a: i64, b: i64) -> (r: i64)
    requires
        b != 0,
        -i64::MAX <= a,
        -i64::MAX <= b,
    ensures
        r == tdiv(a as int, b as int),
{
    let neg: bool = (a < 0) != (b < 0);
    let ua: u64 = if a < 0 {
        (-a) as u64
    } else {
        a as u64
    };
    let ub: u64 = if b < 0 {
        (-b) as u64
    } else {
        b as u64
    };
    let uq: u64 = ua / ub;
    assert(ua == iabs(a as int) && ub == iabs(b as int));
    assert(uq <= ua) by (nonlinear_arith)
        requires
            uq == ua as int / ub as int,
            ub >= 1,
            ua >= 0,
    ;
    if neg {
        -(uq as i64)
    } else {
        uq as i64
    }
}

/// Fixed-point multiply: `(a * b) / SCALE`, truncating toward zero.
pub fn mul_fp(a: i64, b: i64) -> (r: i64)
    requires
        fits_fp(a as int),
        fits_fp(b as int),
    ensures
        r == fmul(a as int, b as int),
{
    assert(iabs(a as int) * iabs(b as int) <= FP_BOUND as int * FP_BOUND as int) by (nonlinear_arith)
        requires
            iabs(a as int) <= FP_BOUND as int,
            iabs(b as int) <= FP_BOUND as int,
            iabs(a as int) >= 0,
            iabs(b as int) >= 0,
    ;
    assert(iabs(a as int * b as int) == iabs(a as int) * iabs(b as int)) by (nonlinear_arith);
    let p: i64 = a * b;
    div_i64(p, SCALE)
}

/// `r` is the floor of the square root of `n`.
pub open spec fn is_sqrt(n: int, r: int) -> bool {
    0 <= r && r * r <= n < (r + 1) * (r + 1)
}

/// Floor of the square root of a non-negative integer.
pub open spec fn sqrt_floor(n: int) -> int {
    choose|r: int| is_sqrt(n, r)
}

/// The floor square root is unique.
pub proof fn lemma_sqrt_unique(n: int, r1: int, r2: int)
    requires
        is_sqrt(n, r1),
        is_sqrt(n, r2),
    ensures
        r1 == r2,
{
    if r1 < r2 {
        assert((r1 + 1) * (r1 + 1) <= r2 * r2) by (nonlinear_arith)
            requires
                0 <= r1 + 1 <= r2,
        ;
    }
    if r2 < r1 {
        assert((r2 + 1) * (r2 + 1) <= r1 * r1) by (nonlinear_arith)
            requires
                0 <= r2 + 1 <= r1,
        ;
    }
}

/// Every non-negative integer has a floor square root.
pub proof fn lemma_sqrt_exists(n: int)
    requires
        n >= 0,
    ensures
        exists|r: int| is_sqrt(n, r),
    decreases n,
{
    if n == 0 {
        assert(is_sqrt(0, 0));
    } else {
        lemma_sqrt_exists(n - 1);
        let r = choose|r: int| #[trigger] is_sqrt(n - 1, r);
        if (r + 1) * (r + 1) <= n {
            assert(n == (r + 1) * (r + 1));
            assert((r + 1) * (r + 1) < (r + 2) * (r + 2)) by (nonlinear_arith)
                requires
                    r >= 0,
            ;
            assert(is_sqrt(n, r + 1));
        } else {
            assert(is_sqrt(n, r));
        }
    }
}

/// `sqrt_floor` of a non-negative integer satisfies `is_sqrt`.
pub proof fn lemma_sqrt_floor_is_sqrt(n: int)
    requires
        n >= 0,
    ensures
        is_sqrt(n, sqrt_floor(n)),
{
    lemma_sqrt_exists(n);
    let r = choose|r: int| is_sqrt(n, r);
    assert(is_sqrt(n, r));
}

/// A witness makes `sqrt_floor` concrete.
pub proof fn lemma_sqrt_is(n: int, r: int)
    requires
        is_sqrt(n, r),
    ensures
        sqrt_floor(n) == r,
{
    let picked = choose|p: int| is_sqrt(n, p);
    assert(is_sqrt(n, picked));
    lemma_sqrt_unique(n, picked, r);
}

/// Integer square root: the greatest `r` with `r * r <= x`.
pub fn isqrt_u64(x: u64) -> (r: u64)
    ensures
        r * r <= x,
        x < (r + 1) * (r + 1),
        r == sqrt_floor(x as int),
{
    if x == 0 {
        proof {
            lemma_sqrt_is(0, 0);
        }
        return 0;
    }
    let mut lo: u64 = 0;
    let mut hi: u64 = 4294967296;
    assert(x < hi * hi) by {
        assert(4294967296int * 4294967296int == 0x10000000000000000int) by (nonlinear_arith);
    }
    while lo + 1 < hi
        invariant
            lo < hi,
            hi <= 4294967296,
            lo * lo <= x,
            x < hi * hi,
        decreases hi - lo,
    {
        let mid: u64 = lo + (hi - lo) / 2;
        assert(lo < mid < hi);
        assert(mid * mid <= 4294967295int * 4294967295int) by (nonlinear_arith)
            requires
                0 <= mid <= 4294967295int,
        ;
        let sq: u64 = mid * mid;
        if sq <= x {
            lo = mid;
        } else {
            hi = mid;
        }
    }
    proof {
        lemma_sqrt_is(x as int, lo as int);
    }
    lo
}

/// Integer square root of a non-negative `i64`.
pub fn isqrt_i64(x: i64) -> (r: i64)
    requires
        x >= 0,
    ensures
        r >= 0,
        r == sqrt_floor(x as int),
        is_sqrt(x as int, r as int),
{
    let r: u64 = isqrt_u64(x as u64);
    assert(r <= x as u64) by (nonlinear_arith)
        requires
            0 <= r as int,
            r as int * r as int <= x as u64 as int,
    ;
    r as i64
}

} // verus!
