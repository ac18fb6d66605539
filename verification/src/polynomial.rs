//! Powers, uniform grids and the elementary algebra that the laws of the
//! operators rest on.

use vstd::prelude::*;
use vstd::arithmetic::mul::{
    lemma_mul_is_associative, lemma_mul_is_commutative, lemma_mul_is_distributive_add_other_way,
};

verus! {

/// The square of `y`.
pub open spec fn pw2(y: int) -> int {
    y * y
}

/// The cube of `y`.
pub open spec fn pw3(y: int) -> int {
    y * y * y
}

/// The fourth power of `y`.
pub open spec fn pw4(y: int) -> int {
    y * y * y * y
}

/// Grid point `k` of the uniform grid that starts at `q0` with spacing `h`.
pub open spec fn grid_point(q0: int, h: int, k: int) -> int {
    q0 + k * h
}

/// A factor moves past another into a product.
pub proof fn lemma_swap(w: int, c: int, a: int)
    ensures
        w * (c * a) == c * (w * a),
{
    lemma_mul_is_associative(w, c, a);
    lemma_mul_is_commutative(w, c);
    lemma_mul_is_associative(c, w, a);
}

/// The powers of a sum of two terms.
pub proof fn lemma_binomial(y: int, a: int)
    ensures
        pw2(y + a) == y * y + 2 * (y * a) + a * a,
        pw3(y + a) == y * y * y + 3 * (y * y * a) + 3 * (y * a * a) + a * a * a,
        pw4(y + a) == y * y * y * y + 4 * (y * y * y * a) + 6 * (y * y * a * a) + 4 * (y * a * a
            * a) + a * a * a * a,
{
    let z = y + a;
    let s2 = y * y + 2 * (y * a) + a * a;
    let s3 = y * y * y + 3 * (y * y * a) + 3 * (y * a * a) + a * a * a;
    assert(z * z == s2) by (nonlinear_arith)
        requires
            z == y + a,
            s2 == y * y + 2 * (y * a) + a * a,
    ;
    assert(s2 * z == s3) by (nonlinear_arith)
        requires
            z == y + a,
            s2 == y * y + 2 * (y * a) + a * a,
            s3 == y * y * y + 3 * (y * y * a) + 3 * (y * a * a) + a * a * a,
    ;
    assert(s3 * z == y * y * y * y + 4 * (y * y * y * a) + 6 * (y * y * a * a) + 4 * (y * a * a
        * a) + a * a * a * a) by (nonlinear_arith)
        requires
            z == y + a,
            s3 == y * y * y + 3 * (y * y * a) + 3 * (y * a * a) + a * a * a,
    ;
}

/// A numeric factor of the second term moves to the front of each monomial.
pub proof fn lemma_hoist(y: int, h: int, t: int)
    ensures
        y * (t * h) == t * (y * h),
        (t * h) * (t * h) == t * t * (h * h),
        y * y * (t * h) == t * (y * y * h),
        y * (t * h) * (t * h) == t * t * (y * h * h),
        (t * h) * (t * h) * (t * h) == t * t * t * (h * h * h),
        y * y * y * (t * h) == t * (y * y * y * h),
        y * y * (t * h) * (t * h) == t * t * (y * y * h * h),
        y * (t * h) * (t * h) * (t * h) == t * t * t * (y * h * h * h),
        (t * h) * (t * h) * (t * h) * (t * h) == t * t * t * t * (h * h * h * h),
{
    assert(y * (t * h) == t * (y * h)) by (nonlinear_arith);
    assert((t * h) * (t * h) == t * t * (h * h)) by (nonlinear_arith);
    assert(y * y * (t * h) == t * (y * y * h)) by (nonlinear_arith);
    assert(y * (t * h) * (t * h) == t * t * (y * h * h)) by (nonlinear_arith);
    assert((t * h) * (t * h) * (t * h) == t * t * t * (h * h * h)) by (nonlinear_arith);
    assert(y * y * y * (t * h) == t * (y * y * y * h)) by (nonlinear_arith);
    assert(y * y * (t * h) * (t * h) == t * t * (y * y * h * h)) by (nonlinear_arith);
    assert(y * (t * h) * (t * h) * (t * h) == t * t * t * (y * h * h * h)) by (nonlinear_arith);
    assert((t * h) * (t * h) * (t * h) * (t * h) == t * t * t * t * (h * h * h * h))
        by (nonlinear_arith);
}

/// Grid point `i + u` lies `u` spacings beyond grid point `i`.
pub proof fn lemma_grid_step(q0: int, h: int, i: int, u: int)
    ensures
        grid_point(q0, h, i + u) == grid_point(q0, h, i) + u * h,
{
    lemma_mul_is_distributive_add_other_way(h, i, u);
}

} // verus!
