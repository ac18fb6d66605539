//! Trapezoid quadrature on a uniform grid, in units of one half.
//!
//! The trapezoid rule weighs the two end samples by one half and every other
//! sample by one. Here the weights are doubled, 1 at the ends and 2 inside, so
//! that the sum stays an integer: the integral over a grid of spacing `h` is
//! `h / 2` times the doubled sum.

use vstd::prelude::*;
use vstd::arithmetic::mul::{lemma_mul_is_distributive_add, lemma_mul_is_distributive_sub};
use crate::array::IntVector;
use crate::error::SolverError;
use crate::polynomial::{grid_point, lemma_binomial, lemma_grid_step, lemma_swap, pw2, pw3};

verus! {

/// Twice the trapezoid weight of sample `k` among `n`: 1 at both ends, 2 inside.
pub open spec fn doubled_weight(k: int, n: int) -> int {
    if k == 0 || k == n - 1 {
        1
    } else {
        2
    }
}

/// The doubled weights applied to the first `m` samples, summed.
pub open spec fn trapezoid_prefix(vals: Seq<int>, m: int) -> int
    decreases m,
{
    if m <= 0 {
        0
    } else {
        trapezoid_prefix(vals, m - 1) + doubled_weight(m - 1, vals.len() as int) * vals[m - 1]
    }
}

/// The doubled trapezoid sum of all samples.
pub open spec fn doubled_trapezoid(vals: Seq<int>) -> int {
    trapezoid_prefix(vals, vals.len() as int)
}

/// Whether an exact value can be stored in an `i128`.
pub open spec fn fits_i128(x: int) -> bool {
    i128::MIN <= x <= i128::MAX
}

/// Whether every weighted sample and every partial sum of the doubled
/// trapezoid sum, taken in index order, can be stored in an `i128`.
pub open spec fn trapezoid_fits(vals: Seq<int>) -> bool {
    &&& forall|k: int|
        0 <= k < vals.len() ==> fits_i128(
            #[trigger] (doubled_weight(k, vals.len() as int) * vals[k]),
        )
    &&& forall|m: int| 0 <= m <= vals.len() ==> fits_i128(#[trigger] trapezoid_prefix(vals, m))
}

/// Twice the trapezoid weight of sample `k` among `n`.
pub fn trapezoid_weight(k: usize, n: usize) -> (w: i64)
    requires
        k < n,
    ensures
        w == doubled_weight(k as int, n as int),
{
    if k == 0 || k == n - 1 {
        1
    } else {
        2
    }
}

/// Adds sample `k` with its doubled weight to the partial sum `acc`, or returns
/// `None` where the weighted sample or the new partial sum leaves `i128`.
pub fn trapezoid_step(acc: i128, k: usize, n: usize, value: i128) -> (next: Option<i128>)
    requires
        k < n,
    ensures
        next == if fits_i128(doubled_weight(k as int, n as int) * value) && fits_i128(
            acc + doubled_weight(k as int, n as int) * value,
        ) {
            Some((acc + doubled_weight(k as int, n as int) * value) as i128)
        } else {
            None
        },
{
    let w = trapezoid_weight(k, n);
    let weighted = match value.checked_mul(w as i128) {
        Some(x) => x,
        None => {
            assert(value * w == w * value) by (nonlinear_arith);
            return None;
        },
    };
    assert(value * w == w * value) by (nonlinear_arith);
    acc.checked_add(weighted)
}

/// The doubled trapezoid sum of the samples: over a grid of spacing `h` the
/// trapezoid estimate of the integral is `h / 2` times the result.
///
/// Fails with `Overflow` exactly where a weighted sample or a partial sum
/// leaves `i128`.
pub fn trapezoid_sum(vals: &IntVector) -> (r: Result<i128, SolverError>)
    ensures
        trapezoid_fits(vals.values()) ==> r == Ok::<i128, SolverError>(
            doubled_trapezoid(vals.values()) as i128,
        ),
        !trapezoid_fits(vals.values()) ==> r == Err::<i128, SolverError>(SolverError::Overflow),
{
    let n = vals.len();
    let mut acc: i128 = 0;
    let mut k: usize = 0;
    while k < n
        invariant
            n == vals@.len(),
            k <= n,
            acc == trapezoid_prefix(vals.values(), k as int),
            forall|j: int|
                0 <= j < k ==> fits_i128(
                    #[trigger] (doubled_weight(j, n as int) * vals.values()[j]),
                ),
            forall|m: int| 0 <= m <= k ==> fits_i128(#[trigger] trapezoid_prefix(vals.values(), m)),
        decreases n - k,
    {
        let value = vals.at(k);
        match trapezoid_step(acc, k, n, value as i128) {
            Some(next) => {
                acc = next;
            },
            None => {
                assert(!fits_i128(doubled_weight(k as int, n as int) * vals.values()[k as int])
                    || !fits_i128(trapezoid_prefix(vals.values(), k + 1)));
                return Err(SolverError::Overflow);
            },
        }
        k += 1;
    }
    Ok(acc)
}

/// The polynomial `c0 + c1 y + c2 y^2`.
pub open spec fn quadratic(c0: int, c1: int, c2: int, y: int) -> int {
    c0 + c1 * y + c2 * pw2(y)
}

/// The quadratic sampled on the `n` points of a uniform grid.
pub open spec fn quadratic_samples(n: nat, q0: int, h: int, c0: int, c1: int, c2: int) -> Seq<int> {
    Seq::new(n, |k: int| quadratic(c0, c1, c2, grid_point(q0, h, k)))
}

/// Six times the integral of the quadratic from `a` to `b`.
pub open spec fn six_integrals(c0: int, c1: int, c2: int, a: int, b: int) -> int {
    c0 * (6 * (b - a)) + c1 * (3 * (pw2(b) - pw2(a))) + c2 * (2 * (pw3(b) - pw3(a)))
}

/// The sum of the first `m` samples.
spec fn plain_prefix(vals: Seq<int>, m: int) -> int
    decreases m,
{
    if m <= 0 {
        0
    } else {
        plain_prefix(vals, m - 1) + vals[m - 1]
    }
}

/// Six times the integral plus the error of the trapezoid rule, with the
/// coefficients in front.
spec fn trapezoid_target(c0: int, c1: int, c2: int, a: int, b: int, h: int) -> int {
    c0 * (6 * (b - a)) + c1 * (3 * (pw2(b) - pw2(a))) + c2 * (2 * (pw3(b) - pw3(a)) + (b - a) * (h
        * h))
}

/// On two samples or more the doubled trapezoid sum is twice the plain sum less
/// the two end samples.
proof fn lemma_trapezoid_as_plain(vals: Seq<int>, m: int)
    requires
        vals.len() >= 2,
        0 <= m <= vals.len(),
    ensures
        trapezoid_prefix(vals, m) == 2 * plain_prefix(vals, m) - (if m >= 1 {
            vals[0]
        } else {
            0
        }) - (if m == vals.len() {
            vals[m - 1]
        } else {
            0
        }),
    decreases m,
{
    if m > 0 {
        lemma_trapezoid_as_plain(vals, m - 1);
    }
}

/// Equal factors give equal products.
proof fn lemma_mul_same(c: int, x: int, y: int)
    requires
        x == y,
    ensures
        c * x == c * y,
{
}

/// What one more interval adds to three times the spacing times the doubled
/// trapezoid sum, and to the target: the same.
proof fn lemma_trapezoid_interval(c0: int, c1: int, c2: int, a: int, b: int, h: int)
    ensures
        3 * h * (quadratic(c0, c1, c2, b) + quadratic(c0, c1, c2, b + h)) == trapezoid_target(
            c0,
            c1,
            c2,
            a,
            b + h,
            h,
        ) - trapezoid_target(c0, c1, c2, a, b, h),
{
    let k = 3 * h;
    let u1 = 6 * (b * h) + 3 * (h * h);
    let u2 = 6 * (b * b * h) + 6 * (b * h * h) + 3 * (h * h * h);
    lemma_binomial(b, h);
    // The left side.
    let s1 = b + (b + h);
    let s2 = pw2(b) + pw2(b + h);
    lemma_mul_is_distributive_add(c1, b, b + h);
    lemma_mul_is_distributive_add(c2, pw2(b), pw2(b + h));
    assert(quadratic(c0, c1, c2, b) + quadratic(c0, c1, c2, b + h) == c0 * 2 + c1 * s1 + c2 * s2);
    lemma_mul_is_distributive_add(k, c0 * 2 + c1 * s1, c2 * s2);
    lemma_mul_is_distributive_add(k, c0 * 2, c1 * s1);
    lemma_swap(k, c0, 2);
    lemma_swap(k, c1, s1);
    lemma_swap(k, c2, s2);
    assert(k * s1 == u1) by (nonlinear_arith)
        requires
            k == 3 * h,
            s1 == b + (b + h),
            u1 == 6 * (b * h) + 3 * (h * h),
    ;
    assert(k * s2 == u2) by (nonlinear_arith)
        requires
            k == 3 * h,
            s2 == b * b + (b * b + 2 * (b * h) + h * h),
            u2 == 6 * (b * b * h) + 6 * (b * h * h) + 3 * (h * h * h),
    ;
    lemma_mul_same(c0, k * 2, 6 * h);
    lemma_mul_same(c1, k * s1, u1);
    lemma_mul_same(c2, k * s2, u2);
    assert(k * (quadratic(c0, c1, c2, b) + quadratic(c0, c1, c2, b + h)) == c0 * (6 * h) + c1 * u1
        + c2 * u2);
    // The right side.
    let x0 = 6 * (b - a);
    let x1 = 3 * (pw2(b) - pw2(a));
    let x2 = 2 * (pw3(b) - pw3(a)) + (b - a) * (h * h);
    let y0 = 6 * (b + h - a);
    let y1 = 3 * (pw2(b + h) - pw2(a));
    let y2 = 2 * (pw3(b + h) - pw3(a)) + (b + h - a) * (h * h);
    lemma_mul_is_distributive_sub(c0, y0, x0);
    lemma_mul_is_distributive_sub(c1, y1, x1);
    lemma_mul_is_distributive_sub(c2, y2, x2);
    let g = h * h;
    assert((b + h - a) * g - (b - a) * g == h * h * h) by (nonlinear_arith)
        requires
            g == h * h,
    ;
    assert(y2 - x2 == u2);
    lemma_mul_same(c0, y0 - x0, 6 * h);
    lemma_mul_same(c1, y1 - x1, u1);
    lemma_mul_same(c2, y2 - x2, u2);
}

/// Three times the spacing times the doubled trapezoid sum of the first `m`
/// samples, taken as a grid of their own, in closed form.
proof fn lemma_plain_closed_form(n: nat, q0: int, h: int, c0: int, c1: int, c2: int, m: int)
    requires
        1 <= m <= n,
    ensures
        ({
            let vals = quadratic_samples(n, q0, h, c0, c1, c2);
            3 * h * (2 * plain_prefix(vals, m) - vals[0] - vals[m - 1]) == trapezoid_target(
                c0,
                c1,
                c2,
                q0,
                grid_point(q0, h, m - 1),
                h,
            )
        }),
    decreases m,
{
    let vals = quadratic_samples(n, q0, h, c0, c1, c2);
    let k = 3 * h;
    if m == 1 {
        assert(plain_prefix(vals, 1) == plain_prefix(vals, 0) + vals[0]);
        let inner = 2 * plain_prefix(vals, 1) - vals[0] - vals[0];
        assert(k * inner == 0) by (nonlinear_arith)
            requires
                inner == 0,
        ;
        let b = grid_point(q0, h, 0);
        assert(b == q0);
        let g = h * h;
        assert(c0 * (6 * (b - q0)) == 0) by (nonlinear_arith)
            requires
                b == q0,
        ;
        assert(c1 * (3 * (pw2(b) - pw2(q0))) == 0) by (nonlinear_arith)
            requires
                pw2(b) == pw2(q0),
        ;
        assert(c2 * (2 * (pw3(b) - pw3(q0)) + (b - q0) * g) == 0) by (nonlinear_arith)
            requires
                b == q0,
                pw3(b) == pw3(q0),
        ;
    } else {
        lemma_plain_closed_form(n, q0, h, c0, c1, c2, m - 1);
        let b = grid_point(q0, h, m - 2);
        lemma_grid_step(q0, h, m - 2, 1);
        assert(grid_point(q0, h, m - 1) == b + h);
        assert(vals[m - 2] == quadratic(c0, c1, c2, b));
        assert(vals[m - 1] == quadratic(c0, c1, c2, b + h));
        let before = 2 * plain_prefix(vals, m - 1) - vals[0] - vals[m - 2];
        let added = vals[m - 2] + vals[m - 1];
        assert(2 * plain_prefix(vals, m) - vals[0] - vals[m - 1] == before + added);
        lemma_mul_is_distributive_add(k, before, added);
        lemma_trapezoid_interval(c0, c1, c2, q0, b, h);
    }
}

/// The trapezoid rule on a quadratic: on every uniform grid of at least two
/// points, three times the spacing times the doubled trapezoid sum is six
/// times the integral between the end points plus `c2 * (b - a) * h * h`. The
/// estimate `h / 2` times the doubled sum therefore misses the integral by
/// `(b - a) * h * h / 12` times the second derivative `2 * c2`: nothing for a
/// straight line, and a fourth as much whenever the spacing is halved.
pub proof fn lemma_trapezoid_error(n: nat, q0: int, h: int, c0: int, c1: int, c2: int)
    requires
        n >= 2,
    ensures
        ({
            let b = grid_point(q0, h, n - 1);
            3 * h * doubled_trapezoid(quadratic_samples(n, q0, h, c0, c1, c2)) == six_integrals(
                c0,
                c1,
                c2,
                q0,
                b,
            ) + c2 * ((b - q0) * (h * h))
        }),
{
    let vals = quadratic_samples(n, q0, h, c0, c1, c2);
    let b = grid_point(q0, h, n - 1);
    lemma_trapezoid_as_plain(vals, n as int);
    lemma_plain_closed_form(n, q0, h, c0, c1, c2, n as int);
    lemma_mul_is_distributive_add(c2, 2 * (pw3(b) - pw3(q0)), (b - q0) * (h * h));
}

} // verus!
