//! The first and second finite-difference derivative of a sampled function, as
//! a vector and as the matrix of the same linear operator.
//!
//! For samples `v` at spacing `h`, entry `i` of [`first_deriv_vec`] is
//! `12 * h` times the first derivative at grid point `i`, entry `i` of
//! [`second_deriv_vec`] is `12 * h * h` times the second derivative. The
//! matrices of [`jac_first_deriv_vec`] and [`jac_second_deriv_vec`] carry the
//! same factors, and are the Jacobians of the vector forms because these are
//! linear.

use vstd::prelude::*;
use crate::array::{IntMatrix, IntVector, square_fits};
use crate::error::SolverError;
use crate::stencil::{
    coefficient, coefficients, row_kind, row_kind_at, row_start, weight, window_start, DerivOrder,
    MIN_GRID_POINTS,
};

verus! {

/// Whether an exact value can be stored in an `i64`.
pub open spec fn fits_i64(x: int) -> bool {
    i64::MIN <= x <= i64::MAX
}

/// Whether every entry can be stored in an `i64`.
pub open spec fn all_fit_i64(s: Seq<int>) -> bool {
    forall|i: int| 0 <= i < s.len() ==> fits_i64(#[trigger] s[i])
}

/// The stencil of index `i` applied to the samples `v`: the coefficients of the
/// row times the five samples under it, summed.
pub open spec fn deriv_at(order: DerivOrder, v: Seq<int>, i: int) -> int {
    let n = v.len() as int;
    let s = window_start(n, i);
    let kind = row_kind_at(n, i);
    coefficient(order, kind, 0) * v[s] + coefficient(order, kind, 1) * v[s + 1] + coefficient(
        order,
        kind,
        2,
    ) * v[s + 2] + coefficient(order, kind, 3) * v[s + 3] + coefficient(order, kind, 4) * v[s + 4]
}

/// The operator applied to the samples `v` at every grid point.
pub open spec fn deriv_seq(order: DerivOrder, v: Seq<int>) -> Seq<int> {
    Seq::new(v.len(), |i: int| deriv_at(order, v, i))
}

/// The first-derivative stencil of index `i` applied to the samples `v`.
pub open spec fn first_deriv_at(v: Seq<int>, i: int) -> int {
    deriv_at(DerivOrder::First, v, i)
}

/// The second-derivative stencil of index `i` applied to the samples `v`.
pub open spec fn second_deriv_at(v: Seq<int>, i: int) -> int {
    deriv_at(DerivOrder::Second, v, i)
}

/// The first derivative of the samples `v` at every grid point.
pub open spec fn first_deriv_seq(v: Seq<int>) -> Seq<int> {
    deriv_seq(DerivOrder::First, v)
}

/// The second derivative of the samples `v` at every grid point.
pub open spec fn second_deriv_seq(v: Seq<int>) -> Seq<int> {
    deriv_seq(DerivOrder::Second, v)
}

/// The `n` by `n` matrix of the operator: row `i` holds the stencil of index
/// `i` at the columns under it and zeros elsewhere.
pub open spec fn operator_rows(order: DerivOrder, n: nat) -> Seq<Seq<int>> {
    Seq::new(n, |i: int| Seq::new(n, |j: int| weight(order, n as int, i, j)))
}

/// The sum of the first `m` products of matching entries.
pub open spec fn dot_prefix(a: Seq<int>, b: Seq<int>, m: int) -> int
    decreases m,
{
    if m <= 0 {
        0
    } else {
        dot_prefix(a, b, m - 1) + a[m - 1] * b[m - 1]
    }
}

/// The inner product of a matrix row and a vector.
pub open spec fn dot(a: Seq<int>, b: Seq<int>) -> int {
    dot_prefix(a, b, a.len() as int)
}

/// The matrix-vector product.
pub open spec fn mat_vec(m: Seq<Seq<int>>, v: Seq<int>) -> Seq<int> {
    Seq::new(m.len(), |i: int| dot(m[i], v))
}

/// The product of a stencil coefficient and a sample stays far inside `i128`.
proof fn lemma_term_bound(w: int, x: int)
    by (nonlinear_arith)
    requires
        -114 <= w <= 114,
        i64::MIN <= x <= i64::MAX,
    ensures
        -114 * 0x8000_0000_0000_0000 <= w * x <= 114 * 0x8000_0000_0000_0000,
{
}

/// The weighted sum of the five samples from `start` on.
fn apply_row(row: &[i64; 5], v: &IntVector, start: usize) -> (acc: i128)
    requires
        start + 5 <= v@.len() <= usize::MAX,
        forall|t: int| 0 <= t < 5 ==> -114 <= #[trigger] row[t] <= 114,
    ensures
        acc == row[0] * v@[start as int] + row[1] * v@[start + 1] + row[2] * v@[start + 2]
            + row[3] * v@[start + 3] + row[4] * v@[start + 4],
{
    let x0 = v.at(start);
    let x1 = v.at(start + 1);
    let x2 = v.at(start + 2);
    let x3 = v.at(start + 3);
    let x4 = v.at(start + 4);
    proof {
        lemma_term_bound(row[0] as int, x0 as int);
        lemma_term_bound(row[1] as int, x1 as int);
        lemma_term_bound(row[2] as int, x2 as int);
        lemma_term_bound(row[3] as int, x3 as int);
        lemma_term_bound(row[4] as int, x4 as int);
    }
    (row[0] as i128) * (x0 as i128) + (row[1] as i128) * (x1 as i128) + (row[2] as i128) * (
    x2 as i128) + (row[3] as i128) * (x3 as i128) + (row[4] as i128) * (x4 as i128)
}

/// The operator of the given order applied to the samples `v`.
pub fn deriv_vec(order: DerivOrder, v: &IntVector) -> (r: Result<IntVector, SolverError>)
    ensures
        v@.len() < 5 ==> r == Err::<IntVector, SolverError>(SolverError::GridTooSmall),
        v@.len() >= 5 && !all_fit_i64(deriv_seq(order, v.values())) ==> r == Err::<
            IntVector,
            SolverError,
        >(SolverError::Overflow),
        v@.len() >= 5 && all_fit_i64(deriv_seq(order, v.values())) ==> r is Ok
            && r->Ok_0.values() == deriv_seq(order, v.values()),
{
    let n = v.len();
    if n < MIN_GRID_POINTS {
        return Err(SolverError::GridTooSmall);
    }
    let mut out: Vec<i64> = Vec::new();
    let mut i: usize = 0;
    while i < n
        invariant
            n == v@.len(),
            n >= 5,
            i <= n,
            out@.len() == i,
            forall|k: int|
                0 <= k < i ==> #[trigger] out@[k] as int == deriv_at(order, v.values(), k),
        decreases n - i,
    {
        let kind = row_kind(n, i);
        let start = row_start(n, i);
        let row = coefficients(order, kind);
        let acc = apply_row(&row, v, start);
        assert(acc == deriv_at(order, v.values(), i as int));
        if acc < i64::MIN as i128 || acc > i64::MAX as i128 {
            assert(!fits_i64(deriv_seq(order, v.values())[i as int]));
            return Err(SolverError::Overflow);
        }
        out.push(acc as i64);
        i += 1;
    }
    let d = IntVector::from_vec(out);
    assert(d.values() =~= deriv_seq(order, v.values()));
    Ok(d)
}

/// The first derivative of the samples `v`, times `12 * h`.
///
/// Fails with `GridTooSmall` on fewer than five samples, and with `Overflow`
/// where an entry of the exact result does not fit in an `i64`.
pub fn first_deriv_vec(v: &IntVector) -> (r: Result<IntVector, SolverError>)
    ensures
        v@.len() < 5 ==> r == Err::<IntVector, SolverError>(SolverError::GridTooSmall),
        v@.len() >= 5 && !all_fit_i64(first_deriv_seq(v.values())) ==> r == Err::<
            IntVector,
            SolverError,
        >(SolverError::Overflow),
        v@.len() >= 5 && all_fit_i64(first_deriv_seq(v.values())) ==> r is Ok
            && r->Ok_0.values() == first_deriv_seq(v.values()),
{
    deriv_vec(DerivOrder::First, v)
}

/// The second derivative of the samples `v`, times `12 * h * h`.
///
/// Fails with `GridTooSmall` on fewer than five samples, and with `Overflow`
/// where an entry of the exact result does not fit in an `i64`.
pub fn second_deriv_vec(v: &IntVector) -> (r: Result<IntVector, SolverError>)
    ensures
        v@.len() < 5 ==> r == Err::<IntVector, SolverError>(SolverError::GridTooSmall),
        v@.len() >= 5 && !all_fit_i64(second_deriv_seq(v.values())) ==> r == Err::<
            IntVector,
            SolverError,
        >(SolverError::Overflow),
        v@.len() >= 5 && all_fit_i64(second_deriv_seq(v.values())) ==> r is Ok
            && r->Ok_0.values() == second_deriv_seq(v.values()),
{
    deriv_vec(DerivOrder::Second, v)
}

/// The `n` by `n` matrix of the operator of the given order.
pub fn operator_matrix(order: DerivOrder, n: usize) -> (r: Result<IntMatrix, SolverError>)
    ensures
        n < 5 ==> r == Err::<IntMatrix, SolverError>(SolverError::GridTooSmall),
        n >= 5 && !square_fits(n as int) ==> r == Err::<IntMatrix, SolverError>(
            SolverError::GridTooLarge,
        ),
        n >= 5 && square_fits(n as int) ==> r is Ok && r->Ok_0.values() == operator_rows(
            order,
            n as nat,
        ),
{
    if n < MIN_GRID_POINTS {
        return Err(SolverError::GridTooSmall);
    }
    let mut m = match IntMatrix::zeros(n) {
        Some(z) => z,
        None => {
            return Err(SolverError::GridTooLarge);
        },
    };
    let mut i: usize = 0;
    while i < n
        invariant
            n >= 5,
            i <= n,
            m.is_square(n as int),
            forall|r: int, j: int|
                0 <= r < i && 0 <= j < n ==> #[trigger] m.entry(r, j) == weight(
                    order,
                    n as int,
                    r,
                    j,
                ),
            forall|r: int, j: int| i <= r < n && 0 <= j < n ==> #[trigger] m.entry(r, j) == 0,
        decreases n - i,
    {
        let kind = row_kind(n, i);
        let start = row_start(n, i);
        let row = coefficients(order, kind);
        let mut t: usize = 0;
        while t < 5
            invariant
                n >= 5,
                i < n,
                t <= 5,
                start + 5 <= n,
                start == window_start(n as int, i as int),
                kind == row_kind_at(n as int, i as int),
                forall|u: int| 0 <= u < 5 ==> #[trigger] row[u] == coefficient(order, kind, u),
                m.is_square(n as int),
                forall|r: int, j: int|
                    0 <= r < i && 0 <= j < n ==> #[trigger] m.entry(r, j) == weight(
                        order,
                        n as int,
                        r,
                        j,
                    ),
                forall|r: int, j: int| i < r < n && 0 <= j < n ==> #[trigger] m.entry(r, j) == 0,
                forall|j: int|
                    0 <= j < start + t ==> #[trigger] m.entry(i as int, j) == weight(
                        order,
                        n as int,
                        i as int,
                        j,
                    ),
                forall|j: int| start + t <= j < n ==> #[trigger] m.entry(i as int, j) == 0,
            decreases 5 - t,
        {
            m.put(i, start + t, row[t]);
            t += 1;
        }
        i += 1;
    }
    proof {
        let rows = operator_rows(order, n as nat);
        assert forall|r: int| 0 <= r < n implies #[trigger] m.values()[r] == rows[r] by {
            assert forall|j: int| 0 <= j < n implies m.values()[r][j] == rows[r][j] by {
                assert(m.entry(r, j) == weight(order, n as int, r, j));
            }
            assert(m.values()[r] =~= rows[r]);
        }
        assert(m.values() =~= rows);
    }
    Ok(m)
}

/// The matrix of the first-derivative operator on `n` grid points, times
/// `12 * h`: row `i` holds the stencil of index `i` at its columns and zeros
/// elsewhere.
///
/// Fails with `GridTooSmall` for `n < 5`, and with `GridTooLarge` where the
/// dense matrix cannot be addressed.
pub fn jac_first_deriv_vec(n: usize) -> (r: Result<IntMatrix, SolverError>)
    ensures
        n < 5 ==> r == Err::<IntMatrix, SolverError>(SolverError::GridTooSmall),
        n >= 5 && !square_fits(n as int) ==> r == Err::<IntMatrix, SolverError>(
            SolverError::GridTooLarge,
        ),
        n >= 5 && square_fits(n as int) ==> r is Ok && r->Ok_0.values() == operator_rows(
            DerivOrder::First,
            n as nat,
        ),
{
    operator_matrix(DerivOrder::First, n)
}

/// The matrix of the second-derivative operator on `n` grid points, times
/// `12 * h * h`.
///
/// Fails with `GridTooSmall` for `n < 5`, and with `GridTooLarge` where the
/// dense matrix cannot be addressed.
pub fn jac_second_deriv_vec(n: usize) -> (r: Result<IntMatrix, SolverError>)
    ensures
        n < 5 ==> r == Err::<IntMatrix, SolverError>(SolverError::GridTooSmall),
        n >= 5 && !square_fits(n as int) ==> r == Err::<IntMatrix, SolverError>(
            SolverError::GridTooLarge,
        ),
        n >= 5 && square_fits(n as int) ==> r is Ok && r->Ok_0.values() == operator_rows(
            DerivOrder::Second,
            n as nat,
        ),
{
    operator_matrix(DerivOrder::Second, n)
}

/// The part of a row's inner product that the first `m` columns contribute,
/// for a row that is zero outside the five columns from `s` on.
spec fn window_partial(a: Seq<int>, b: Seq<int>, s: int, m: int) -> int {
    (if s < m {
        a[s] * b[s]
    } else {
        0
    }) + (if s + 1 < m {
        a[s + 1] * b[s + 1]
    } else {
        0
    }) + (if s + 2 < m {
        a[s + 2] * b[s + 2]
    } else {
        0
    }) + (if s + 3 < m {
        a[s + 3] * b[s + 3]
    } else {
        0
    }) + (if s + 4 < m {
        a[s + 4] * b[s + 4]
    } else {
        0
    })
}

/// The inner product with a row that is zero outside five columns is the sum
/// over those columns.
proof fn lemma_dot_window(a: Seq<int>, b: Seq<int>, s: int, m: int)
    requires
        0 <= s,
        s + 5 <= a.len(),
        0 <= m <= a.len(),
        forall|j: int| 0 <= j < a.len() && !(s <= j < s + 5) ==> #[trigger] a[j] == 0,
    ensures
        dot_prefix(a, b, m) == window_partial(a, b, s, m),
    decreases m,
{
    if m > 0 {
        lemma_dot_window(a, b, s, m - 1);
        if !(s <= m - 1 < s + 5) {
            let x = a[m - 1];
            let y = b[m - 1];
            assert(x * y == 0) by (nonlinear_arith)
                requires
                    x == 0,
            ;
        }
    }
}

/// The matrix of an operator applied to a vector is the operator applied to
/// the vector: on every grid of at least five points, and for every vector of
/// samples, the matrix-vector product with the derivative matrix equals the
/// vector form of the same derivative.
pub proof fn lemma_matrix_form_agrees(order: DerivOrder, v: Seq<int>)
    requires
        v.len() >= 5,
    ensures
        mat_vec(operator_rows(order, v.len()), v) == deriv_seq(order, v),
{
    let n = v.len();
    let rows = operator_rows(order, n);
    assert forall|i: int| 0 <= i < n implies dot(rows[i], v) == deriv_at(order, v, i) by {
        let s = window_start(n as int, i);
        lemma_dot_window(rows[i], v, s, n as int);
    }
    assert(mat_vec(rows, v) =~= deriv_seq(order, v));
}

} // verus!
