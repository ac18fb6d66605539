//! An integration run of the full solver.
//!
//! Before the first step a run fixes the momentum grid, the two derivative
//! matrices on it, the initial state and the tolerances
//! ([`prepare_full_boltzmann`]). At every step it evaluates the right-hand side
//! ([`transport_rhs`]) and the Jacobian ([`transport_jacobian`]) of the
//! discretized transport equation over the whole grid. The stepping itself is
//! a stiff integrator's, which takes the two evaluations as they are and hands
//! its own status back.

use vstd::prelude::*;
use crate::array::{IntMatrix, IntVector, square_fits};
use crate::derivatives::{
    all_fit_i64, first_deriv_at, first_deriv_seq, first_deriv_vec, fits_i64, jac_first_deriv_vec,
    jac_second_deriv_vec, operator_rows, second_deriv_at, second_deriv_seq, second_deriv_vec,
};
use crate::error::SolverError;
use crate::model::equilibrium;
use crate::polynomial::{grid_point, lemma_grid_step};
use crate::stencil::{first_weight, second_weight, DerivOrder, MIN_GRID_POINTS};
use crate::transport::{
    compute_dfi, compute_j_dfi, jacobian_at, jacobian_fits, rhs_at, rhs_fits, DriftTerms,
};

verus! {

/// The tolerances handed to the integrator, as powers of ten.
#[derive(Clone, Copy, Debug, PartialEq, Eq, Structural)]
pub struct Tolerances {
    /// The relative tolerance is ten to this power.
    pub relative_exponent: i32,
    /// The absolute tolerance is ten to this power.
    pub absolute_exponent: i32,
}

/// The tolerances of the full phase-space solver: relative `1e-6`, absolute
/// `1e-100`.
pub fn full_solver_tolerances() -> (t: Tolerances)
    ensures
        t.relative_exponent == -6,
        t.absolute_exponent == -100,
{
    Tolerances { relative_exponent: -6, absolute_exponent: -100 }
}

/// The tolerances of the reduced single-equation solver: relative and absolute
/// `1e-7`.
pub fn simple_solver_tolerances() -> (t: Tolerances)
    ensures
        t.relative_exponent == -7,
        t.absolute_exponent == -7,
{
    Tolerances { relative_exponent: -7, absolute_exponent: -7 }
}

/// The momentum grid: `n` points from `q_min` on, `2 * half_dq` apart.
///
/// Fails with `GridTooSmall` on fewer than five points, then with
/// `SpacingNotPositive` unless `half_dq` is positive, then with `Overflow`
/// where the last point does not fit in an `i64`.
pub fn uniform_grid(q_min: i64, half_dq: i64, n: usize) -> (r: Result<IntVector, SolverError>)
    ensures
        n < 5 ==> r == Err::<IntVector, SolverError>(SolverError::GridTooSmall),
        n >= 5 && half_dq <= 0 ==> r == Err::<IntVector, SolverError>(
            SolverError::SpacingNotPositive,
        ),
        n >= 5 && half_dq > 0 && !fits_i64(grid_point(q_min as int, 2 * half_dq, n - 1)) ==> r
            == Err::<IntVector, SolverError>(SolverError::Overflow),
        n >= 5 && half_dq > 0 && fits_i64(grid_point(q_min as int, 2 * half_dq, n - 1)) ==> r is Ok
            && r->Ok_0.values() == Seq::new(
            n as nat,
            |k: int| grid_point(q_min as int, 2 * half_dq, k),
        ),
{
    if n < MIN_GRID_POINTS {
        return Err(SolverError::GridTooSmall);
    }
    if half_dq <= 0 {
        return Err(SolverError::SpacingNotPositive);
    }
    let dq: i128 = 2 * (half_dq as i128);
    let mut q: i128 = q_min as i128;
    let mut points: Vec<i64> = Vec::new();
    let mut k: usize = 0;
    while k < n
        invariant
            n >= 5,
            half_dq > 0,
            dq == 2 * half_dq,
            k <= n,
            q == grid_point(q_min as int, 2 * half_dq, k as int),
            i64::MIN <= q <= i64::MAX + dq,
            points@.len() == k,
            forall|m: int|
                0 <= m < k ==> #[trigger] points@[m] as int == grid_point(
                    q_min as int,
                    2 * half_dq,
                    m,
                ),
        decreases n - k,
    {
        if q > i64::MAX as i128 {
            let last = n - 1;
            assert(last * dq >= k * dq) by (nonlinear_arith)
                requires
                    last >= k,
                    dq > 0,
            ;
            return Err(SolverError::Overflow);
        }
        proof {
            lemma_grid_step(q_min as int, 2 * half_dq, k as int, 1);
        }
        points.push(q as i64);
        q = q + dq;
        k += 1;
    }
    assert(points@[n - 1] as int == grid_point(q_min as int, 2 * half_dq, n - 1));
    let grid = IntVector::from_vec(points);
    assert(grid.values() =~= Seq::new(n as nat, |k: int| grid_point(q_min as int, 2 * half_dq, k)));
    Ok(grid)
}

/// What a run of the full solver is started with.
pub struct RunSetup {
    /// The momentum grid.
    pub qs: IntVector,
    /// The matrix of the first derivative on the grid, over `12 * h`.
    pub j_df: IntMatrix,
    /// The matrix of the second derivative on the grid, over `12 * h * h`.
    pub j_d2f: IntMatrix,
    /// The initial state: the equilibrium distribution at the first time.
    pub initial: IntVector,
    /// The tolerances for the integrator.
    pub tolerances: Tolerances,
}

/// Whether the setup is the one of the grid of `n` points from `q_min` on,
/// `2 * half_dq` apart: the grid itself, the two derivative matrices on it,
/// and the tolerances of the full solver.
pub open spec fn is_setup_of(setup: RunSetup, q_min: int, half_dq: int, n: nat) -> bool {
    &&& setup.qs.values() == Seq::new(n, |k: int| grid_point(q_min, 2 * half_dq, k))
    &&& setup.j_df.values() == operator_rows(DerivOrder::First, n)
    &&& setup.j_d2f.values() == operator_rows(DerivOrder::Second, n)
    &&& setup.initial@.len() == n
    &&& setup.tolerances.relative_exponent == -6
    &&& setup.tolerances.absolute_exponent == -100
}

/// Everything that is fixed before the integrator takes its first step: the
/// grid, the two derivative matrices, the initial state `feq(x_min, q_k)` and
/// the tolerances.
///
/// Fails with `GridTooSmall` on fewer than five points, then with
/// `SpacingNotPositive` unless `half_dq` is positive, then with
/// `GridTooLarge` where the dense matrices cannot be addressed, then with
/// `Overflow` where the last grid point does not fit in an `i64`.
pub fn prepare_full_boltzmann<F: Fn(i64, i64) -> i64>(
    feq: &F,
    n: usize,
    q_min: i64,
    half_dq: i64,
    x_min: i64,
) -> (r: Result<RunSetup, SolverError>)
    requires
        forall|q: i64| call_requires(feq, (x_min, q)),
    ensures
        n < 5 ==> r == Err::<RunSetup, SolverError>(SolverError::GridTooSmall),
        n >= 5 && half_dq <= 0 ==> r == Err::<RunSetup, SolverError>(
            SolverError::SpacingNotPositive,
        ),
        n >= 5 && half_dq > 0 && !square_fits(n as int) ==> r == Err::<RunSetup, SolverError>(
            SolverError::GridTooLarge,
        ),
        n >= 5 && half_dq > 0 && square_fits(n as int) && !fits_i64(
            grid_point(q_min as int, 2 * half_dq, n - 1),
        ) ==> r == Err::<RunSetup, SolverError>(SolverError::Overflow),
        n >= 5 && half_dq > 0 && square_fits(n as int) && fits_i64(
            grid_point(q_min as int, 2 * half_dq, n - 1),
        ) ==> r is Ok && is_setup_of(
            r->Ok_0,
            q_min as int,
            half_dq as int,
            n as nat,
        ) && forall|k: int|
            0 <= k < n ==> call_ensures(
                feq,
                (x_min, r->Ok_0.qs@[k]),
                #[trigger] r->Ok_0.initial@[k],
            ),
{
    if n < MIN_GRID_POINTS {
        return Err(SolverError::GridTooSmall);
    }
    if half_dq <= 0 {
        return Err(SolverError::SpacingNotPositive);
    }
    let j_df = match jac_first_deriv_vec(n) {
        Ok(m) => m,
        Err(e) => {
            return Err(e);
        },
    };
    let j_d2f = match jac_second_deriv_vec(n) {
        Ok(m) => m,
        Err(e) => {
            return Err(e);
        },
    };
    let qs = match uniform_grid(q_min, half_dq, n) {
        Ok(g) => g,
        Err(e) => {
            return Err(e);
        },
    };
    assert(qs.values().len() == n);
    let initial = equilibrium(feq, x_min, &qs);
    Ok(RunSetup { qs, j_df, j_d2f, initial, tolerances: full_solver_tolerances() })
}

/// Everything that one evaluation reads besides the state: the equilibrium
/// distribution, the grid, the kernel between every pair of grid points, and
/// the scalars and per-point coefficients of the current time.
pub struct StepInputs {
    /// The equilibrium distribution at every grid point.
    pub feq: IntVector,
    /// The grid momenta.
    pub qs: IntVector,
    /// Row `i` holds the annihilation kernel between `q_i` and every `q_k`.
    pub sigma: IntMatrix,
    /// Half the grid spacing.
    pub half_dq: i64,
    /// The prefactor of the collision term.
    pub pre: i64,
    /// The coefficients of the elastic and expansion terms at every grid point.
    pub terms: Vec<DriftTerms>,
}

impl StepInputs {
    /// Whether every part is laid out for a grid of `n` points.
    pub open spec fn matches_grid(&self, n: int) -> bool {
        &&& self.feq@.len() == n
        &&& self.qs@.len() == n
        &&& self.sigma.is_square(n)
        &&& self.terms@.len() == n
    }
}

/// Entry `i` of the right-hand side for the state `f`.
pub open spec fn rhs_entry(f: Seq<int>, inputs: StepInputs, i: int) -> int {
    rhs_at(
        i,
        f,
        inputs.feq.values(),
        inputs.qs.values(),
        inputs.sigma.values()[i],
        inputs.half_dq as int,
        first_deriv_at(f, i),
        second_deriv_at(f, i),
        inputs.pre as int,
        inputs.terms@[i],
    )
}

/// The right-hand side for the state `f` at every grid point.
pub open spec fn rhs_seq(f: Seq<int>, inputs: StepInputs) -> Seq<int> {
    Seq::new(f.len(), |i: int| rhs_entry(f, inputs, i))
}

/// Whether the right-hand side can be computed: both derivatives of the state
/// and every entry of the result fit in an `i64`, and every entry can be
/// computed in `i128`.
pub open spec fn rhs_computable(f: Seq<int>, inputs: StepInputs) -> bool {
    &&& all_fit_i64(first_deriv_seq(f))
    &&& all_fit_i64(second_deriv_seq(f))
    &&& forall|i: int|
        0 <= i < f.len() ==> #[trigger] rhs_fits(
            i,
            f,
            inputs.feq.values(),
            inputs.qs.values(),
            inputs.sigma.values()[i],
            inputs.half_dq as int,
            first_deriv_at(f, i),
            second_deriv_at(f, i),
            inputs.pre as int,
            inputs.terms@[i],
        )
    &&& all_fit_i64(rhs_seq(f, inputs))
}

/// The time derivative of the whole state: entry `i` is [`compute_dfi`] at
/// index `i`, with the derivatives of the state taken by the five-point
/// stencils.
///
/// Fails with `GridTooSmall` on fewer than five grid points, and with
/// `Overflow` exactly where [`rhs_computable`] does not hold.
pub fn transport_rhs(f: &IntVector, inputs: &StepInputs) -> (r: Result<IntVector, SolverError>)
    requires
        inputs.matches_grid(f@.len() as int),
    ensures
        f@.len() < 5 ==> r == Err::<IntVector, SolverError>(SolverError::GridTooSmall),
        f@.len() >= 5 && !rhs_computable(f.values(), *inputs) ==> r == Err::<
            IntVector,
            SolverError,
        >(SolverError::Overflow),
        f@.len() >= 5 && rhs_computable(f.values(), *inputs) ==> r is Ok && r->Ok_0.values()
            == rhs_seq(f.values(), *inputs),
{
    let n = f.len();
    if n < MIN_GRID_POINTS {
        return Err(SolverError::GridTooSmall);
    }
    let df = match first_deriv_vec(f) {
        Ok(d) => d,
        Err(_) => {
            return Err(SolverError::Overflow);
        },
    };
    let d2f = match second_deriv_vec(f) {
        Ok(d) => d,
        Err(_) => {
            return Err(SolverError::Overflow);
        },
    };
    assert(df.values().len() == n && d2f.values().len() == n);
    let mut out: Vec<i64> = Vec::new();
    let mut i: usize = 0;
    while i < n
        invariant
            n == f@.len(),
            n >= 5,
            inputs.matches_grid(n as int),
            df@.len() == n,
            d2f@.len() == n,
            df.values() == first_deriv_seq(f.values()),
            d2f.values() == second_deriv_seq(f.values()),
            all_fit_i64(first_deriv_seq(f.values())),
            all_fit_i64(second_deriv_seq(f.values())),
            i <= n,
            out@.len() == i,
            forall|k: int|
                0 <= k < i ==> #[trigger] rhs_fits(
                    k,
                    f.values(),
                    inputs.feq.values(),
                    inputs.qs.values(),
                    inputs.sigma.values()[k],
                    inputs.half_dq as int,
                    first_deriv_at(f.values(), k),
                    second_deriv_at(f.values(), k),
                    inputs.pre as int,
                    inputs.terms@[k],
                ),
            forall|k: int|
                0 <= k < i ==> #[trigger] out@[k] as int == rhs_entry(f.values(), *inputs, k),
        decreases n - i,
    {
        let row = inputs.sigma.row(i);
        let dfi = df.at(i);
        let d2fi = d2f.at(i);
        assert(dfi as int == first_deriv_seq(f.values())[i as int]);
        assert(d2fi as int == second_deriv_seq(f.values())[i as int]);
        let value = match compute_dfi(
            i,
            n,
            f,
            &inputs.feq,
            &inputs.qs,
            &row,
            inputs.half_dq,
            dfi,
            d2fi,
            inputs.pre,
            &inputs.terms[i],
        ) {
            Ok(x) => x,
            Err(_) => {
                assert(!rhs_fits(
                    i as int,
                    f.values(),
                    inputs.feq.values(),
                    inputs.qs.values(),
                    inputs.sigma.values()[i as int],
                    inputs.half_dq as int,
                    first_deriv_at(f.values(), i as int),
                    second_deriv_at(f.values(), i as int),
                    inputs.pre as int,
                    inputs.terms@[i as int],
                ));
                return Err(SolverError::Overflow);
            },
        };
        assert(value == rhs_entry(f.values(), *inputs, i as int));
        if value < i64::MIN as i128 || value > i64::MAX as i128 {
            assert(!fits_i64(rhs_seq(f.values(), *inputs)[i as int]));
            return Err(SolverError::Overflow);
        }
        out.push(value as i64);
        i += 1;
    }
    let d = IntVector::from_vec(out);
    assert(d.values() =~= rhs_seq(f.values(), *inputs));
    Ok(d)
}

/// Entry `(i, j)` of the Jacobian for the state `f`.
pub open spec fn jacobian_entry(f: Seq<int>, inputs: StepInputs, i: int, j: int) -> int {
    jacobian_at(
        i,
        j,
        f,
        inputs.qs.values(),
        inputs.sigma.values()[i],
        inputs.half_dq as int,
        first_weight(f.len() as int, i, j),
        second_weight(f.len() as int, i, j),
        inputs.pre as int,
        inputs.terms@[i],
    )
}

/// The Jacobian for the state `f`, by rows.
pub open spec fn jacobian_rows(f: Seq<int>, inputs: StepInputs) -> Seq<Seq<int>> {
    Seq::new(f.len(), |i: int| Seq::new(f.len(), |j: int| jacobian_entry(f, inputs, i, j)))
}

/// Whether entry `(i, j)` of the Jacobian can be computed in `i128` and stored
/// in an `i64`.
pub open spec fn jacobian_entry_computable(
    f: Seq<int>,
    inputs: StepInputs,
    i: int,
    j: int,
) -> bool {
    &&& jacobian_fits(
        i,
        j,
        f,
        inputs.qs.values(),
        inputs.sigma.values()[i],
        inputs.half_dq as int,
        first_weight(f.len() as int, i, j),
        second_weight(f.len() as int, i, j),
        inputs.pre as int,
        inputs.terms@[i],
    )
    &&& fits_i64(jacobian_entry(f, inputs, i, j))
}

/// Whether every entry of the Jacobian can be computed.
pub open spec fn jacobian_computable(f: Seq<int>, inputs: StepInputs) -> bool {
    forall|i: int, j: int|
        0 <= i < f.len() && 0 <= j < f.len() ==> #[trigger] jacobian_entry_computable(
            f,
            inputs,
            i,
            j,
        )
}

/// The Jacobian of the right-hand side: entry `(i, j)` is [`compute_j_dfi`]
/// with the entries `(i, j)` of the two derivative matrices.
///
/// `j_df` and `j_d2f` are the matrices of the first and the second derivative
/// on the grid, built once for the run. Fails with `GridTooSmall` on fewer
/// than five grid points, with `GridTooLarge` where the dense result cannot be
/// addressed, and with `Overflow` exactly where [`jacobian_computable`] does
/// not hold.
pub fn transport_jacobian(
    f: &IntVector,
    inputs: &StepInputs,
    j_df: &IntMatrix,
    j_d2f: &IntMatrix,
) -> (r: Result<IntMatrix, SolverError>)
    requires
        inputs.matches_grid(f@.len() as int),
        j_df.values() == operator_rows(DerivOrder::First, f@.len()),
        j_d2f.values() == operator_rows(DerivOrder::Second, f@.len()),
    ensures
        f@.len() < 5 ==> r == Err::<IntMatrix, SolverError>(SolverError::GridTooSmall),
        f@.len() >= 5 && !square_fits(f@.len() as int) ==> r == Err::<IntMatrix, SolverError>(
            SolverError::GridTooLarge,
        ),
        f@.len() >= 5 && square_fits(f@.len() as int) && !jacobian_computable(
            f.values(),
            *inputs,
        ) ==> r == Err::<IntMatrix, SolverError>(SolverError::Overflow),
        f@.len() >= 5 && square_fits(f@.len() as int) && jacobian_computable(f.values(), *inputs)
            ==> r is Ok && r->Ok_0.values() == jacobian_rows(f.values(), *inputs),
{
    let n = f.len();
    if n < MIN_GRID_POINTS {
        return Err(SolverError::GridTooSmall);
    }
    let mut m = match IntMatrix::zeros(n) {
        Some(z) => z,
        None => {
            return Err(SolverError::GridTooLarge);
        },
    };
    proof {
        let first = operator_rows(DerivOrder::First, n as nat);
        let second = operator_rows(DerivOrder::Second, n as nat);
        assert(j_df.values().len() == j_df@.len());
        assert(j_d2f.values().len() == j_d2f@.len());
        assert forall|r: int| 0 <= r < n implies (#[trigger] j_df@[r]).len() == n by {
            assert(j_df.values()[r].len() == j_df@[r].len());
            assert(first[r].len() == n);
        }
        assert forall|r: int| 0 <= r < n implies (#[trigger] j_d2f@[r]).len() == n by {
            assert(j_d2f.values()[r].len() == j_d2f@[r].len());
            assert(second[r].len() == n);
        }
    }
    let mut i: usize = 0;
    while i < n
        invariant
            n == f@.len(),
            n >= 5,
            square_fits(n as int),
            inputs.matches_grid(n as int),
            j_df.is_square(n as int),
            j_d2f.is_square(n as int),
            j_df.values() == operator_rows(DerivOrder::First, n as nat),
            j_d2f.values() == operator_rows(DerivOrder::Second, n as nat),
            i <= n,
            m.is_square(n as int),
            forall|r: int, c: int|
                0 <= r < i && 0 <= c < n ==> #[trigger] jacobian_entry_computable(
                    f.values(),
                    *inputs,
                    r,
                    c,
                ),
            forall|r: int, c: int|
                0 <= r < i && 0 <= c < n ==> #[trigger] m.entry(r, c) == jacobian_entry(
                    f.values(),
                    *inputs,
                    r,
                    c,
                ),
        decreases n - i,
    {
        let row = inputs.sigma.row(i);
        let mut j: usize = 0;
        while j < n
            invariant
                n == f@.len(),
                n >= 5,
                square_fits(n as int),
                inputs.matches_grid(n as int),
                j_df.is_square(n as int),
                j_d2f.is_square(n as int),
                j_df.values() == operator_rows(DerivOrder::First, n as nat),
                j_d2f.values() == operator_rows(DerivOrder::Second, n as nat),
                i < n,
                j <= n,
                row@.len() == n,
                row.values() == inputs.sigma.values()[i as int],
                m.is_square(n as int),
                forall|r: int, c: int|
                    0 <= r < i && 0 <= c < n ==> #[trigger] jacobian_entry_computable(
                        f.values(),
                        *inputs,
                        r,
                        c,
                    ),
                forall|r: int, c: int|
                    0 <= r < i && 0 <= c < n ==> #[trigger] m.entry(r, c) == jacobian_entry(
                        f.values(),
                        *inputs,
                        r,
                        c,
                    ),
                forall|c: int|
                    0 <= c < j ==> #[trigger] jacobian_entry_computable(
                        f.values(),
                        *inputs,
                        i as int,
                        c,
                    ),
                forall|c: int|
                    0 <= c < j ==> #[trigger] m.entry(i as int, c) == jacobian_entry(
                        f.values(),
                        *inputs,
                        i as int,
                        c,
                    ),
            decreases n - j,
        {
            let w1 = j_df.at(i, j);
            let w2 = j_d2f.at(i, j);
            assert(w1 as int == j_df.values()[i as int][j as int]);
            assert(w2 as int == j_d2f.values()[i as int][j as int]);
            let value = match compute_j_dfi(
                i,
                j,
                n,
                f,
                &inputs.qs,
                &row,
                inputs.half_dq,
                w1,
                w2,
                inputs.pre,
                &inputs.terms[i],
            ) {
                Ok(x) => x,
                Err(_) => {
                    assert(!jacobian_entry_computable(f.values(), *inputs, i as int, j as int));
                    return Err(SolverError::Overflow);
                },
            };
            assert(value == jacobian_entry(f.values(), *inputs, i as int, j as int));
            if value < i64::MIN as i128 || value > i64::MAX as i128 {
                assert(!jacobian_entry_computable(f.values(), *inputs, i as int, j as int));
                return Err(SolverError::Overflow);
            }
            m.put(i, j, value as i64);
            j += 1;
        }
        i += 1;
    }
    proof {
        let rows = jacobian_rows(f.values(), *inputs);
        assert forall|r: int| 0 <= r < n implies #[trigger] m.values()[r] == rows[r] by {
            assert forall|c: int| 0 <= c < n implies m.values()[r][c] == rows[r][c] by {
                assert(m.entry(r, c) == jacobian_entry(f.values(), *inputs, r, c));
            }
            assert(m.values()[r] =~= rows[r]);
        }
        assert(m.values() =~= rows);
    }
    Ok(m)
}

/// Evaluations repeat: two results of [`transport_rhs`] for the same state
/// and the same inputs are the same error or hold the same entries.
pub proof fn lemma_rhs_repeats(
    f: IntVector,
    inputs: StepInputs,
    a: Result<IntVector, SolverError>,
    b: Result<IntVector, SolverError>,
)
    requires
        f@.len() < 5 ==> a == Err::<IntVector, SolverError>(SolverError::GridTooSmall) && b
            == Err::<IntVector, SolverError>(SolverError::GridTooSmall),
        f@.len() >= 5 && !rhs_computable(f.values(), inputs) ==> a == Err::<IntVector, SolverError>(
            SolverError::Overflow,
        ) && b == Err::<IntVector, SolverError>(SolverError::Overflow),
        f@.len() >= 5 && rhs_computable(f.values(), inputs) ==> a is Ok && a->Ok_0.values()
            == rhs_seq(f.values(), inputs) && b is Ok && b->Ok_0.values() == rhs_seq(
            f.values(),
            inputs,
        ),
    ensures
        a is Ok <==> b is Ok,
        a is Ok ==> a->Ok_0.values() == b->Ok_0.values(),
        a is Err ==> a->Err_0 == b->Err_0,
{
}

/// Evaluations repeat: two results of [`transport_jacobian`] for the same
/// state and the same inputs are the same error or hold the same entries.
pub proof fn lemma_jacobian_repeats(
    f: IntVector,
    inputs: StepInputs,
    a: Result<IntMatrix, SolverError>,
    b: Result<IntMatrix, SolverError>,
)
    requires
        f@.len() < 5 ==> a == Err::<IntMatrix, SolverError>(SolverError::GridTooSmall) && b
            == Err::<IntMatrix, SolverError>(SolverError::GridTooSmall),
        f@.len() >= 5 && !square_fits(f@.len() as int) ==> a == Err::<IntMatrix, SolverError>(
            SolverError::GridTooLarge,
        ) && b == Err::<IntMatrix, SolverError>(SolverError::GridTooLarge),
        f@.len() >= 5 && square_fits(f@.len() as int) && !jacobian_computable(f.values(), inputs)
            ==> a == Err::<IntMatrix, SolverError>(SolverError::Overflow) && b == Err::<
            IntMatrix,
            SolverError,
        >(SolverError::Overflow),
        f@.len() >= 5 && square_fits(f@.len() as int) && jacobian_computable(f.values(), inputs)
            ==> a is Ok && a->Ok_0.values() == jacobian_rows(f.values(), inputs) && b is Ok
            && b->Ok_0.values() == jacobian_rows(f.values(), inputs),
    ensures
        a is Ok <==> b is Ok,
        a is Ok ==> a->Ok_0.values() == b->Ok_0.values(),
        a is Err ==> a->Err_0 == b->Err_0,
{
}

} // verus!
