//! What a particle-physics model supplies to the solver on the grid.
//!
//! A model enters as two functions: its equilibrium distribution `feq(x, q)`
//! and its angle-averaged annihilation kernel `sigmav(x, q, qt)`. The solver
//! asks for them once per grid point, respectively once per pair of grid
//! points, at each time `x`. Nothing is assumed of the functions but that they
//! can be called on the grid; what is stated of the tables is that each entry
//! is what the function returned for that entry's arguments.

use vstd::prelude::*;
use crate::array::{IntMatrix, IntVector, square_fits};
use crate::error::SolverError;

verus! {

/// The equilibrium distribution on the grid at the time `x`: entry `k` is
/// `feq(x, q_k)`. At the first time of a run this is the initial state.
pub fn equilibrium<F: Fn(i64, i64) -> i64>(feq: &F, x: i64, qs: &IntVector) -> (table: IntVector)
    requires
        forall|k: int| 0 <= k < qs@.len() ==> call_requires(feq, (x, #[trigger] qs@[k])),
    ensures
        table@.len() == qs@.len(),
        forall|k: int| 0 <= k < qs@.len() ==> call_ensures(feq, (x, qs@[k]), #[trigger] table@[k]),
{
    let n = qs.len();
    let mut out: Vec<i64> = Vec::new();
    let mut k: usize = 0;
    while k < n
        invariant
            n == qs@.len(),
            forall|m: int| 0 <= m < qs@.len() ==> call_requires(feq, (x, #[trigger] qs@[m])),
            k <= n,
            out@.len() == k,
            forall|m: int| 0 <= m < k ==> call_ensures(feq, (x, qs@[m]), #[trigger] out@[m]),
        decreases n - k,
    {
        let q = qs.at(k);
        out.push(feq(x, q));
        k += 1;
    }
    IntVector::from_vec(out)
}

/// The annihilation kernel between every pair of grid points at the time `x`:
/// entry `(i, k)` is `sigmav(x, q_i, q_k)`.
///
/// Fails with `GridTooLarge` where the dense table cannot be addressed.
pub fn kernel_matrix<F: Fn(i64, i64, i64) -> i64>(sigmav: &F, x: i64, qs: &IntVector) -> (r: Result<
    IntMatrix,
    SolverError,
>)
    requires
        forall|i: int, k: int|
            0 <= i < qs@.len() && 0 <= k < qs@.len() ==> call_requires(
                sigmav,
                (x, #[trigger] qs@[i], #[trigger] qs@[k]),
            ),
    ensures
        !square_fits(qs@.len() as int) ==> r == Err::<IntMatrix, SolverError>(
            SolverError::GridTooLarge,
        ),
        square_fits(qs@.len() as int) ==> r is Ok && r->Ok_0.is_square(qs@.len() as int)
            && forall|i: int, k: int|
            0 <= i < qs@.len() && 0 <= k < qs@.len() ==> call_ensures(
                sigmav,
                (x, qs@[i], qs@[k]),
                #[trigger] r->Ok_0@[i][k],
            ),
{
    let n = qs.len();
    let mut m = match IntMatrix::zeros(n) {
        Some(z) => z,
        None => {
            return Err(SolverError::GridTooLarge);
        },
    };
    let mut i: usize = 0;
    while i < n
        invariant
            n == qs@.len(),
            forall|a: int, b: int|
                0 <= a < qs@.len() && 0 <= b < qs@.len() ==> call_requires(
                    sigmav,
                    (x, #[trigger] qs@[a], #[trigger] qs@[b]),
                ),
            i <= n,
            m.is_square(n as int),
            forall|a: int, b: int|
                0 <= a < i && 0 <= b < n ==> call_ensures(
                    sigmav,
                    (x, qs@[a], qs@[b]),
                    #[trigger] m@[a][b],
                ),
        decreases n - i,
    {
        let qi = qs.at(i);
        let mut k: usize = 0;
        while k < n
            invariant
                n == qs@.len(),
                forall|a: int, b: int|
                    0 <= a < qs@.len() && 0 <= b < qs@.len() ==> call_requires(
                        sigmav,
                        (x, #[trigger] qs@[a], #[trigger] qs@[b]),
                    ),
                i < n,
                qi == qs@[i as int],
                k <= n,
                m.is_square(n as int),
                forall|a: int, b: int|
                    0 <= a < i && 0 <= b < n ==> call_ensures(
                        sigmav,
                        (x, qs@[a], qs@[b]),
                        #[trigger] m@[a][b],
                    ),
                forall|b: int|
                    0 <= b < k ==> call_ensures(
                        sigmav,
                        (x, qs@[i as int], qs@[b]),
                        #[trigger] m@[i as int][b],
                    ),
            decreases n - k,
        {
            let qk = qs.at(k);
            let value = sigmav(x, qi, qk);
            m.put(i, k, value);
            k += 1;
        }
        i += 1;
    }
    Ok(m)
}

} // verus!
