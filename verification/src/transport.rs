//! The right-hand side of the discretized transport equation at one grid
//! index, and its partial derivative with respect to one entry of the state.
//!
//! The collision term is a trapezoid quadrature over the grid of
//! `q_k^2 * sigma_k * (feq_i * feq_k - f_i * f_k)`, where `sigma_k` is the
//! annihilation kernel between the momenta `q_i` and `q_k`. The elastic and the
//! expansion term act on the first and second momentum derivative of the state
//! and are left out at the last grid index, where the state is held flat.
//!
//! All of it is exact integer arithmetic. The quantities that a physical model
//! computes with roots and quotients enter as the integers of [`DriftTerms`].

use vstd::prelude::*;
use crate::array::IntVector;
use crate::error::SolverError;
use crate::quadrature::{
    doubled_trapezoid, doubled_weight, fits_i128, trapezoid_fits, trapezoid_prefix, trapezoid_step,
};

verus! {

/// The coefficients of the elastic and the expansion term at one grid point
/// `q` and one time `x`.
#[derive(Clone, Copy, Debug)]
pub struct DriftTerms {
    /// The momentum-exchange rate over the Hubble rate, over `2 * x`.
    pub rate: i64,
    /// The energy over the temperature, `sqrt(x^2 + q^2)`.
    pub xq: i64,
    /// The coefficient of the first derivative inside the elastic term,
    /// `q + 2 * xq / q + q / xq`.
    pub mix: i64,
    /// The coefficient of the first derivative in the expansion term,
    /// `g * q / x` with `g` the correction from the changing degrees of freedom.
    pub drag: i64,
}

/// The entries of a vector of wide integers as mathematical integers.
pub open spec fn wide(s: Seq<i128>) -> Seq<int> {
    Seq::new(s.len(), |k: int| s[k] as int)
}

/// The kernel of the quadrature at sample `k`: `q_k^2 * sigma_k`.
pub open spec fn kernel(qs: Seq<int>, sigma: Seq<int>, k: int) -> int {
    qs[k] * qs[k] * sigma[k]
}

/// The kernel times a factor, at every sample.
pub open spec fn kernel_terms(qs: Seq<int>, sigma: Seq<int>, factors: Seq<int>) -> Seq<int> {
    Seq::new(qs.len(), |k: int| kernel(qs, sigma, k) * factors[k])
}

/// Whether the quadrature of the kernel against the factors can be computed in
/// `i128`: every kernel value, every product with its factor, every weighted
/// product and every partial sum in index order can be stored.
pub open spec fn kernel_fits(qs: Seq<int>, sigma: Seq<int>, factors: Seq<int>) -> bool {
    &&& forall|k: int| 0 <= k < qs.len() ==> fits_i128(#[trigger] kernel(qs, sigma, k))
    &&& forall|k: int|
        0 <= k < qs.len() ==> fits_i128(#[trigger] kernel_terms(qs, sigma, factors)[k])
    &&& trapezoid_fits(kernel_terms(qs, sigma, factors))
}

/// The gain minus the loss of the pair of momenta `i` and `k`:
/// `feq_i * feq_k - f_i * f_k`.
pub open spec fn balance(f: Seq<int>, feq: Seq<int>, i: int, k: int) -> int {
    feq[i] * feq[k] - f[i] * f[k]
}

/// The balance of index `i` against every sample.
pub open spec fn balances(f: Seq<int>, feq: Seq<int>, i: int) -> Seq<int> {
    Seq::new(f.len(), |k: int| balance(f, feq, i, k))
}

/// The partial derivative of `f_i * f_k` with respect to `f_j`: `f_k` where
/// `j` is `i`, plus `f_i` where `j` is `k`.
pub open spec fn response(f: Seq<int>, i: int, j: int, k: int) -> int {
    (if i == j {
        f[k]
    } else {
        0
    }) + (if j == k {
        f[i]
    } else {
        0
    })
}

/// Whether index `i` of `n` carries the elastic and the expansion term: every
/// index but the last.
pub open spec fn has_drift(i: int, n: int) -> bool {
    i != n - 1
}

/// The response of index `i` to entry `j` against every sample.
pub open spec fn responses(f: Seq<int>, i: int, j: int) -> Seq<int> {
    Seq::new(f.len(), |k: int| response(f, i, j, k))
}

/// The doubled quadrature of the collision integrand at index `i`.
pub open spec fn collision(
    f: Seq<int>,
    feq: Seq<int>,
    qs: Seq<int>,
    sigma: Seq<int>,
    i: int,
) -> int {
    doubled_trapezoid(kernel_terms(qs, sigma, balances(f, feq, i)))
}

/// The doubled quadrature of the collision integrand's derivative with respect
/// to entry `j`, without its sign.
pub open spec fn collision_response(
    f: Seq<int>,
    qs: Seq<int>,
    sigma: Seq<int>,
    i: int,
    j: int,
) -> int {
    doubled_trapezoid(kernel_terms(qs, sigma, responses(f, i, j)))
}

/// The elastic term and the expansion term:
/// `rate * (xq * d2 + mix * d1 + 3 * value) + drag * d1`.
pub open spec fn drift(terms: DriftTerms, value: int, d1: int, d2: int) -> int {
    terms.rate * (terms.xq * d2 + terms.mix * d1 + 3 * value) + terms.drag * d1
}

/// Whether the elastic and the expansion term can be computed in `i128`, adding
/// from the left.
pub open spec fn drift_fits(terms: DriftTerms, value: int, d1: int, d2: int) -> bool {
    &&& fits_i128(terms.xq * d2 + terms.mix * d1)
    &&& fits_i128(terms.xq * d2 + terms.mix * d1 + 3 * value)
    &&& fits_i128(terms.rate * (terms.xq * d2 + terms.mix * d1 + 3 * value))
    &&& fits_i128(drift(terms, value, d1, d2))
}

/// The scaled quadrature, plus the drift where there is one.
pub open spec fn combine(scaled: int, with_drift: bool, drifted: int) -> int {
    if with_drift {
        scaled + drifted
    } else {
        scaled
    }
}

/// The time derivative of `f_i`: the collision quadrature times
/// `pre * half_dq`, plus the elastic and the expansion term at every index but
/// the last.
pub open spec fn rhs_at(
    i: int,
    f: Seq<int>,
    feq: Seq<int>,
    qs: Seq<int>,
    sigma: Seq<int>,
    half_dq: int,
    dfi: int,
    d2fi: int,
    pre: int,
    terms: DriftTerms,
) -> int {
    combine(
        pre * half_dq * collision(f, feq, qs, sigma, i),
        has_drift(i, f.len() as int),
        drift(terms, f[i], dfi, d2fi),
    )
}

/// Whether [`rhs_at`] can be computed in `i128`.
pub open spec fn rhs_fits(
    i: int,
    f: Seq<int>,
    feq: Seq<int>,
    qs: Seq<int>,
    sigma: Seq<int>,
    half_dq: int,
    dfi: int,
    d2fi: int,
    pre: int,
    terms: DriftTerms,
) -> bool {
    &&& kernel_fits(qs, sigma, balances(f, feq, i))
    &&& fits_i128(pre * half_dq * collision(f, feq, qs, sigma, i))
    &&& has_drift(i, f.len() as int) ==> drift_fits(terms, f[i], dfi, d2fi) && fits_i128(
        rhs_at(i, f, feq, qs, sigma, half_dq, dfi, d2fi, pre, terms),
    )
}

/// Entry `(i, j)` of the Jacobian: the derivative of [`rhs_at`] with respect to
/// `f_j`, with the entries `j_df` and `j_d2f` of the derivative matrices in
/// place of the derivatives of the state.
pub open spec fn jacobian_at(
    i: int,
    j: int,
    f: Seq<int>,
    qs: Seq<int>,
    sigma: Seq<int>,
    half_dq: int,
    j_df: int,
    j_d2f: int,
    pre: int,
    terms: DriftTerms,
) -> int {
    combine(
        -(pre * half_dq * collision_response(f, qs, sigma, i, j)),
        has_drift(i, f.len() as int),
        drift(
            terms,
            if i == j {
                1
            } else {
                0
            },
            j_df,
            j_d2f,
        ),
    )
}

/// Whether [`jacobian_at`] can be computed in `i128`.
pub open spec fn jacobian_fits(
    i: int,
    j: int,
    f: Seq<int>,
    qs: Seq<int>,
    sigma: Seq<int>,
    half_dq: int,
    j_df: int,
    j_d2f: int,
    pre: int,
    terms: DriftTerms,
) -> bool {
    &&& kernel_fits(qs, sigma, responses(f, i, j))
    &&& fits_i128(pre * half_dq * collision_response(f, qs, sigma, i, j))
    &&& fits_i128(-(pre * half_dq * collision_response(f, qs, sigma, i, j)))
    &&& has_drift(i, f.len() as int) ==> drift_fits(
        terms,
        if i == j {
            1
        } else {
            0
        },
        j_df,
        j_d2f,
    ) && fits_i128(jacobian_at(i, j, f, qs, sigma, half_dq, j_df, j_d2f, pre, terms))
}

/// The product of two 64-bit integers stays inside `i128` with room to add or
/// subtract another.
pub proof fn lemma_product_bound(a: int, b: int)
    by (nonlinear_arith)
    requires
        i64::MIN <= a <= i64::MAX,
        i64::MIN <= b <= i64::MAX,
    ensures
        -0x3fff_ffff_ffff_ffff_8000_0000_0000_0000 <= a * b,
        a * b <= 0x4000_0000_0000_0000_0000_0000_0000_0000,
{
}

/// Whether index `i` of `n` carries the elastic and the expansion term.
pub fn drifts_at(i: usize, n: usize) -> (r: bool)
    requires
        i < n,
    ensures
        r == has_drift(i as int, n as int),
{
    i != n - 1
}

/// How often `f_k` and how often `f_i` occur in the derivative of `f_i * f_k`
/// with respect to `f_j`: once each where `j` is `i`, respectively `k`.
pub fn response_pattern(i: usize, j: usize, k: usize) -> (r: (i64, i64))
    ensures
        r.0 == (if i == j {
            1int
        } else {
            0int
        }),
        r.1 == (if j == k {
            1int
        } else {
            0int
        }),
{
    (
        if i == j {
            1
        } else {
            0
        },
        if j == k {
            1
        } else {
            0
        },
    )
}

/// The doubled trapezoid quadrature of the kernel against the factors, or
/// `None` where it cannot be computed in `i128`.
fn kernel_quadrature(qs: &IntVector, sigma: &IntVector, factors: &Vec<i128>) -> (r: Option<i128>)
    requires
        sigma@.len() == qs@.len(),
        factors@.len() == qs@.len(),
    ensures
        r == if kernel_fits(qs.values(), sigma.values(), wide(factors@)) {
            Some(
                doubled_trapezoid(kernel_terms(qs.values(), sigma.values(), wide(factors@))) as i128,
            )
        } else {
            None
        },
{
    let n = qs.len();
    let ghost terms = kernel_terms(qs.values(), sigma.values(), wide(factors@));
    let mut acc: i128 = 0;
    let mut k: usize = 0;
    while k < n
        invariant
            n == qs@.len(),
            sigma@.len() == n,
            factors@.len() == n,
            terms == kernel_terms(qs.values(), sigma.values(), wide(factors@)),
            k <= n,
            acc == trapezoid_prefix(terms, k as int),
            forall|j: int|
                0 <= j < k ==> fits_i128(#[trigger] kernel(qs.values(), sigma.values(), j)),
            forall|j: int| 0 <= j < k ==> fits_i128(#[trigger] terms[j]),
            forall|j: int|
                0 <= j < k ==> fits_i128(#[trigger] (doubled_weight(j, n as int) * terms[j])),
            forall|m: int| 0 <= m <= k ==> fits_i128(#[trigger] trapezoid_prefix(terms, m)),
        decreases n - k,
    {
        let q = qs.at(k);
        let s = sigma.at(k);
        proof {
            lemma_product_bound(q as int, q as int);
        }
        let q2 = (q as i128) * (q as i128);
        let ker = match q2.checked_mul(s as i128) {
            Some(x) => x,
            None => {
                assert(!fits_i128(kernel(qs.values(), sigma.values(), k as int)));
                return None;
            },
        };
        assert(ker == kernel(qs.values(), sigma.values(), k as int));
        let term = match ker.checked_mul(factors[k]) {
            Some(x) => x,
            None => {
                assert(!fits_i128(terms[k as int]));
                return None;
            },
        };
        assert(term == terms[k as int]);
        match trapezoid_step(acc, k, n, term) {
            Some(next) => {
                acc = next;
            },
            None => {
                assert(!fits_i128(doubled_weight(k as int, n as int) * terms[k as int])
                    || !fits_i128(trapezoid_prefix(terms, k + 1)));
                return None;
            },
        }
        k += 1;
    }
    Some(acc)
}

/// The elastic and the expansion term, or `None` where they cannot be computed
/// in `i128`.
fn drift_value(terms: &DriftTerms, value: i64, d1: i64, d2: i64) -> (r: Option<i128>)
    ensures
        r == if drift_fits(*terms, value as int, d1 as int, d2 as int) {
            Some(drift(*terms, value as int, d1 as int, d2 as int) as i128)
        } else {
            None
        },
{
    proof {
        lemma_product_bound(terms.xq as int, d2 as int);
        lemma_product_bound(terms.mix as int, d1 as int);
        lemma_product_bound(terms.drag as int, d1 as int);
    }
    let elastic2 = (terms.xq as i128) * (d2 as i128);
    let elastic1 = (terms.mix as i128) * (d1 as i128);
    let inner = match elastic2.checked_add(elastic1) {
        Some(x) => x,
        None => {
            return None;
        },
    };
    let inner = match inner.checked_add(3 * (value as i128)) {
        Some(x) => x,
        None => {
            return None;
        },
    };
    let elastic = match (terms.rate as i128).checked_mul(inner) {
        Some(x) => x,
        None => {
            return None;
        },
    };
    elastic.checked_add((terms.drag as i128) * (d1 as i128))
}

/// The time derivative of `f_i` under the discretized transport equation.
///
/// `sigma` holds the annihilation kernel between `q_i` and every `q_k`, `dfi`
/// and `d2fi` the first and second derivative of the state at index `i`,
/// `half_dq` half the grid spacing and `pre` the prefactor of the collision
/// term. The result is
/// `pre * half_dq * sum_k w_k q_k^2 sigma_k (feq_i feq_k - f_i f_k)` with the
/// doubled trapezoid weights `w_k`, plus, at every index but the last,
/// `rate * (xq * d2fi + mix * dfi + 3 * f_i) + drag * dfi`.
///
/// Fails with `Overflow` exactly where a value named in [`rhs_fits`] leaves
/// `i128`.
pub fn compute_dfi(
    i: usize,
    n: usize,
    f: &IntVector,
    feq: &IntVector,
    qs: &IntVector,
    sigma: &IntVector,
    half_dq: i64,
    dfi: i64,
    d2fi: i64,
    pre: i64,
    terms: &DriftTerms,
) -> (r: Result<i128, SolverError>)
    requires
        i < n,
        f@.len() == n,
        feq@.len() == n,
        qs@.len() == n,
        sigma@.len() == n,
    ensures
        r == if rhs_fits(
            i as int,
            f.values(),
            feq.values(),
            qs.values(),
            sigma.values(),
            half_dq as int,
            dfi as int,
            d2fi as int,
            pre as int,
            *terms,
        ) {
            Ok::<i128, SolverError>(
                rhs_at(
                    i as int,
                    f.values(),
                    feq.values(),
                    qs.values(),
                    sigma.values(),
                    half_dq as int,
                    dfi as int,
                    d2fi as int,
                    pre as int,
                    *terms,
                ) as i128,
            )
        } else {
            Err::<i128, SolverError>(SolverError::Overflow)
        },
{
    let fi = f.at(i);
    let feqi = feq.at(i);
    let mut factors: Vec<i128> = Vec::new();
    let mut k: usize = 0;
    while k < n
        invariant
            i < n,
            f@.len() == n,
            feq@.len() == n,
            fi == f@[i as int],
            feqi == feq@[i as int],
            k <= n,
            factors@.len() == k,
            forall|j: int|
                0 <= j < k ==> #[trigger] factors@[j] as int == balance(
                    f.values(),
                    feq.values(),
                    i as int,
                    j,
                ),
        decreases n - k,
    {
        let fk = f.at(k);
        let feqk = feq.at(k);
        proof {
            lemma_product_bound(feqi as int, feqk as int);
            lemma_product_bound(fi as int, fk as int);
        }
        factors.push((feqi as i128) * (feqk as i128) - (fi as i128) * (fk as i128));
        k += 1;
    }
    assert(wide(factors@) =~= balances(f.values(), feq.values(), i as int));
    let coll = match kernel_quadrature(qs, sigma, &factors) {
        Some(x) => x,
        None => {
            return Err(SolverError::Overflow);
        },
    };
    proof {
        lemma_product_bound(pre as int, half_dq as int);
    }
    let scale = (pre as i128) * (half_dq as i128);
    let scaled = match scale.checked_mul(coll) {
        Some(x) => x,
        None => {
            return Err(SolverError::Overflow);
        },
    };
    if drifts_at(i, n) {
        let drifted = match drift_value(terms, fi, dfi, d2fi) {
            Some(x) => x,
            None => {
                return Err(SolverError::Overflow);
            },
        };
        match scaled.checked_add(drifted) {
            Some(x) => Ok(x),
            None => Err(SolverError::Overflow),
        }
    } else {
        Ok(scaled)
    }
}

/// Entry `(i, j)` of the Jacobian of the discretized transport equation: the
/// partial derivative of the time derivative of `f_i` with respect to `f_j`.
///
/// `j_df` and `j_d2f` are the entries `(i, j)` of the first- and
/// second-derivative matrices. The result is
/// `-pre * half_dq * sum_k w_k q_k^2 sigma_k (d_ij f_k + d_jk f_i)`, where
/// `d` is 1 on equal indices and 0 elsewhere, plus, at every row but the
/// last, `rate * (xq * j_d2f + mix * j_df + 3 * d_ij) + drag * j_df`.
///
/// Fails with `Overflow` exactly where a value named in [`jacobian_fits`]
/// leaves `i128`.
pub fn compute_j_dfi(
    i: usize,
    j: usize,
    n: usize,
    f: &IntVector,
    qs: &IntVector,
    sigma: &IntVector,
    half_dq: i64,
    j_df: i64,
    j_d2f: i64,
    pre: i64,
    terms: &DriftTerms,
) -> (r: Result<i128, SolverError>)
    requires
        i < n,
        j < n,
        f@.len() == n,
        qs@.len() == n,
        sigma@.len() == n,
    ensures
        r == if jacobian_fits(
            i as int,
            j as int,
            f.values(),
            qs.values(),
            sigma.values(),
            half_dq as int,
            j_df as int,
            j_d2f as int,
            pre as int,
            *terms,
        ) {
            Ok::<i128, SolverError>(
                jacobian_at(
                    i as int,
                    j as int,
                    f.values(),
                    qs.values(),
                    sigma.values(),
                    half_dq as int,
                    j_df as int,
                    j_d2f as int,
                    pre as int,
                    *terms,
                ) as i128,
            )
        } else {
            Err::<i128, SolverError>(SolverError::Overflow)
        },
{
    let fi = f.at(i);
    let mut factors: Vec<i128> = Vec::new();
    let mut k: usize = 0;
    while k < n
        invariant
            i < n,
            j < n,
            f@.len() == n,
            fi == f@[i as int],
            k <= n,
            factors@.len() == k,
            forall|m: int|
                0 <= m < k ==> #[trigger] factors@[m] as int == response(
                    f.values(),
                    i as int,
                    j as int,
                    m,
                ),
        decreases n - k,
    {
        let fk = f.at(k);
        let (own, other) = response_pattern(i, j, k);
        let from_own: i128 = if own == 1 {
            fk as i128
        } else {
            0
        };
        let from_other: i128 = if other == 1 {
            fi as i128
        } else {
            0
        };
        factors.push(from_own + from_other);
        k += 1;
    }
    assert(wide(factors@) =~= responses(f.values(), i as int, j as int));
    let coll = match kernel_quadrature(qs, sigma, &factors) {
        Some(x) => x,
        None => {
            return Err(SolverError::Overflow);
        },
    };
    proof {
        lemma_product_bound(pre as int, half_dq as int);
    }
    let scale = (pre as i128) * (half_dq as i128);
    let scaled = match scale.checked_mul(coll) {
        Some(x) => x,
        None => {
            return Err(SolverError::Overflow);
        },
    };
    let loss = match 0i128.checked_sub(scaled) {
        Some(x) => x,
        None => {
            return Err(SolverError::Overflow);
        },
    };
    if drifts_at(i, n) {
        let (unit, _) = response_pattern(i, j, j);
        let drifted = match drift_value(terms, unit, j_df, j_d2f) {
            Some(x) => x,
            None => {
                return Err(SolverError::Overflow);
            },
        };
        match loss.checked_add(drifted) {
            Some(x) => Ok(x),
            None => Err(SolverError::Overflow),
        }
    } else {
        Ok(loss)
    }
}

/// Detailed balance: where the state equals the equilibrium distribution, the
/// collision quadrature vanishes at every index, whatever the kernel.
pub proof fn lemma_detailed_balance(f: Seq<int>, qs: Seq<int>, sigma: Seq<int>, i: int)
    requires
        qs.len() == f.len(),
    ensures
        collision(f, f, qs, sigma, i) == 0,
{
    let terms = kernel_terms(qs, sigma, balances(f, f, i));
    assert forall|k: int| 0 <= k < terms.len() implies terms[k] == 0 by {
        let a = kernel(qs, sigma, k);
        let b = balances(f, f, i)[k];
        assert(b == balance(f, f, i, k));
        assert(a * b == 0) by (nonlinear_arith)
            requires
                b == 0,
        ;
    }
    lemma_trapezoid_of_zeros(terms, terms.len() as int);
}

/// In equilibrium only the drift is left of the right-hand side: where the
/// state equals the equilibrium distribution, the time derivative of `f_i` is
/// the elastic and the expansion term at every index but the last, and zero
/// at the last.
pub proof fn lemma_equilibrium_rhs(
    i: int,
    f: Seq<int>,
    qs: Seq<int>,
    sigma: Seq<int>,
    half_dq: int,
    dfi: int,
    d2fi: int,
    pre: int,
    terms: DriftTerms,
)
    requires
        qs.len() == f.len(),
    ensures
        rhs_at(i, f, f, qs, sigma, half_dq, dfi, d2fi, pre, terms) == if has_drift(
            i,
            f.len() as int,
        ) {
            drift(terms, f[i], dfi, d2fi)
        } else {
            0
        },
{
    lemma_detailed_balance(f, qs, sigma, i);
    let scale = pre * half_dq;
    let c = collision(f, f, qs, sigma, i);
    assert(scale * c == 0) by (nonlinear_arith)
        requires
            c == 0,
    ;
}

/// The doubled trapezoid sum of zeros is zero.
proof fn lemma_trapezoid_of_zeros(vals: Seq<int>, m: int)
    requires
        0 <= m <= vals.len(),
        forall|k: int| 0 <= k < vals.len() ==> vals[k] == 0,
    ensures
        trapezoid_prefix(vals, m) == 0,
    decreases m,
{
    if m > 0 {
        lemma_trapezoid_of_zeros(vals, m - 1);
    }
}

} // verus!
