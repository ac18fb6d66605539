//! The Jacobian is the derivative of the right-hand side.
//!
//! The right-hand side is a polynomial of degree two in the state. Moving one
//! entry of the state by `t` therefore changes every entry of the right-hand
//! side by `t` times the Jacobian entry, less `t * t` times a curvature that
//! only the collision term of the moved index itself contributes.

use vstd::prelude::*;
use vstd::arithmetic::mul::{
    lemma_mul_is_commutative, lemma_mul_is_distributive_add, lemma_mul_is_distributive_sub,
};
use crate::derivatives::{deriv_at, first_deriv_at, second_deriv_at};
use crate::driver::{jacobian_entry, rhs_entry, StepInputs};
use crate::polynomial::lemma_swap;
use crate::quadrature::{doubled_weight, trapezoid_prefix};
use crate::stencil::{
    coefficient, first_weight, row_kind_at, second_weight, weight, window_start, DerivOrder,
};
use crate::transport::{
    balance, balances, collision, collision_response, drift, kernel, kernel_terms, response,
    responses, DriftTerms,
};

verus! {

/// The state with entry `j` moved by `t`.
pub open spec fn moved(f: Seq<int>, j: int, t: int) -> Seq<int> {
    f.update(j, f[j] + t)
}

/// Half the second derivative of entry `i` of the right-hand side with respect
/// to entry `j` of the state, without its sign: the weighted kernel of the
/// index with itself times the prefactor, on the diagonal, and nothing
/// elsewhere.
pub open spec fn collision_curvature(n: int, inputs: StepInputs, i: int, j: int) -> int {
    inputs.pre * inputs.half_dq * (if i == j {
        doubled_weight(i, n) * kernel(inputs.qs.values(), inputs.sigma.values()[i], i)
    } else {
        0
    })
}

/// A product with zero.
proof fn lemma_times_zero(c: int, x: int)
    by (nonlinear_arith)
    requires
        x == 0,
    ensures
        c * x == 0,
        x * c == 0,
{
}

/// A stencil applied to a state with one entry moved.
proof fn lemma_deriv_shift(order: DerivOrder, f: Seq<int>, i: int, j: int, t: int)
    requires
        f.len() >= 5,
        0 <= i < f.len(),
        0 <= j < f.len(),
    ensures
        deriv_at(order, moved(f, j, t), i) == deriv_at(order, f, i) + t * weight(
            order,
            f.len() as int,
            i,
            j,
        ),
{
    let n = f.len() as int;
    let g = moved(f, j, t);
    let s = window_start(n, i);
    let kind = row_kind_at(n, i);
    if s <= j < s + 5 {
        let c = coefficient(order, kind, j - s);
        lemma_mul_is_distributive_add(c, f[j], t);
        lemma_mul_is_commutative(c, t);
        assert(c * g[j] == c * f[j] + t * c);
        assert(weight(order, n, i, j) == c);
    } else {
        lemma_times_zero(t, weight(order, n, i, j));
    }
}

/// The elastic and the expansion term are linear in the value and the two
/// derivatives.
proof fn lemma_drift_shift(
    terms: DriftTerms,
    v: int,
    d1: int,
    d2: int,
    t: int,
    dv: int,
    w1: int,
    w2: int,
)
    ensures
        drift(terms, v + t * dv, d1 + t * w1, d2 + t * w2) == drift(terms, v, d1, d2) + t * drift(
            terms,
            dv,
            w1,
            w2,
        ),
{
    let rate = terms.rate as int;
    let xq = terms.xq as int;
    let mix = terms.mix as int;
    let drag = terms.drag as int;
    lemma_mul_is_distributive_add(xq, d2, t * w2);
    lemma_swap(xq, t, w2);
    lemma_mul_is_distributive_add(mix, d1, t * w1);
    lemma_swap(mix, t, w1);
    lemma_swap(3, t, dv);
    let inner = xq * d2 + mix * d1 + 3 * v;
    let slope = xq * w2 + mix * w1 + 3 * dv;
    lemma_mul_is_distributive_add(t, xq * w2 + mix * w1, 3 * dv);
    lemma_mul_is_distributive_add(t, xq * w2, mix * w1);
    assert(xq * (d2 + t * w2) + mix * (d1 + t * w1) + 3 * (v + t * dv) == inner + t * slope);
    lemma_mul_is_distributive_add(rate, inner, t * slope);
    lemma_swap(rate, t, slope);
    lemma_mul_is_distributive_add(drag, d1, t * w1);
    lemma_swap(drag, t, w1);
    lemma_mul_is_distributive_add(t, rate * slope, drag * w1);
}

/// The balance of a pair after one entry of the state has moved.
proof fn lemma_balance_shift(f: Seq<int>, feq: Seq<int>, i: int, j: int, k: int, t: int)
    requires
        0 <= i < f.len(),
        0 <= j < f.len(),
        0 <= k < f.len(),
    ensures
        balance(moved(f, j, t), feq, i, k) == balance(f, feq, i, k) - t * response(f, i, j, k) - t
            * t * (if i == j && j == k {
            1int
        } else {
            0int
        }),
{
    let a = f[i];
    let b = f[k];
    if i == j && j == k {
        assert((a + t) * (a + t) == a * a + t * (a + a) + t * t * 1) by (nonlinear_arith);
    } else if i == j {
        assert((a + t) * b == a * b + t * b) by (nonlinear_arith);
        lemma_times_zero(t * t, 0);
    } else if j == k {
        assert(a * (b + t) == a * b + t * a) by (nonlinear_arith);
        lemma_times_zero(t * t, 0);
    } else {
        lemma_times_zero(t, 0);
        lemma_times_zero(t * t, 0);
    }
}

/// The doubled trapezoid sum is linear: of samples that are a combination of
/// three others it is the same combination of their sums.
proof fn lemma_trapezoid_combination(
    x: Seq<int>,
    y: Seq<int>,
    z: Seq<int>,
    e: Seq<int>,
    a: int,
    b: int,
    m: int,
)
    requires
        y.len() == x.len(),
        z.len() == x.len(),
        e.len() == x.len(),
        0 <= m <= x.len(),
        forall|k: int| 0 <= k < x.len() ==> #[trigger] x[k] == y[k] - a * z[k] - b * e[k],
    ensures
        trapezoid_prefix(x, m) == trapezoid_prefix(y, m) - a * trapezoid_prefix(z, m) - b
            * trapezoid_prefix(e, m),
    decreases m,
{
    if m > 0 {
        lemma_trapezoid_combination(x, y, z, e, a, b, m - 1);
        let w = doubled_weight(m - 1, x.len() as int);
        let k = m - 1;
        assert(x[k] == y[k] - a * z[k] - b * e[k]);
        lemma_mul_is_distributive_sub(w, y[k] - a * z[k], b * e[k]);
        lemma_mul_is_distributive_sub(w, y[k], a * z[k]);
        lemma_swap(w, a, z[k]);
        lemma_swap(w, b, e[k]);
        lemma_mul_is_distributive_add(a, trapezoid_prefix(z, m - 1), w * z[k]);
        lemma_mul_is_distributive_add(b, trapezoid_prefix(e, m - 1), w * e[k]);
    } else {
        lemma_times_zero(a, 0);
        lemma_times_zero(b, 0);
    }
}

/// The doubled trapezoid sum of samples that vanish everywhere but at `p`.
proof fn lemma_trapezoid_single(vals: Seq<int>, p: int, m: int)
    requires
        0 <= m <= vals.len(),
        forall|k: int| 0 <= k < vals.len() && k != p ==> #[trigger] vals[k] == 0,
    ensures
        trapezoid_prefix(vals, m) == if 0 <= p < m {
            doubled_weight(p, vals.len() as int) * vals[p]
        } else {
            0
        },
    decreases m,
{
    if m > 0 {
        lemma_trapezoid_single(vals, p, m - 1);
        if m - 1 != p {
            lemma_times_zero(doubled_weight(m - 1, vals.len() as int), vals[m - 1]);
        }
    }
}

/// The collision quadrature after one entry of the state has moved.
proof fn lemma_collision_shift(
    f: Seq<int>,
    feq: Seq<int>,
    qs: Seq<int>,
    sigma: Seq<int>,
    i: int,
    j: int,
    t: int,
)
    requires
        qs.len() == f.len(),
        0 <= i < f.len(),
        0 <= j < f.len(),
    ensures
        collision(moved(f, j, t), feq, qs, sigma, i) == collision(f, feq, qs, sigma, i) - t
            * collision_response(f, qs, sigma, i, j) - t * t * (if i == j {
            doubled_weight(i, f.len() as int) * kernel(qs, sigma, i)
        } else {
            0
        }),
{
    let n = f.len();
    let g = moved(f, j, t);
    let units = Seq::new(
        n,
        |k: int|
            if i == j && j == k {
                1int
            } else {
                0int
            },
    );
    let x = kernel_terms(qs, sigma, balances(g, feq, i));
    let y = kernel_terms(qs, sigma, balances(f, feq, i));
    let z = kernel_terms(qs, sigma, responses(f, i, j));
    let e = kernel_terms(qs, sigma, units);
    assert forall|k: int| 0 <= k < n implies #[trigger] x[k] == y[k] - t * z[k] - t * t * e[k] by {
        let c = kernel(qs, sigma, k);
        lemma_balance_shift(f, feq, i, j, k, t);
        let r = response(f, i, j, k);
        let u = units[k];
        assert(balances(g, feq, i)[k] == balances(f, feq, i)[k] - t * r - t * t * u);
        lemma_mul_is_distributive_sub(c, balances(f, feq, i)[k] - t * r, t * t * u);
        lemma_mul_is_distributive_sub(c, balances(f, feq, i)[k], t * r);
        lemma_swap(c, t, r);
        lemma_swap(c, t * t, u);
    }
    lemma_trapezoid_combination(x, y, z, e, t, t * t, n as int);
    assert forall|k: int| 0 <= k < n && k != j implies #[trigger] e[k] == 0 by {
        lemma_times_zero(kernel(qs, sigma, k), units[k]);
    }
    lemma_trapezoid_single(e, j, n as int);
    if i == j {
        assert(e[j] == kernel(qs, sigma, j) * 1);
    } else {
        lemma_times_zero(kernel(qs, sigma, j), units[j]);
        lemma_times_zero(doubled_weight(j, n as int), e[j]);
    }
}

/// The Jacobian is the derivative of the right-hand side: on every grid of at
/// least five points, moving entry `j` of the state by `t` changes entry `i`
/// of the right-hand side by `t` times entry `(i, j)` of the Jacobian, less
/// `t * t` times the curvature of the collision term.
pub proof fn lemma_jacobian_linearizes(f: Seq<int>, inputs: StepInputs, i: int, j: int, t: int)
    requires
        f.len() >= 5,
        inputs.matches_grid(f.len() as int),
        0 <= i < f.len(),
        0 <= j < f.len(),
    ensures
        rhs_entry(moved(f, j, t), inputs, i) - rhs_entry(f, inputs, i) == t * jacobian_entry(
            f,
            inputs,
            i,
            j,
        ) - t * t * collision_curvature(f.len() as int, inputs, i, j),
{
    let n = f.len() as int;
    let g = moved(f, j, t);
    let feq = inputs.feq.values();
    let qs = inputs.qs.values();
    let sigma = inputs.sigma.values()[i];
    let terms = inputs.terms@[i];
    let p = inputs.pre * inputs.half_dq;
    let coll = collision(f, feq, qs, sigma, i);
    let resp = collision_response(f, qs, sigma, i, j);
    let unit = if i == j {
        doubled_weight(i, n) * kernel(qs, sigma, i)
    } else {
        0
    };
    lemma_collision_shift(f, feq, qs, sigma, i, j, t);
    assert(collision(g, feq, qs, sigma, i) == coll - t * resp - t * t * unit);
    lemma_mul_is_distributive_sub(p, coll - t * resp, t * t * unit);
    lemma_mul_is_distributive_sub(p, coll, t * resp);
    lemma_swap(p, t, resp);
    lemma_swap(p, t * t, unit);
    assert(p * collision(g, feq, qs, sigma, i) == p * coll - t * (p * resp) - t * t * (p * unit));
    let dv = if i == j {
        1int
    } else {
        0int
    };
    let w1 = first_weight(n, i, j);
    let w2 = second_weight(n, i, j);
    lemma_deriv_shift(DerivOrder::First, f, i, j, t);
    lemma_deriv_shift(DerivOrder::Second, f, i, j, t);
    assert(g[i] == f[i] + t * dv) by {
        if i != j {
            lemma_times_zero(t, dv);
        }
    }
    lemma_drift_shift(terms, f[i], first_deriv_at(f, i), second_deriv_at(f, i), t, dv, w1, w2);
    let slope = drift(terms, dv, w1, w2);
    lemma_mul_is_distributive_add(t, -(p * resp), slope);
    assert(t * (-(p * resp)) == -(t * (p * resp))) by (nonlinear_arith);
}

} // verus!
