use boltzmann::array::{IntMatrix, IntVector};
use boltzmann::derivatives::{
    first_deriv_vec, jac_first_deriv_vec, jac_second_deriv_vec, second_deriv_vec,
};
use boltzmann::driver::{
    full_solver_tolerances, prepare_full_boltzmann, simple_solver_tolerances, transport_jacobian,
    transport_rhs, uniform_grid, StepInputs,
};
use boltzmann::error::SolverError;
use boltzmann::transport::{compute_dfi, compute_j_dfi, DriftTerms};

fn vector(items: &[i64]) -> IntVector {
    IntVector::from_vec(items.to_vec())
}

fn matrix(rows: &[Vec<i64>]) -> IntMatrix {
    let n = rows.len();
    let mut m = IntMatrix::zeros(n).unwrap();
    for i in 0..n {
        for j in 0..n {
            m.put(i, j, rows[i][j]);
        }
    }
    m
}

fn kernel_rows(n: usize) -> Vec<Vec<i64>> {
    // A symmetric, strictly positive kernel.
    (0..n).map(|i| (0..n).map(|j| 1 + ((i * j) % 4) as i64 + (i + j) as i64).collect()).collect()
}

fn drift_terms(n: usize) -> Vec<DriftTerms> {
    (0..n)
        .map(|i| DriftTerms {
            rate: 2 + i as i64,
            xq: 10 + 3 * i as i64,
            mix: 4 - i as i64,
            drag: 1 + 2 * i as i64,
        })
        .collect()
}

fn inputs(n: usize, feq: &[i64]) -> StepInputs {
    StepInputs {
        feq: vector(feq),
        qs: IntVector::from_vec((0..n).map(|k| 1 + 2 * k as i64).collect()),
        sigma: matrix(&kernel_rows(n)),
        half_dq: 1,
        pre: 5,
        terms: drift_terms(n),
    }
}

#[test]
fn tolerances_of_the_two_solvers() {
    let full = full_solver_tolerances();
    assert_eq!(full.relative_exponent, -6);
    assert_eq!(full.absolute_exponent, -100);
    let simple = simple_solver_tolerances();
    assert_eq!(simple.relative_exponent, -7);
    assert_eq!(simple.absolute_exponent, -7);
}

#[test]
fn right_hand_side_entry_by_entry() {
    let n = 7;
    let state = [40i64, 31, 25, 18, 12, 7, 3];
    let feq = [38i64, 30, 26, 19, 11, 8, 2];
    let f = vector(&state);
    let inp = inputs(n, &feq);
    let out = transport_rhs(&f, &inp).unwrap();
    assert_eq!(out.len(), n);
    let df = first_deriv_vec(&f).unwrap();
    let d2f = second_deriv_vec(&f).unwrap();
    let rows = kernel_rows(n);
    let terms = drift_terms(n);
    for i in 0..n {
        let entry = compute_dfi(
            i,
            n,
            &f,
            &inp.feq,
            &inp.qs,
            &vector(&rows[i]),
            1,
            df.at(i),
            d2f.at(i),
            5,
            &terms[i],
        )
        .unwrap();
        assert_eq!(out.at(i) as i128, entry);
    }
}

#[test]
fn right_hand_side_of_a_given_state() {
    // A constant state in equilibrium: no collisions, no derivatives, and the
    // elastic term 3 * rate * f at every index but the last.
    let n = 5;
    let f = vector(&[6; 5]);
    let inp = inputs(n, &[6; 5]);
    let out = transport_rhs(&f, &inp).unwrap();
    assert_eq!(out.to_vec(), vec![3 * 2 * 6, 3 * 3 * 6, 3 * 4 * 6, 3 * 5 * 6, 0]);
}

#[test]
fn right_hand_side_with_collisions() {
    // f = 0 against feq = 1 on five points with a unit kernel: the balance is
    // one, the doubled quadrature sum_k w_k q_k^2 with q = 1, 3, 5, 7, 9.
    let n = 5;
    let inp = StepInputs {
        feq: vector(&[1; 5]),
        qs: vector(&[1, 3, 5, 7, 9]),
        sigma: matrix(&vec![vec![1; 5]; 5]),
        half_dq: 1,
        pre: 5,
        terms: vec![DriftTerms { rate: 0, xq: 0, mix: 0, drag: 0 }; 5],
    };
    let out = transport_rhs(&vector(&[0; 5]), &inp).unwrap();
    let doubled = 1 + 2 * 9 + 2 * 25 + 2 * 49 + 81;
    assert_eq!(out.to_vec(), vec![5 * doubled; 5]);
}

#[test]
fn equilibrium_leaves_only_the_drift() {
    let n = 6;
    let state = [40i64, 31, 25, 18, 12, 7];
    let f = vector(&state);
    let inp = inputs(n, &state);
    let out = transport_rhs(&f, &inp).unwrap();
    let df = first_deriv_vec(&f).unwrap();
    let d2f = second_deriv_vec(&f).unwrap();
    let terms = drift_terms(n);
    for i in 0..n - 1 {
        let t = terms[i];
        let drift = t.rate * (t.xq * d2f.at(i) + t.mix * df.at(i) + 3 * state[i])
            + t.drag * df.at(i);
        assert_eq!(out.at(i), drift);
    }
    assert_eq!(out.at(n - 1), 0);
}

#[test]
fn jacobian_entry_by_entry() {
    let n = 6;
    let state = [40i64, 31, 25, 18, 12, 7];
    let f = vector(&state);
    let inp = inputs(n, &[38, 30, 26, 19, 11, 8]);
    let j_df = jac_first_deriv_vec(n).unwrap();
    let j_d2f = jac_second_deriv_vec(n).unwrap();
    let jac = transport_jacobian(&f, &inp, &j_df, &j_d2f).unwrap();
    assert_eq!(jac.nrows(), n);
    let rows = kernel_rows(n);
    let terms = drift_terms(n);
    for i in 0..n {
        for j in 0..n {
            let entry = compute_j_dfi(
                i,
                j,
                n,
                &f,
                &inp.qs,
                &vector(&rows[i]),
                1,
                j_df.at(i, j),
                j_d2f.at(i, j),
                5,
                &terms[i],
            )
            .unwrap();
            assert_eq!(jac.at(i, j) as i128, entry);
        }
    }
}

#[test]
fn assembled_jacobian_is_the_change_of_the_right_hand_side() {
    let n = 7;
    let state = [40i64, 31, 25, 18, 12, 7, 3];
    let feq = [38i64, 30, 26, 19, 11, 8, 2];
    let inp = inputs(n, &feq);
    let j_df = jac_first_deriv_vec(n).unwrap();
    let j_d2f = jac_second_deriv_vec(n).unwrap();
    let f = vector(&state);
    let base = transport_rhs(&f, &inp).unwrap().to_vec();
    let jac = transport_jacobian(&f, &inp, &j_df, &j_d2f).unwrap();
    let rows = kernel_rows(n);
    for j in 0..n {
        for t in [1i64, -2, 5] {
            let mut moved = state;
            moved[j] += t;
            let after = transport_rhs(&vector(&moved), &inp).unwrap().to_vec();
            for i in 0..n {
                let weight = if i == 0 || i == n - 1 { 1 } else { 2 };
                let q = 1 + 2 * i as i64;
                let second = if i == j { 5 * weight * q * q * rows[i][i] } else { 0 };
                assert_eq!(after[i] - base[i], t * jac.at(i, j) - t * t * second);
            }
        }
    }
}

#[test]
fn the_last_row_of_the_jacobian_holds_collisions_only() {
    let n = 5;
    let f = vector(&[0; 5]);
    let inp = inputs(n, &[0; 5]);
    let j_df = jac_first_deriv_vec(n).unwrap();
    let j_d2f = jac_second_deriv_vec(n).unwrap();
    let jac = transport_jacobian(&f, &inp, &j_df, &j_d2f).unwrap();
    // With f = 0 every response vanishes, so the last row is zero while the
    // other rows hold the drift.
    assert_eq!(jac.row(4).to_vec(), vec![0; 5]);
    let t = drift_terms(n)[0];
    assert_eq!(jac.at(0, 0), t.rate * (t.xq * 35 + t.mix * -22 + 3) + t.drag * -22);
    assert_eq!(jac.at(0, 1), t.rate * (t.xq * -104 + t.mix * 36) + t.drag * 36);
}

#[test]
fn evaluations_repeat() {
    let n = 6;
    let f = vector(&[40, 31, 25, 18, 12, 7]);
    let inp = inputs(n, &[38, 30, 26, 19, 11, 8]);
    let j_df = jac_first_deriv_vec(n).unwrap();
    let j_d2f = jac_second_deriv_vec(n).unwrap();
    let first = transport_rhs(&f, &inp).unwrap().to_vec();
    let second = transport_rhs(&f, &inp).unwrap().to_vec();
    assert_eq!(first, second);
    let a = transport_jacobian(&f, &inp, &j_df, &j_d2f).unwrap();
    let b = transport_jacobian(&f, &inp, &j_df, &j_d2f).unwrap();
    for i in 0..n {
        assert_eq!(a.row(i).to_vec(), b.row(i).to_vec());
    }
}

#[test]
fn small_grids_are_refused() {
    for n in 1..5usize {
        let f = IntVector::from_vec(vec![1; n]);
        let inp = inputs(n, &vec![1; n]);
        assert_eq!(transport_rhs(&f, &inp).err(), Some(SolverError::GridTooSmall));
        let m = IntMatrix::zeros(n).unwrap();
        let k = IntMatrix::zeros(n).unwrap();
        assert_eq!(transport_jacobian(&f, &inp, &m, &k).err(), Some(SolverError::GridTooSmall));
    }
}

#[test]
fn entries_beyond_the_range_are_an_overflow() {
    let n = 5;
    let big = i64::MAX / 4;
    let f = vector(&[0; 5]);
    let mut inp = inputs(n, &[big; 5]);
    assert_eq!(transport_rhs(&f, &inp).err(), Some(SolverError::Overflow));
    // A state whose derivative leaves the range.
    inp = inputs(n, &[0; 5]);
    let steep = vector(&[i64::MAX, 0, 0, 0, 0]);
    assert_eq!(transport_rhs(&steep, &inp).err(), Some(SolverError::Overflow));
    // A Jacobian entry beyond an i64.
    inp.pre = i64::MAX;
    let level = vector(&[1 << 40; 5]);
    let j_df = jac_first_deriv_vec(n).unwrap();
    let j_d2f = jac_second_deriv_vec(n).unwrap();
    assert_eq!(
        transport_jacobian(&level, &inp, &j_df, &j_d2f).err(),
        Some(SolverError::Overflow)
    );
}

#[test]
fn a_uniform_grid() {
    let grid = uniform_grid(-3, 2, 6).unwrap();
    assert_eq!(grid.to_vec(), vec![-3, 1, 5, 9, 13, 17]);
    let grid = uniform_grid(1, 1, 5).unwrap();
    assert_eq!(grid.to_vec(), vec![1, 3, 5, 7, 9]);
}

#[test]
fn a_grid_needs_five_points_and_a_positive_spacing() {
    for n in 0..5 {
        assert_eq!(uniform_grid(0, 1, n).err(), Some(SolverError::GridTooSmall));
        assert_eq!(uniform_grid(0, 0, n).err(), Some(SolverError::GridTooSmall));
    }
    assert_eq!(uniform_grid(0, 0, 5).err(), Some(SolverError::SpacingNotPositive));
    assert_eq!(uniform_grid(0, -1, 100).err(), Some(SolverError::SpacingNotPositive));
    assert_eq!(uniform_grid(0, i64::MIN, 5).err(), Some(SolverError::SpacingNotPositive));
}

#[test]
fn a_grid_that_leaves_the_range_is_an_overflow() {
    assert_eq!(uniform_grid(i64::MAX - 7, 1, 5).err(), Some(SolverError::Overflow));
    assert_eq!(uniform_grid(0, i64::MAX, 5).err(), Some(SolverError::Overflow));
    let edge = uniform_grid(i64::MAX - 8, 1, 5).unwrap();
    assert_eq!(edge.at(4), i64::MAX);
    let low = uniform_grid(i64::MIN, 1, 5).unwrap();
    assert_eq!(
        low.to_vec(),
        vec![i64::MIN, i64::MIN + 2, i64::MIN + 4, i64::MIN + 6, i64::MIN + 8]
    );
}

#[test]
fn a_run_on_a_grid_from_its_initial_state() {
    // The initial state is the equilibrium distribution, so the first
    // right-hand side holds the drift alone.
    let n = 6;
    let qs = uniform_grid(1, 1, n).unwrap();
    let feq = |x: i64, q: i64| 10_000 - x * q * q;
    let sigmav = |x: i64, q: i64, qt: i64| x + q + qt;
    let x = 15;
    let f0 = boltzmann::model::equilibrium(&feq, x, &qs);
    assert_eq!(f0.to_vec(), vec![9985, 9865, 9625, 9265, 8785, 8185]);
    let inp = StepInputs {
        feq: boltzmann::model::equilibrium(&feq, x, &qs),
        qs,
        sigma: boltzmann::model::kernel_matrix(&sigmav, x, &uniform_grid(1, 1, n).unwrap())
            .unwrap(),
        half_dq: 1,
        pre: 7,
        terms: drift_terms(n),
    };
    let out = transport_rhs(&f0, &inp).unwrap();
    // The state is -15 q^2 + 10000 with spacing 2: twelve times the spacing
    // times its slope is -720 q, twelve times the squared spacing times its
    // curvature -1440.
    let terms = drift_terms(n);
    for i in 0..n - 1 {
        let q = 1 + 2 * i as i64;
        let t = terms[i];
        let expected =
            t.rate * (t.xq * -1440 + t.mix * -720 * q + 3 * f0.at(i)) + t.drag * -720 * q;
        assert_eq!(out.at(i), expected);
    }
    assert_eq!(out.at(n - 1), 0);
}

#[test]
fn the_setup_of_a_run() {
    let feq = |x: i64, q: i64| 1_000_000 - x * x - q * q;
    let setup = prepare_full_boltzmann(&feq, 6, 1, 5, 15).unwrap();
    assert_eq!(setup.qs.to_vec(), vec![1, 11, 21, 31, 41, 51]);
    assert_eq!(
        setup.initial.to_vec(),
        vec![999_774, 999_654, 999_334, 998_814, 998_094, 997_174]
    );
    assert_eq!(setup.j_df.row(0).to_vec(), vec![-22, 36, -18, 4, 0, 0]);
    assert_eq!(setup.j_df.row(3).to_vec(), vec![0, 1, -8, 0, 8, -1]);
    assert_eq!(setup.j_d2f.row(5).to_vec(), vec![0, 11, -56, 114, -104, 35]);
    assert_eq!(setup.tolerances, full_solver_tolerances());
    assert_eq!(setup.tolerances.relative_exponent, -6);
    assert_eq!(setup.tolerances.absolute_exponent, -100);
}

#[test]
fn a_setup_is_refused_for_the_first_reason_that_holds() {
    let feq = |_x: i64, _q: i64| 1;
    let err = |n: usize, q_min: i64, half_dq: i64| {
        prepare_full_boltzmann(&feq, n, q_min, half_dq, 1).err()
    };
    assert_eq!(err(4, i64::MAX, 0), Some(SolverError::GridTooSmall));
    assert_eq!(err(0, 0, 1), Some(SolverError::GridTooSmall));
    assert_eq!(err(5, i64::MAX, 0), Some(SolverError::SpacingNotPositive));
    assert_eq!(err(usize::MAX, 0, -3), Some(SolverError::SpacingNotPositive));
    assert_eq!(err(usize::MAX, i64::MAX, 1), Some(SolverError::GridTooLarge));
    assert_eq!(err(1 << 40, 0, 1), Some(SolverError::GridTooLarge));
    assert_eq!(err(5, i64::MAX, 1), Some(SolverError::Overflow));
    assert_eq!(err(5, i64::MAX - 7, 1), Some(SolverError::Overflow));
    assert_eq!(err(5, i64::MAX - 8, 1), None);
    assert_eq!(err(5, 0, 1), None);
}
