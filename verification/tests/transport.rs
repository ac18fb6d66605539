use boltzmann::array::IntVector;
use boltzmann::error::SolverError;
use boltzmann::transport::{compute_dfi, compute_j_dfi, DriftTerms};

fn vector(items: &[i64]) -> IntVector {
    IntVector::from_vec(items.to_vec())
}

fn terms() -> DriftTerms {
    DriftTerms { rate: 2, xq: 3, mix: 5, drag: 7 }
}

fn no_drift() -> DriftTerms {
    DriftTerms { rate: 0, xq: 0, mix: 0, drag: 0 }
}

#[test]
fn right_hand_side_at_an_inner_index() {
    let f = vector(&[2, 3, 5]);
    let feq = vector(&[1, 4, 6]);
    let qs = vector(&[1, 2, 3]);
    let sigma = vector(&[7, 1, 2]);
    // Balances 4*1-3*2, 4*4-3*3, 4*6-3*5 = -2, 7, 9; kernels 7, 4, 18;
    // doubled quadrature -14 + 2*28 + 162 = 204; times pre * half_dq = 6.
    // Drift 2 * (3 * -4 + 5 * 10 + 3 * 3) + 7 * 10 = 164.
    let r = compute_dfi(1, 3, &f, &feq, &qs, &sigma, 2, 10, -4, 3, &terms());
    assert_eq!(r, Ok(1224 + 164));
}

#[test]
fn right_hand_side_at_the_last_index_has_no_drift() {
    let f = vector(&[2, 3, 5]);
    let feq = vector(&[1, 4, 6]);
    let qs = vector(&[1, 2, 3]);
    let sigma = vector(&[7, 1, 2]);
    // Balances 6-10, 24-15, 36-25 = -4, 9, 11; doubled quadrature
    // -28 + 2*36 + 198 = 242.
    let r = compute_dfi(2, 3, &f, &feq, &qs, &sigma, 2, 10, -4, 3, &terms());
    assert_eq!(r, Ok(6 * 242));
}

#[test]
fn right_hand_side_at_the_first_index() {
    let f = vector(&[2, 3, 5]);
    let feq = vector(&[1, 4, 6]);
    let qs = vector(&[1, 2, 3]);
    let sigma = vector(&[7, 1, 2]);
    // Balances 1-4, 4-6, 6-10 = -3, -2, -4; doubled quadrature
    // -21 + 2*-8 + -72 = -109. Drift 2 * (3 * 1 + 5 * -2 + 6) + 7 * -2 = -16.
    let r = compute_dfi(0, 3, &f, &feq, &qs, &sigma, 2, -2, 1, 3, &terms());
    assert_eq!(r, Ok(6 * -109 - 16));
}

#[test]
fn equilibrium_has_no_collision_term() {
    let f = vector(&[9, 4, 7, 1, 3, 8]);
    let qs = vector(&[1, 3, 5, 7, 9, 11]);
    let sigma = vector(&[2, 5, 1, 8, 3, 4]);
    for i in 0..6 {
        let r = compute_dfi(i, 6, &f, &f, &qs, &sigma, 1, 0, 0, 1000, &no_drift());
        assert_eq!(r, Ok(0));
    }
    // With drift coefficients only the drift is left, and nothing at the end.
    let fi = 4;
    let r = compute_dfi(1, 6, &f, &f, &qs, &sigma, 1, 10, -4, 1000, &terms());
    assert_eq!(r, Ok(2 * (3 * -4 + 5 * 10 + 3 * fi) + 7 * 10));
    let r = compute_dfi(5, 6, &f, &f, &qs, &sigma, 1, 10, -4, 1000, &terms());
    assert_eq!(r, Ok(0));
}

#[test]
fn jacobian_on_the_diagonal() {
    let f = vector(&[2, 3, 5]);
    let qs = vector(&[1, 2, 3]);
    let sigma = vector(&[7, 1, 2]);
    // Responses f_k plus f_i at k = i: 2, 6, 5; kernels 7, 4, 18; doubled
    // quadrature 14 + 2*24 + 90 = 152. Drift 2 * (3 * -30 + 5 * 8 + 3) + 7 * 8.
    let r = compute_j_dfi(1, 1, 3, &f, &qs, &sigma, 2, 8, -30, 3, &terms());
    assert_eq!(r, Ok(-6 * 152 - 38));
}

#[test]
fn jacobian_off_the_diagonal() {
    let f = vector(&[2, 3, 5]);
    let qs = vector(&[1, 2, 3]);
    let sigma = vector(&[7, 1, 2]);
    // The only response is f_i at k = j: 18 * 3 with the end weight 1.
    // Drift 2 * (3 * 16 + 5 * -1) + 7 * -1 = 79.
    let r = compute_j_dfi(1, 2, 3, &f, &qs, &sigma, 2, -1, 16, 3, &terms());
    assert_eq!(r, Ok(-6 * 54 + 79));
    // At k = j = 0 the kernel is 7 and the weight 1.
    let r = compute_j_dfi(1, 0, 3, &f, &qs, &sigma, 2, 0, 0, 3, &terms());
    assert_eq!(r, Ok(-6 * 21));
}

#[test]
fn jacobian_in_the_last_row_has_no_drift() {
    let f = vector(&[2, 3, 5]);
    let qs = vector(&[1, 2, 3]);
    let sigma = vector(&[7, 1, 2]);
    // Responses 2, 3, 10; doubled quadrature 14 + 2*12 + 180 = 218.
    let r = compute_j_dfi(2, 2, 3, &f, &qs, &sigma, 2, 22, 35, 3, &terms());
    assert_eq!(r, Ok(-6 * 218));
    // Off the diagonal the response is f_i at k = j, an inner sample.
    let r = compute_j_dfi(2, 1, 3, &f, &qs, &sigma, 2, -36, -104, 3, &terms());
    assert_eq!(r, Ok(-6 * (2 * 4 * 5)));
}

#[test]
fn jacobian_is_the_change_of_the_right_hand_side() {
    let base = [4i64, -2, 7, 3, 0, 5];
    let feq = vector(&[1, 2, 3, 4, 5, 6]);
    let qs = vector(&[1, 2, 3, 4, 5, 6]);
    let sigma = vector(&[3, 1, 4, 1, 5, 9]);
    let n = 6;
    let (half_dq, pre) = (2i64, 3i64);
    let weights = [1i128, 2, 2, 2, 2, 1];
    let kernels = [3i128, 4, 36, 16, 125, 324];
    for i in 0..n {
        for j in 0..n {
            for t in [1i64, -3, 10] {
                let mut moved = base;
                moved[j] += t;
                let before = compute_dfi(
                    i, n, &vector(&base), &feq, &qs, &sigma, half_dq, 0, 0, pre, &no_drift(),
                )
                .unwrap();
                let after = compute_dfi(
                    i, n, &vector(&moved), &feq, &qs, &sigma, half_dq, 0, 0, pre, &no_drift(),
                )
                .unwrap();
                let slope = compute_j_dfi(
                    i, j, n, &vector(&base), &qs, &sigma, half_dq, 0, 0, pre, &no_drift(),
                )
                .unwrap();
                let second = if i == j { 6 * weights[i] * kernels[i] } else { 0 };
                let t = t as i128;
                assert_eq!(after - before, t * slope - t * t * second);
            }
        }
    }
}

#[test]
fn drift_is_linear_in_the_state_and_its_derivatives() {
    let f = vector(&[0, 0, 0]);
    let zero = vector(&[0, 0, 0]);
    let unit = vector(&[0, 1, 0]);
    let qs = vector(&[1, 2, 3]);
    let r = compute_dfi(1, 3, &unit, &unit, &qs, &zero, 1, 0, 0, 1, &terms());
    assert_eq!(r, Ok(2 * 3));
    let r = compute_dfi(1, 3, &f, &f, &qs, &zero, 1, 1, 0, 1, &terms());
    assert_eq!(r, Ok(2 * 5 + 7));
    let r = compute_dfi(1, 3, &f, &f, &qs, &zero, 1, 0, 1, 1, &terms());
    assert_eq!(r, Ok(2 * 3));
    // The same numbers are the drift part of the Jacobian.
    let r = compute_j_dfi(1, 1, 3, &f, &qs, &zero, 1, 0, 0, 1, &terms());
    assert_eq!(r, Ok(2 * 3));
    let r = compute_j_dfi(1, 0, 3, &f, &qs, &zero, 1, 1, 0, 1, &terms());
    assert_eq!(r, Ok(2 * 5 + 7));
    let r = compute_j_dfi(1, 2, 3, &f, &qs, &zero, 1, 0, 1, 1, &terms());
    assert_eq!(r, Ok(2 * 3));
}

#[test]
fn a_kernel_that_leaves_the_range_is_an_overflow() {
    let big = i64::MAX;
    let f = vector(&[0, 0]);
    let qs = vector(&[big, big]);
    let sigma = vector(&[big, big]);
    let r = compute_dfi(0, 2, &f, &f, &qs, &sigma, 1, 0, 0, 1, &no_drift());
    assert_eq!(r, Err(SolverError::Overflow));
    let r = compute_j_dfi(0, 0, 2, &f, &qs, &sigma, 1, 0, 0, 1, &no_drift());
    assert_eq!(r, Err(SolverError::Overflow));
}

#[test]
fn a_product_with_the_balance_that_leaves_the_range_is_an_overflow() {
    let big = i64::MAX;
    let f = vector(&[0, 0]);
    let feq = vector(&[big, big]);
    let qs = vector(&[2, 2]);
    let sigma = vector(&[1, 1]);
    // The balance big * big fits, four times it does not.
    let r = compute_dfi(0, 2, &f, &feq, &qs, &sigma, 1, 0, 0, 1, &no_drift());
    assert_eq!(r, Err(SolverError::Overflow));
    // With the kernel one the two end samples add up to twice the balance.
    let qs = vector(&[1, 1]);
    let r = compute_dfi(0, 2, &f, &feq, &qs, &sigma, 1, 0, 0, 1, &no_drift());
    assert_eq!(r, Ok(2 * (big as i128) * (big as i128)));
    // With one sample of weight one the quadrature fits, and scaling by two
    // does not.
    let f = vector(&[0]);
    let feq = vector(&[big]);
    let one = vector(&[1]);
    let r = compute_dfi(0, 1, &f, &feq, &one, &one, 1, 0, 0, 1, &no_drift());
    assert_eq!(r, Ok((big as i128) * (big as i128)));
    let r = compute_dfi(0, 1, &f, &feq, &one, &one, 2, 0, 0, 1, &no_drift());
    assert_eq!(r, Ok(2 * (big as i128) * (big as i128)));
    let r = compute_dfi(0, 1, &f, &feq, &one, &one, 2, 0, 0, 2, &no_drift());
    assert_eq!(r, Err(SolverError::Overflow));
}

#[test]
fn a_drift_that_leaves_the_range_is_an_overflow() {
    let big = i64::MAX;
    let f = vector(&[0, 0]);
    let one = vector(&[1, 1]);
    let zero = vector(&[0, 0]);
    let steep = DriftTerms { rate: big, xq: big, mix: 0, drag: 0 };
    let r = compute_dfi(0, 2, &f, &f, &one, &zero, 1, 0, big, 1, &steep);
    assert_eq!(r, Err(SolverError::Overflow));
    let r = compute_j_dfi(0, 1, 2, &f, &one, &zero, 1, 0, big, 1, &steep);
    assert_eq!(r, Err(SolverError::Overflow));
    // The sum inside the elastic term: two products of 2^126 each.
    let low = i64::MIN;
    let edge = DriftTerms { rate: 1, xq: low, mix: low, drag: 0 };
    let r = compute_dfi(0, 2, &f, &f, &one, &zero, 1, low, low, 1, &edge);
    assert_eq!(r, Err(SolverError::Overflow));
    // At the last index the drift is never computed.
    let r = compute_dfi(1, 2, &f, &f, &one, &zero, 1, 0, big, 1, &steep);
    assert_eq!(r, Ok(0));
}

#[test]
fn the_largest_drift_that_fits() {
    let big = i64::MAX;
    let f = vector(&[0, 0]);
    let one = vector(&[1, 1]);
    let zero = vector(&[0, 0]);
    let terms = DriftTerms { rate: 1, xq: big, mix: big, drag: 0 };
    let r = compute_dfi(0, 2, &f, &f, &one, &zero, 1, big, big, 1, &terms);
    assert_eq!(r, Ok(2 * (big as i128) * (big as i128)));
}
