use boltzmann::array::{IntMatrix, IntVector};
use boltzmann::derivatives::{
    first_deriv_vec, jac_first_deriv_vec, jac_second_deriv_vec, second_deriv_vec,
};
use boltzmann::error::SolverError;
use boltzmann::stencil::{
    coefficients, first_row, row_kind, row_start, second_row, DerivOrder, RowKind,
};

fn cubic(q: i64) -> i64 {
    7 - 3 * q + 2 * q * q + 5 * q * q * q
}

fn cubic_slope(q: i64) -> i64 {
    -3 + 4 * q + 15 * q * q
}

fn quartic(q: i64) -> i64 {
    1 + 2 * q - 3 * q * q + 4 * q * q * q - 2 * q * q * q * q
}

fn quartic_curvature(q: i64) -> i64 {
    -6 + 24 * q - 24 * q * q
}

fn samples(n: usize, q0: i64, h: i64, p: fn(i64) -> i64) -> IntVector {
    IntVector::from_vec((0..n).map(|k| p(q0 + (k as i64) * h)).collect())
}

fn rows_of(m: &IntMatrix, n: usize) -> Vec<Vec<i64>> {
    (0..n).map(|i| (0..n).map(|j| m.get(i, j).unwrap()).collect()).collect()
}

#[test]
fn first_derivative_is_exact_on_a_cubic() {
    for &(n, q0, h) in &[(5usize, -4i64, 3i64), (6, 0, 1), (9, 2, 5), (17, -20, 2)] {
        let v = samples(n, q0, h, cubic);
        let d = first_deriv_vec(&v).unwrap();
        assert_eq!(d.len(), n);
        for i in 0..n {
            let q = q0 + (i as i64) * h;
            assert_eq!(d.get(i), Some(12 * h * cubic_slope(q)));
        }
    }
}

#[test]
fn second_derivative_is_exact_on_a_quartic() {
    for &(n, q0, h) in &[(5usize, -4i64, 3i64), (6, 0, 1), (9, 2, 5), (17, -20, 2)] {
        let v = samples(n, q0, h, quartic);
        let d = second_deriv_vec(&v).unwrap();
        assert_eq!(d.len(), n);
        for i in 0..n {
            let q = q0 + (i as i64) * h;
            assert_eq!(d.get(i), Some(12 * h * h * quartic_curvature(q)));
        }
    }
}

#[test]
fn first_derivative_of_given_samples() {
    let v = IntVector::from_vec(vec![1, 4, 9, 16, 25, 36, 50]);
    let d = first_deriv_vec(&v).unwrap();
    // Rows: forward, forward, central, central, central, backward, backward.
    assert_eq!(
        d.to_vec(),
        vec![
            -22 * 1 + 36 * 4 - 18 * 9 + 4 * 16,
            -4 * 1 - 6 * 4 + 12 * 9 - 2 * 16,
            1 - 8 * 4 + 8 * 16 - 25,
            4 - 8 * 9 + 8 * 25 - 36,
            9 - 8 * 16 + 8 * 36 - 50,
            2 * 16 - 12 * 25 + 6 * 36 + 4 * 50,
            -4 * 16 + 18 * 25 - 36 * 36 + 22 * 50,
        ]
    );
    assert_eq!(d.to_vec(), vec![24, 48, 72, 96, 119, 148, 190]);
}

#[test]
fn second_derivative_of_given_samples() {
    let v = IntVector::from_vec(vec![0, 1, 8, 27, 64, 125, 216]);
    let d = second_deriv_vec(&v).unwrap();
    // The samples are the cubes of 0..7, whose second derivative is 6 q.
    assert_eq!(d.to_vec(), vec![0, 72, 144, 216, 288, 360, 432]);
}

#[test]
fn first_matrix_on_six_points() {
    let m = jac_first_deriv_vec(6).unwrap();
    assert_eq!(m.nrows(), 6);
    assert_eq!(
        rows_of(&m, 6),
        vec![
            vec![-22, 36, -18, 4, 0, 0],
            vec![-4, -6, 12, -2, 0, 0],
            vec![1, -8, 0, 8, -1, 0],
            vec![0, 1, -8, 0, 8, -1],
            vec![0, 0, 2, -12, 6, 4],
            vec![0, 0, -4, 18, -36, 22],
        ]
    );
}

#[test]
fn second_matrix_on_six_points() {
    let m = jac_second_deriv_vec(6).unwrap();
    assert_eq!(
        rows_of(&m, 6),
        vec![
            vec![35, -104, 114, -56, 11, 0],
            vec![11, -20, 6, 4, -1, 0],
            vec![-1, 16, -30, 16, -1, 0],
            vec![0, -1, 16, -30, 16, -1],
            vec![0, -1, 4, 6, -20, 11],
            vec![0, 11, -56, 114, -104, 35],
        ]
    );
}

#[test]
fn matrices_on_five_points() {
    let first = jac_first_deriv_vec(5).unwrap();
    assert_eq!(
        rows_of(&first, 5),
        vec![
            vec![-22, 36, -18, 4, 0],
            vec![-4, -6, 12, -2, 0],
            vec![1, -8, 0, 8, -1],
            vec![0, 2, -12, 6, 4],
            vec![0, -4, 18, -36, 22],
        ]
    );
    let second = jac_second_deriv_vec(5).unwrap();
    assert_eq!(
        rows_of(&second, 5),
        vec![
            vec![35, -104, 114, -56, 11],
            vec![11, -20, 6, 4, -1],
            vec![-1, 16, -30, 16, -1],
            vec![-1, 4, 6, -20, 11],
            vec![11, -56, 114, -104, 35],
        ]
    );
}

#[test]
fn matrix_times_vector_is_the_vector_form() {
    let values: Vec<i64> = vec![3, -7, 12, 0, 5, 41, -9, 8, 8, -100, 17];
    for n in 5..=values.len() {
        let v = IntVector::from_vec(values[..n].to_vec());
        let first = rows_of(&jac_first_deriv_vec(n).unwrap(), n);
        let second = rows_of(&jac_second_deriv_vec(n).unwrap(), n);
        let d1 = first_deriv_vec(&v).unwrap().to_vec();
        let d2 = second_deriv_vec(&v).unwrap().to_vec();
        for i in 0..n {
            let p1: i64 = (0..n).map(|j| first[i][j] * values[j]).sum();
            let p2: i64 = (0..n).map(|j| second[i][j] * values[j]).sum();
            assert_eq!(p1, d1[i]);
            assert_eq!(p2, d2[i]);
        }
    }
}

#[test]
fn every_row_of_both_matrices_sums_to_zero() {
    for n in [5usize, 8, 13] {
        let first = rows_of(&jac_first_deriv_vec(n).unwrap(), n);
        let second = rows_of(&jac_second_deriv_vec(n).unwrap(), n);
        for i in 0..n {
            assert_eq!(first[i].iter().sum::<i64>(), 0);
            assert_eq!(second[i].iter().sum::<i64>(), 0);
        }
    }
}

#[test]
fn grids_below_five_points_are_refused() {
    for n in 0..5usize {
        let v = IntVector::from_vec(vec![1; n]);
        assert_eq!(first_deriv_vec(&v).err(), Some(SolverError::GridTooSmall));
        assert_eq!(second_deriv_vec(&v).err(), Some(SolverError::GridTooSmall));
        assert_eq!(jac_first_deriv_vec(n).err(), Some(SolverError::GridTooSmall));
        assert_eq!(jac_second_deriv_vec(n).err(), Some(SolverError::GridTooSmall));
    }
}

#[test]
fn a_matrix_beyond_the_address_space_is_refused() {
    assert_eq!(jac_first_deriv_vec(usize::MAX).err(), Some(SolverError::GridTooLarge));
    assert_eq!(jac_second_deriv_vec(usize::MAX / 2).err(), Some(SolverError::GridTooLarge));
}

#[test]
fn a_derivative_that_leaves_the_range_is_an_overflow() {
    let v = IntVector::from_vec(vec![i64::MAX, 0, 0, 0, 0]);
    assert_eq!(first_deriv_vec(&v).err(), Some(SolverError::Overflow));
    assert_eq!(second_deriv_vec(&v).err(), Some(SolverError::Overflow));
    // The largest samples whose derivative still fits.
    let edge = IntVector::from_vec(vec![0, 0, 0, 0, 0, 0, i64::MAX / 22]);
    let d = first_deriv_vec(&edge).unwrap();
    assert_eq!(d.get(6), Some(22 * (i64::MAX / 22)));
    let over = IntVector::from_vec(vec![0, 0, 0, 0, 0, 0, i64::MAX / 22 + 1]);
    assert_eq!(first_deriv_vec(&over).err(), Some(SolverError::Overflow));
}

#[test]
fn constant_samples_have_no_derivative() {
    let v = IntVector::from_vec(vec![i64::MAX; 9]);
    assert_eq!(first_deriv_vec(&v).unwrap().to_vec(), vec![0; 9]);
    assert_eq!(second_deriv_vec(&v).unwrap().to_vec(), vec![0; 9]);
}

#[test]
fn stencil_table() {
    assert_eq!(first_row(RowKind::Leading), [-22, 36, -18, 4, 0]);
    assert_eq!(first_row(RowKind::NextLeading), [-4, -6, 12, -2, 0]);
    assert_eq!(first_row(RowKind::Central), [1, -8, 0, 8, -1]);
    assert_eq!(first_row(RowKind::NextTrailing), [0, 2, -12, 6, 4]);
    assert_eq!(first_row(RowKind::Trailing), [0, -4, 18, -36, 22]);
    assert_eq!(second_row(RowKind::Leading), [35, -104, 114, -56, 11]);
    assert_eq!(second_row(RowKind::NextLeading), [11, -20, 6, 4, -1]);
    assert_eq!(second_row(RowKind::Central), [-1, 16, -30, 16, -1]);
    assert_eq!(second_row(RowKind::NextTrailing), [-1, 4, 6, -20, 11]);
    assert_eq!(second_row(RowKind::Trailing), [11, -56, 114, -104, 35]);
    assert_eq!(coefficients(DerivOrder::First, RowKind::Central), first_row(RowKind::Central));
    assert_eq!(coefficients(DerivOrder::Second, RowKind::Leading), second_row(RowKind::Leading));
}

#[test]
fn rows_and_windows_of_a_grid() {
    let n = 8;
    let kinds: Vec<RowKind> = (0..n).map(|i| row_kind(n, i)).collect();
    assert_eq!(
        kinds,
        vec![
            RowKind::Leading,
            RowKind::NextLeading,
            RowKind::Central,
            RowKind::Central,
            RowKind::Central,
            RowKind::Central,
            RowKind::NextTrailing,
            RowKind::Trailing,
        ]
    );
    let starts: Vec<usize> = (0..n).map(|i| row_start(n, i)).collect();
    assert_eq!(starts, vec![0, 0, 0, 1, 2, 3, 3, 3]);
}
