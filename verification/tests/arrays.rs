use boltzmann::array::{IntMatrix, IntVector};

#[test]
fn a_vector_keeps_its_entries() {
    let v = IntVector::from_vec(vec![5, -3, 0, i64::MIN, i64::MAX]);
    assert_eq!(v.len(), 5);
    assert_eq!(v.get(0), Some(5));
    assert_eq!(v.get(1), Some(-3));
    assert_eq!(v.get(3), Some(i64::MIN));
    assert_eq!(v.get(4), Some(i64::MAX));
    assert_eq!(v.get(5), None);
    assert_eq!(v.at(2), 0);
    assert_eq!(v.to_vec(), vec![5, -3, 0, i64::MIN, i64::MAX]);
}

#[test]
fn an_empty_vector() {
    let v = IntVector::from_vec(Vec::new());
    assert_eq!(v.len(), 0);
    assert_eq!(v.get(0), None);
    assert_eq!(v.to_vec(), Vec::<i64>::new());
}

#[test]
fn a_zero_matrix_and_its_updates() {
    let mut m = IntMatrix::zeros(3).unwrap();
    assert_eq!(m.nrows(), 3);
    for i in 0..3 {
        for j in 0..3 {
            assert_eq!(m.get(i, j), Some(0));
        }
    }
    m.put(1, 2, 7);
    m.put(2, 0, -4);
    assert_eq!(m.get(1, 2), Some(7));
    assert_eq!(m.at(2, 0), -4);
    assert_eq!(m.get(2, 1), Some(0));
    assert_eq!(m.get(0, 0), Some(0));
    assert_eq!(m.get(3, 0), None);
    assert_eq!(m.get(0, 3), None);
    assert_eq!(m.row(1).to_vec(), vec![0, 0, 7]);
    assert_eq!(m.row(2).to_vec(), vec![-4, 0, 0]);
}

#[test]
fn a_matrix_that_cannot_be_addressed() {
    assert!(IntMatrix::zeros(usize::MAX).is_none());
    assert!(IntMatrix::zeros(1 << 31).is_none());
    assert!(IntMatrix::zeros(0).is_some());
}
