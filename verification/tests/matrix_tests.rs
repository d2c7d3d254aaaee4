#![allow(non_snake_case)]

use matrix::Matrix;

/// Narrows a grid of floats with integral values to the `i64` grid the
/// library computes over.
fn grid(rows: Vec<Vec<f64>>) -> Vec<Vec<i64>> {
    rows.into_iter().map(|r| r.into_iter().map(|x| x as i64).collect()).collect()
}

#[test]
fn two_dot_two_float() {
    let data: Vec<Vec<f64>> = vec![vec![2., 2.], vec![4., 4.]];
    let A = Matrix { data: grid(data) };
    let B = A.clone();

    let dotted = A.dot(&B);

    let result = Matrix { data: grid(vec![vec![12., 12.], vec![24., 24.]]) };
    assert_eq!(dotted, result);
}

#[test]
fn two_dot_two_i32() {
    let data: Vec<Vec<i64>> = vec![vec![2, 2], vec![4, 4]];
    let A = Matrix { data };
    let B = A.clone();

    let dotted = A.dot(&B);

    let result = Matrix { data: vec![vec![12, 12], vec![24, 24]] };
    assert_eq!(dotted, result);
}

#[test]
fn three_dot_three_float() {
    let data_3: Vec<Vec<f64>> = vec![vec![2., 2., 2.], vec![4., 4., 4.], vec![6., 6., 6.]];
    let C = Matrix { data: grid(data_3) };
    let D = C.clone();

    let dotted = C.dot(&D);

    let result = Matrix {
        data: grid(vec![vec![24., 24., 24.], vec![48., 48., 48.], vec![72., 72., 72.]]),
    };
    assert_eq!(dotted, result);
}

#[test]
fn transpose_two_by_three() {
    let data: Vec<Vec<i64>> = vec![vec![1, 2], vec![3, 4], vec![5, 6]];
    let A = Matrix { data };

    let A_T = A.transpose();
    let result = Matrix { data: vec![vec![1, 3, 5], vec![2, 4, 6]] };
    assert_eq!(A_T, result);
}

#[test]
fn dot_is_associative_concrete() {
    let A = Matrix { data: vec![vec![1, 2], vec![3, 4]] };
    let B = Matrix { data: vec![vec![5, 6], vec![7, 8]] };
    let C = Matrix { data: vec![vec![9, 10], vec![11, 12]] };

    let left = A.dot(&B).dot(&C);
    let right = A.dot(&B.dot(&C));
    assert_eq!(left, right);
}

#[test]
fn transpose_twice_returns_original() {
    let A = Matrix { data: vec![vec![1, 2], vec![3, 4], vec![5, 6]] };
    let back = A.transpose().transpose();
    assert_eq!(back, A);
}

#[test]
fn dot_identity_leaves_matrix_unchanged() {
    let A = Matrix { data: vec![vec![7, -3, 2], vec![0, 5, 11]] };
    let product = A.dot(&Matrix::identity(3));
    assert_eq!(product, A);
}

#[test]
fn identity_contents() {
    let I = Matrix::identity(3);
    let expected = Matrix { data: vec![vec![1, 0, 0], vec![0, 1, 0], vec![0, 0, 1]] };
    assert_eq!(I, expected);
}

#[test]
fn dot_shape_is_rows_by_cols() {
    let A = Matrix { data: vec![vec![1, 2, 3], vec![4, 5, 6]] };
    let B = Matrix { data: vec![vec![1, 0, 0, 1], vec![0, 1, 1, 0], vec![1, 1, 0, 0]] };

    let product = A.dot(&B);
    assert_eq!(product.data.len(), 2);
    for row in &product.data {
        assert_eq!(row.len(), 4);
    }
}

#[test]
fn transpose_shape_is_swapped() {
    let A = Matrix { data: vec![vec![1, 2, 3], vec![4, 5, 6]] };
    let T = A.transpose();
    assert_eq!(T.data.len(), 3);
    for row in &T.data {
        assert_eq!(row.len(), 2);
    }
}

#[test]
fn dot_negative_values() {
    let A = Matrix { data: vec![vec![-1, 2], vec![3, -4]] };
    let B = Matrix { data: vec![vec![5, -6], vec![-7, 8]] };

    let dotted = A.dot(&B);
    let result = Matrix { data: vec![vec![-19, 22], vec![43, -50]] };
    assert_eq!(dotted, result);
}

#[test]
fn matrices_with_different_elements_are_unequal() {
    let A = Matrix { data: vec![vec![1, 2], vec![3, 4]] };
    let B = Matrix { data: vec![vec![1, 2], vec![3, 5]] };
    let C = Matrix { data: vec![vec![1, 2]] };
    assert_ne!(A, B);
    assert_ne!(A, C);
}

#[test]
fn display_two_by_two() {
    let A = Matrix { data: vec![vec![1, 2], vec![3, 4]] };
    assert_eq!(A.to_display_string(), "Matrix(1,2\n       3,4)");
}

#[test]
fn display_single_row() {
    let A = Matrix { data: vec![vec![10, 0, -5]] };
    assert_eq!(A.to_display_string(), "Matrix(10,0,-5)");
}

#[test]
fn display_negative_multi_digit() {
    let A = Matrix { data: vec![vec![-120], vec![304]] };
    assert_eq!(A.to_display_string(), "Matrix(-120\n       304)");
}
